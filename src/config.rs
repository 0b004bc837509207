//! The configuration document: main settings and one entry per displayed element.
use vstd::prelude::*;

verus! {

/// Separator used between elements when the settings do not name one.
pub const DEFAULT_SEPARATOR: &'static str = ", ";

/// Options of the host itself.
pub struct SwaystatusMainConfig {
    /// Text placed between two adjacent elements.
    pub separator: String,
}

impl Default for SwaystatusMainConfig {
    fn default() -> (r: Self)
        ensures
            r.separator@ == DEFAULT_SEPARATOR@,
    {
        SwaystatusMainConfig { separator: String::from_str(DEFAULT_SEPARATOR) }
    }
}

/// Per-element options that do not belong to the plugin.
pub struct SwaystatusElementNonPluginOptions {
    /// Text written right before the element's text.
    pub before_text: String,
    /// Text written right after the element's text.
    pub after_text: String,
}

impl Default for SwaystatusElementNonPluginOptions {
    fn default() -> (r: Self)
        ensures
            r.before_text@ == Seq::<char>::empty(),
            r.after_text@ == Seq::<char>::empty(),
    {
        SwaystatusElementNonPluginOptions { before_text: String::new(), after_text: String::new() }
    }
}

/// What the host knows of an element entry.
pub struct ElementView<C> {
    pub plugin: Seq<char>,
    pub config: C,
    pub before_text: Seq<char>,
    pub after_text: Seq<char>,
}

/// The configuration of one element: the plugin that provides it, the plugin's own
/// configuration object, and the host's framing options.
pub struct SwaystatusPluginConfig<C> {
    plugin: String,
    config: C,
    general: SwaystatusElementNonPluginOptions,
}

impl<C> View for SwaystatusPluginConfig<C> {
    type V = ElementView<C>;

    closed spec fn view(&self) -> ElementView<C> {
        ElementView {
            plugin: self.plugin@,
            config: self.config,
            before_text: self.general.before_text@,
            after_text: self.general.after_text@,
        }
    }
}

impl<C> SwaystatusPluginConfig<C> {
    pub fn new(plugin: String, config: C, general: SwaystatusElementNonPluginOptions) -> (r: Self)
        ensures
            r@ == (ElementView {
                plugin: plugin@,
                config,
                before_text: general.before_text@,
                after_text: general.after_text@,
            }),
    {
        SwaystatusPluginConfig { plugin, config, general }
    }

    /// The plugin's configuration object.
    pub fn get_instance(&self) -> (r: &C)
        ensures
            *r == self@.config,
    {
        &self.config
    }

    /// The name of the plugin that provides the element.
    pub fn get_name(&self) -> (r: &str)
        ensures
            r@ == self@.plugin,
    {
        self.plugin.as_str()
    }

    /// The host's own options for the element.
    pub fn get_non_plugin_settings(&self) -> (r: &SwaystatusElementNonPluginOptions)
        ensures
            r.before_text@ == self@.before_text,
            r.after_text@ == self@.after_text,
    {
        &self.general
    }
}

/// The whole document. Both sections may be absent.
pub struct SwaystatusConfig<C> {
    pub settings: Option<SwaystatusMainConfig>,
    pub elements: Option<Vec<SwaystatusPluginConfig<C>>>,
}

/// The elements that a document lists, none where the section is absent.
pub open spec fn listed_elements<C>(elements: Option<Vec<SwaystatusPluginConfig<C>>>) -> Seq<
    ElementView<C>,
> {
    match elements {
        Some(v) => v@.map_values(|e: SwaystatusPluginConfig<C>| e@),
        None => Seq::empty(),
    }
}

impl<C> SwaystatusConfig<C> {
    /// A document with default settings and one element for each named default
    /// configuration, in the order given; without any, the element section is absent.
    pub fn create_default(defaults: Vec<(String, C)>) -> (r: Self)
        ensures
            r.settings matches Some(s) && s.separator@ == DEFAULT_SEPARATOR@,
            r.elements is None <==> defaults@.len() == 0,
            listed_elements(r.elements).len() == defaults@.len(),
            forall|i: int|
                0 <= i < defaults@.len() ==> #[trigger] listed_elements(r.elements)[i] == (ElementView {
                    plugin: defaults@[i].0@,
                    config: defaults@[i].1,
                    before_text: Seq::<char>::empty(),
                    after_text: Seq::<char>::empty(),
                }),
    {
        let n = defaults.len();
        let mut elements: Vec<SwaystatusPluginConfig<C>> = Vec::new();
        let mut rest = defaults;
        let ghost all = rest@;
        // Taken from the back, then put in order.
        let mut reversed: Vec<SwaystatusPluginConfig<C>> = Vec::new();
        while rest.len() > 0
            invariant
                rest@ == all.subrange(0, rest@.len() as int),
                reversed@.len() == all.len() - rest@.len(),
                forall|j: int|
                    0 <= j < reversed@.len() ==> #[trigger] reversed@[j]@ == (ElementView {
                        plugin: all[all.len() - 1 - j].0@,
                        config: all[all.len() - 1 - j].1,
                        before_text: Seq::<char>::empty(),
                        after_text: Seq::<char>::empty(),
                    }),
            decreases rest@.len(),
        {
            let (name, config) = rest.pop().unwrap();
            let e = SwaystatusPluginConfig::new(
                name,
                config,
                SwaystatusElementNonPluginOptions::default(),
            );
            reversed.push(e);
        }
        while reversed.len() > 0
            invariant
                elements@.len() + reversed@.len() == all.len(),
                forall|j: int|
                    0 <= j < reversed@.len() ==> #[trigger] reversed@[j]@ == (ElementView {
                        plugin: all[all.len() - 1 - j].0@,
                        config: all[all.len() - 1 - j].1,
                        before_text: Seq::<char>::empty(),
                        after_text: Seq::<char>::empty(),
                    }),
                forall|j: int|
                    0 <= j < elements@.len() ==> #[trigger] elements@[j]@ == (ElementView {
                        plugin: all[j].0@,
                        config: all[j].1,
                        before_text: Seq::<char>::empty(),
                        after_text: Seq::<char>::empty(),
                    }),
            decreases reversed@.len(),
        {
            let e = reversed.pop().unwrap();
            elements.push(e);
        }
        let settings = Some(SwaystatusMainConfig::default());
        if n == 0 {
            SwaystatusConfig { settings, elements: None }
        } else {
            SwaystatusConfig { settings, elements: Some(elements) }
        }
    }

    /// The elements, none where the section is absent, and the settings, the defaults where
    /// the section is absent.
    pub fn into_parts(self) -> (r: (Vec<SwaystatusPluginConfig<C>>, SwaystatusMainConfig))
        ensures
            r.0@.map_values(|e: SwaystatusPluginConfig<C>| e@) == listed_elements(self.elements),
            self.settings matches Some(s) ==> r.1 == s,
            self.settings is None ==> r.1.separator@ == DEFAULT_SEPARATOR@,
    {
        let elements = match self.elements {
            Some(v) => v,
            None => {
                let v: Vec<SwaystatusPluginConfig<C>> = Vec::new();
                assert(v@.map_values(|e: SwaystatusPluginConfig<C>| e@) =~= Seq::<
                    ElementView<C>,
                >::empty());
                v
            },
        };
        let settings = match self.settings {
            Some(s) => s,
            None => SwaystatusMainConfig::default(),
        };
        (elements, settings)
    }
}

/// Why a configuration could not be read.
pub enum SwaystatusConfigErrors {
    /// The configuration file could not be read.
    FileNotFound,
    /// The document is not a valid configuration.
    ParsingError { message: String },
}

} // verus!
