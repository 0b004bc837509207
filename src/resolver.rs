//! Field-level rules of the configuration document. The parser reports each key it meets
//! to these state machines, which say what the key's value is to be read as, or why the
//! document is refused: a field twice, a field unknown, `Config` before `Plugin`, or a
//! plugin that is not loaded.
use vstd::prelude::*;
use crate::plugin_database::PluginDatabase;

verus! {

/// The fields that the rules name in their errors.
#[derive(Debug, Clone, Copy, PartialEq, Eq, Structural)]
pub enum FieldName {
    Settings,
    Element,
    Plugin,
    Config,
    General,
}

pub open spec fn field_name_text(f: FieldName) -> Seq<char> {
    match f {
        FieldName::Settings => "Settings"@,
        FieldName::Element => "Element"@,
        FieldName::Plugin => "Plugin"@,
        FieldName::Config => "Config"@,
        FieldName::General => "General"@,
    }
}

impl FieldName {
    /// The field's name as the document writes it.
    pub fn as_str(&self) -> (r: &'static str)
        ensures
            r@ == field_name_text(*self),
    {
        match self {
            FieldName::Settings => "Settings",
            FieldName::Element => "Element",
            FieldName::Plugin => "Plugin",
            FieldName::Config => "Config",
            FieldName::General => "General",
        }
    }
}

/// Why the fields of a document are refused.
pub enum ConfigFieldError {
    /// The field appears twice in one table.
    DuplicateField(FieldName),
    /// A field is missing, or `Config` came before the `Plugin` that interprets it.
    MissingField(FieldName),
    /// A key that the table does not have.
    UnknownField(String),
    /// An element names a plugin that is not loaded.
    UnknownPlugin(String),
}

/// Compares two texts.
fn same_text(a: &str, b: &str) -> (r: bool)
    ensures
        r == (a@ == b@),
{
    let x = a.to_owned();
    let y = b.to_owned();
    x == y
}

/// A section of the top-level table.
#[derive(Debug, Clone, Copy, PartialEq, Eq, Structural)]
pub enum TopLevelField {
    Settings,
    Element,
}

/// The section a top-level key names. Names are case-sensitive and have no other spelling.
pub open spec fn top_level_field_of(key: Seq<char>) -> Option<TopLevelField> {
    if key == "Settings"@ {
        Some(TopLevelField::Settings)
    } else if key == "Element"@ {
        Some(TopLevelField::Element)
    } else {
        None
    }
}

/// The section a top-level key names, if any.
pub fn top_level_field(key: &str) -> (r: Option<TopLevelField>)
    ensures
        r == top_level_field_of(key@),
{
    if same_text(key, "Settings") {
        Some(TopLevelField::Settings)
    } else if same_text(key, "Element") {
        Some(TopLevelField::Element)
    } else {
        None
    }
}

/// Which top-level sections were met so far.
#[derive(Debug, Clone, Copy, PartialEq, Eq, Structural)]
pub struct TopLevelFields {
    pub settings_seen: bool,
    pub element_seen: bool,
}

/// Outcome of one top-level key on a state: the next state and the section, or the error.
pub open spec fn top_level_step(s: TopLevelFields, key: Seq<char>) -> Result<
    (TopLevelFields, TopLevelField),
    FieldFault,
> {
    match top_level_field_of(key) {
        None => Err(FieldFault::Unknown),
        Some(TopLevelField::Settings) => if s.settings_seen {
            Err(FieldFault::Duplicate(FieldName::Settings))
        } else {
            Ok((TopLevelFields { settings_seen: true, ..s }, TopLevelField::Settings))
        },
        Some(TopLevelField::Element) => if s.element_seen {
            Err(FieldFault::Duplicate(FieldName::Element))
        } else {
            Ok((TopLevelFields { element_seen: true, ..s }, TopLevelField::Element))
        },
    }
}

/// The kind of a field error, without the text it carries.
#[derive(Debug, Clone, Copy, PartialEq, Eq, Structural)]
pub enum FieldFault {
    Duplicate(FieldName),
    Missing(FieldName),
    Unknown,
    UnknownPlugin,
}

pub open spec fn fault_of(e: ConfigFieldError) -> FieldFault {
    match e {
        ConfigFieldError::DuplicateField(f) => FieldFault::Duplicate(f),
        ConfigFieldError::MissingField(f) => FieldFault::Missing(f),
        ConfigFieldError::UnknownField(_) => FieldFault::Unknown,
        ConfigFieldError::UnknownPlugin(_) => FieldFault::UnknownPlugin,
    }
}

impl TopLevelFields {
    /// No section met yet.
    pub fn new() -> (r: Self)
        ensures
            !r.settings_seen && !r.element_seen,
    {
        TopLevelFields { settings_seen: false, element_seen: false }
    }

    /// Takes in the next top-level key. A key of a section met before is refused as a
    /// duplicate; any key other than `Settings` and `Element` is refused and named.
    pub fn on_key(&mut self, key: &str) -> (r: Result<TopLevelField, ConfigFieldError>)
        ensures
            match top_level_step(*old(self), key@) {
                Ok((s, f)) => r == Ok::<TopLevelField, ConfigFieldError>(f) && *final(self) == s,
                Err(fault) => r matches Err(e) && fault_of(e) == fault && *final(self) == *old(
                    self,
                ),
            },
            r matches Err(ConfigFieldError::UnknownField(k)) ==> k@ == key@,
    {
        match top_level_field(key) {
            None => Err(ConfigFieldError::UnknownField(key.to_owned())),
            Some(TopLevelField::Settings) => {
                if self.settings_seen {
                    Err(ConfigFieldError::DuplicateField(FieldName::Settings))
                } else {
                    self.settings_seen = true;
                    Ok(TopLevelField::Settings)
                }
            },
            Some(TopLevelField::Element) => {
                if self.element_seen {
                    Err(ConfigFieldError::DuplicateField(FieldName::Element))
                } else {
                    self.element_seen = true;
                    Ok(TopLevelField::Element)
                }
            },
        }
    }
}

/// A field of an element entry.
#[derive(Debug, Clone, Copy, PartialEq, Eq, Structural)]
pub enum ElementField {
    Plugin,
    Config,
    General,
}

/// The field an element key names. Names are case-sensitive and have no other spelling.
pub open spec fn element_field_of(key: Seq<char>) -> Option<ElementField> {
    if key == "Plugin"@ {
        Some(ElementField::Plugin)
    } else if key == "Config"@ {
        Some(ElementField::Config)
    } else if key == "General"@ {
        Some(ElementField::General)
    } else {
        None
    }
}

/// The field an element key names, if any.
pub fn element_field(key: &str) -> (r: Option<ElementField>)
    ensures
        r == element_field_of(key@),
{
    if same_text(key, "Plugin") {
        Some(ElementField::Plugin)
    } else if same_text(key, "Config") {
        Some(ElementField::Config)
    } else if same_text(key, "General") {
        Some(ElementField::General)
    } else {
        None
    }
}

/// What is known of an element entry so far.
pub struct ElementFields {
    /// The `Plugin` key was met.
    pub plugin_seen: bool,
    /// The plugin name, once its value was read.
    pub plugin: Option<String>,
    pub config_seen: bool,
    pub general_seen: bool,
}

/// The part of an entry's state that decides the next key's outcome.
pub struct ElementState {
    pub plugin_seen: bool,
    pub plugin: Option<Seq<char>>,
    pub config_seen: bool,
    pub general_seen: bool,
}

impl View for ElementFields {
    type V = ElementState;

    open spec fn view(&self) -> ElementState {
        ElementState {
            plugin_seen: self.plugin_seen,
            plugin: match self.plugin {
                Some(p) => Some(p@),
                None => None,
            },
            config_seen: self.config_seen,
            general_seen: self.general_seen,
        }
    }
}

/// Outcome of one element key: the next state and the field, or the error. `Config` is
/// read through the plugin that `Plugin` named, so it must come after it.
pub open spec fn element_step(s: ElementState, key: Seq<char>) -> Result<
    (ElementState, ElementField),
    FieldFault,
> {
    match element_field_of(key) {
        None => Err(FieldFault::Unknown),
        Some(ElementField::Plugin) => if s.plugin_seen {
            Err(FieldFault::Duplicate(FieldName::Plugin))
        } else {
            Ok((ElementState { plugin_seen: true, ..s }, ElementField::Plugin))
        },
        Some(ElementField::Config) => if s.config_seen {
            Err(FieldFault::Duplicate(FieldName::Config))
        } else if s.plugin is None {
            Err(FieldFault::Missing(FieldName::Plugin))
        } else {
            Ok((ElementState { config_seen: true, ..s }, ElementField::Config))
        },
        Some(ElementField::General) => if s.general_seen {
            Err(FieldFault::Duplicate(FieldName::General))
        } else {
            Ok((ElementState { general_seen: true, ..s }, ElementField::General))
        },
    }
}

impl ElementFields {
    /// No field met yet.
    pub fn new() -> (r: Self)
        ensures
            r@ == (ElementState {
                plugin_seen: false,
                plugin: None,
                config_seen: false,
                general_seen: false,
            }),
    {
        ElementFields { plugin_seen: false, plugin: None, config_seen: false, general_seen: false }
    }

    /// Takes in the next key of the entry.
    pub fn on_key(&mut self, key: &str) -> (r: Result<ElementField, ConfigFieldError>)
        ensures
            match element_step(old(self)@, key@) {
                Ok((s, f)) => r == Ok::<ElementField, ConfigFieldError>(f) && final(self)@ == s,
                Err(fault) => r matches Err(e) && fault_of(e) == fault && final(self)@ == old(
                    self,
                )@,
            },
            r matches Err(ConfigFieldError::UnknownField(k)) ==> k@ == key@,
    {
        match element_field(key) {
            None => Err(ConfigFieldError::UnknownField(key.to_owned())),
            Some(ElementField::Plugin) => {
                if self.plugin_seen {
                    Err(ConfigFieldError::DuplicateField(FieldName::Plugin))
                } else {
                    self.plugin_seen = true;
                    Ok(ElementField::Plugin)
                }
            },
            Some(ElementField::Config) => {
                if self.config_seen {
                    Err(ConfigFieldError::DuplicateField(FieldName::Config))
                } else if self.plugin.is_none() {
                    Err(ConfigFieldError::MissingField(FieldName::Plugin))
                } else {
                    self.config_seen = true;
                    Ok(ElementField::Config)
                }
            },
            Some(ElementField::General) => {
                if self.general_seen {
                    Err(ConfigFieldError::DuplicateField(FieldName::General))
                } else {
                    self.general_seen = true;
                    Ok(ElementField::General)
                }
            },
        }
    }

    /// Records the plugin name, the value read after `on_key` accepted `Plugin`.
    pub fn set_plugin(&mut self, name: String)
        ensures
            final(self)@ == (ElementState { plugin: Some(name@), ..old(self)@ }),
    {
        self.plugin = Some(name);
    }

    /// The plugin that reads this entry's `Config`: the one loaded under the recorded name.
    pub fn resolve_plugin<'a, P>(&self, plugins: &'a PluginDatabase<P>) -> (r: Result<
        &'a P,
        ConfigFieldError,
    >)
        requires
            plugins.wf(),
        ensures
            self@.plugin is None ==> (r matches Err(e) && e == ConfigFieldError::MissingField(
                FieldName::Plugin,
            )),
            self@.plugin matches Some(name) ==> {
                &&& r is Ok <==> plugins@.contains_key(name)
                &&& r matches Ok(p) ==> *p == plugins@[name]
                &&& r matches Err(e) ==> (e matches ConfigFieldError::UnknownPlugin(n) && n@ == name)
            },
    {
        match &self.plugin {
            None => Err(ConfigFieldError::MissingField(FieldName::Plugin)),
            Some(name) => match plugins.get_plugin(name.as_str()) {
                Some(p) => Ok(p),
                None => Err(ConfigFieldError::UnknownPlugin(name.clone())),
            },
        }
    }

    /// Ends the entry: it must have named its plugin and given its `Config`. Returns the
    /// plugin name.
    pub fn finish(self) -> (r: Result<String, ConfigFieldError>)
        ensures
            self@.plugin is None ==> (r matches Err(e) && e == ConfigFieldError::MissingField(
                FieldName::Plugin,
            )),
            self@.plugin is Some && !self.config_seen ==> (r matches Err(e) && e
                == ConfigFieldError::MissingField(FieldName::Config)),
            r is Ok <==> self@.plugin is Some && self.config_seen,
            r matches Ok(n) ==> self@.plugin == Some(n@),
    {
        match self.plugin {
            None => Err(ConfigFieldError::MissingField(FieldName::Plugin)),
            Some(name) => if self.config_seen {
                Ok(name)
            } else {
                Err(ConfigFieldError::MissingField(FieldName::Config))
            },
        }
    }
}


/// The state after a run of top-level keys, or the first error.
pub open spec fn top_level_run(s: TopLevelFields, keys: Seq<Seq<char>>) -> Result<TopLevelFields, FieldFault>
    decreases keys.len(),
{
    if keys.len() == 0 {
        Ok(s)
    } else {
        match top_level_step(s, keys[0]) {
            Ok((next, _)) => top_level_run(next, keys.skip(1)),
            Err(f) => Err(f),
        }
    }
}

pub open spec fn section_seen(s: TopLevelFields, f: TopLevelField) -> bool {
    match f {
        TopLevelField::Settings => s.settings_seen,
        TopLevelField::Element => s.element_seen,
    }
}

/// Every key of the run names a section.
pub open spec fn all_sections(keys: Seq<Seq<char>>) -> bool {
    forall|k: int| 0 <= k < keys.len() ==> (#[trigger] top_level_field_of(keys[k])) is Some
}

proof fn lemma_seen_or_repeated_refused(s: TopLevelFields, keys: Seq<Seq<char>>)
    requires
        all_sections(keys),
        (exists|k: int| 0 <= k < keys.len() && section_seen(s, top_level_field_of(keys[k])->Some_0))
            || (exists|i: int, j: int|
            0 <= i < j < keys.len() && top_level_field_of(keys[i]) == top_level_field_of(keys[j])),
    ensures
        top_level_run(s, keys) matches Err(FieldFault::Duplicate(_)),
    decreases keys.len(),
{
    let f0 = top_level_field_of(keys[0])->Some_0;
    assert(top_level_field_of(keys[0]) is Some);
    if !section_seen(s, f0) {
        let next = top_level_step(s, keys[0])->Ok_0.0;
        let rest = keys.skip(1);
        assert(section_seen(next, f0));
        assert(all_sections(rest)) by {
            assert forall|k: int| 0 <= k < rest.len() implies (#[trigger] top_level_field_of(rest[k])) is Some by {
                assert(rest[k] == keys[k + 1]);
                assert(top_level_field_of(keys[k + 1]) is Some);
            }
        }
        if exists|k: int| 0 <= k < keys.len() && section_seen(s, top_level_field_of(keys[k])->Some_0) {
            let k = choose|k: int| 0 <= k < keys.len() && section_seen(s, top_level_field_of(keys[k])->Some_0);
            assert(k > 0);
            assert(rest[k - 1] == keys[k]);
            assert(top_level_field_of(keys[k]) is Some);
            assert(section_seen(next, top_level_field_of(rest[k - 1])->Some_0));
        } else {
            let (i, j) = choose|i: int, j: int|
                0 <= i < j < keys.len() && top_level_field_of(keys[i]) == top_level_field_of(keys[j]);
            assert(rest[j - 1] == keys[j]);
            if i == 0 {
                assert(section_seen(next, top_level_field_of(rest[j - 1])->Some_0));
            } else {
                assert(rest[i - 1] == keys[i]);
                assert(top_level_field_of(rest[i - 1]) == top_level_field_of(rest[j - 1]));
            }
        }
        lemma_seen_or_repeated_refused(next, rest);
    }
}

/// A document whose top level names the same section twice is refused with a
/// duplicate-field error.
pub proof fn lemma_repeated_section_refused(keys: Seq<Seq<char>>, i: int, j: int)
    requires
        all_sections(keys),
        0 <= i < j < keys.len(),
        top_level_field_of(keys[i]) == top_level_field_of(keys[j]),
    ensures
        top_level_run(TopLevelFields { settings_seen: false, element_seen: false }, keys) matches Err(
            FieldFault::Duplicate(_),
        ),
{
    lemma_seen_or_repeated_refused(TopLevelFields { settings_seen: false, element_seen: false }, keys);
}

/// The state after a run of element keys, where the value read for `Plugin` is `name`,
/// or the first error.
pub open spec fn element_run(s: ElementState, keys: Seq<Seq<char>>, name: Seq<char>) -> Result<ElementState, FieldFault>
    decreases keys.len(),
{
    if keys.len() == 0 {
        Ok(s)
    } else {
        match element_step(s, keys[0]) {
            Ok((next, ElementField::Plugin)) => element_run(
                ElementState { plugin: Some(name), ..next },
                keys.skip(1),
                name,
            ),
            Ok((next, _)) => element_run(next, keys.skip(1), name),
            Err(f) => Err(f),
        }
    }
}

/// An entry whose first `Config` key comes before any `Plugin` key is refused, whatever
/// other keys stand before it.
pub proof fn lemma_config_before_plugin_refused(
    s: ElementState,
    keys: Seq<Seq<char>>,
    name: Seq<char>,
    j: int,
)
    requires
        s.plugin is None,
        0 <= j < keys.len(),
        element_field_of(keys[j]) == Some(ElementField::Config),
        forall|k: int| 0 <= k < j ==> element_field_of(#[trigger] keys[k]) != Some(ElementField::Plugin),
    ensures
        element_run(s, keys, name) is Err,
    decreases keys.len(),
{
    if j > 0 {
        match element_step(s, keys[0]) {
            Ok((next, f)) => {
                assert(element_field_of(keys[0]) != Some(ElementField::Plugin));
                assert(f != ElementField::Plugin);
                let rest = keys.skip(1);
                assert(rest[j - 1] == keys[j]);
                assert forall|k: int| 0 <= k < j - 1 implies element_field_of(#[trigger] rest[k]) != Some(
                    ElementField::Plugin,
                ) by {
                    assert(rest[k] == keys[k + 1]);
                }
                lemma_config_before_plugin_refused(next, rest, name, j - 1);
            },
            Err(_) => {},
        }
    }
}

/// The order in which a document is written out, sections `Settings` then `Element`, and
/// in each entry `Plugin`, `Config`, `General`, is accepted, and the entry then names its
/// plugin and has its `Config`.
pub proof fn lemma_written_order_accepted(name: Seq<char>)
    ensures
        top_level_run(
            TopLevelFields { settings_seen: false, element_seen: false },
            seq!["Settings"@, "Element"@],
        ) is Ok,
        element_run(
            ElementState { plugin_seen: false, plugin: None, config_seen: false, general_seen: false },
            seq!["Plugin"@, "Config"@, "General"@],
            name,
        ) matches Ok(s) && s.plugin == Some(name) && s.config_seen,
{
    reveal_strlit("Settings");
    reveal_strlit("Element");
    reveal_strlit("Plugin");
    reveal_strlit("Config");
    reveal_strlit("General");
    let top = seq!["Settings"@, "Element"@];
    let t0 = TopLevelFields { settings_seen: false, element_seen: false };
    let t1 = TopLevelFields { settings_seen: true, element_seen: false };
    let t2 = TopLevelFields { settings_seen: true, element_seen: true };
    assert(top.skip(1) =~= seq!["Element"@]);
    assert(top.skip(1).skip(1) =~= Seq::<Seq<char>>::empty());
    assert("Element"@[0] != "Settings"@[0]);
    assert(top_level_step(t0, top[0]) == Ok::<_, FieldFault>((t1, TopLevelField::Settings)));
    assert(top_level_step(t1, top.skip(1)[0]) == Ok::<_, FieldFault>((t2, TopLevelField::Element)));
    assert(top_level_run(t2, top.skip(1).skip(1)) == Ok::<_, FieldFault>(t2));
    assert(top_level_run(t1, top.skip(1)) == Ok::<_, FieldFault>(t2));
    assert(top_level_run(t0, top) == Ok::<_, FieldFault>(t2));

    let keys = seq!["Plugin"@, "Config"@, "General"@];
    let e0 = ElementState { plugin_seen: false, plugin: None, config_seen: false, general_seen: false };
    let e1 = ElementState { plugin_seen: true, plugin: Some(name), config_seen: false, general_seen: false };
    let e2 = ElementState { plugin_seen: true, plugin: Some(name), config_seen: true, general_seen: false };
    let e3 = ElementState { plugin_seen: true, plugin: Some(name), config_seen: true, general_seen: true };
    let k1 = keys.skip(1);
    let k2 = k1.skip(1);
    let k3 = k2.skip(1);
    assert(k1 =~= seq!["Config"@, "General"@]);
    assert(k2 =~= seq!["General"@]);
    assert(k3 =~= Seq::<Seq<char>>::empty());
    assert("Config"@[0] != "Plugin"@[0]);
    assert("General"@[0] != "Plugin"@[0]);
    assert("General"@[0] != "Config"@[0]);
    assert(element_step(e0, keys[0]) matches Ok((n, ElementField::Plugin)) && ElementState { plugin: Some(name), ..n } == e1);
    assert(element_step(e1, k1[0]) == Ok::<_, FieldFault>((e2, ElementField::Config)));
    assert(element_step(e2, k2[0]) == Ok::<_, FieldFault>((e3, ElementField::General)));
    assert(element_run(e3, k3, name) == Ok::<_, FieldFault>(e3));
    assert(element_run(e2, k2, name) == Ok::<_, FieldFault>(e3));
    assert(element_run(e1, k1, name) == Ok::<_, FieldFault>(e3));
    assert(element_run(e0, keys, name) == Ok::<_, FieldFault>(e3));
}

} // verus!
