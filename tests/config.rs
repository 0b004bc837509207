use swaystatus::config::{
    SwaystatusConfig, SwaystatusConfigErrors, SwaystatusElementNonPluginOptions,
    SwaystatusMainConfig, SwaystatusPluginConfig, DEFAULT_SEPARATOR,
};

#[test]
fn omitted_settings_use_default_separator() {
    let config: SwaystatusConfig<u8> = SwaystatusConfig { settings: None, elements: None };
    let (elements, settings) = config.into_parts();
    assert!(elements.is_empty());
    assert_eq!(settings.separator, ", ");
    assert_eq!(DEFAULT_SEPARATOR, ", ");
    assert_eq!(SwaystatusMainConfig::default().separator, ", ");
}

#[test]
fn given_settings_are_kept() {
    let config: SwaystatusConfig<u8> = SwaystatusConfig {
        settings: Some(SwaystatusMainConfig { separator: String::from("Kisses!") }),
        elements: Some(vec![SwaystatusPluginConfig::new(
            String::from("clock"),
            4,
            SwaystatusElementNonPluginOptions::default(),
        )]),
    };
    let (elements, settings) = config.into_parts();
    assert_eq!(settings.separator, "Kisses!");
    assert_eq!(elements.len(), 1);
    assert_eq!(elements[0].get_name(), "clock");
    assert_eq!(*elements[0].get_instance(), 4);
}

#[test]
fn default_config_lists_each_plugin_in_order() {
    let config = SwaystatusConfig::create_default(vec![
        (String::from("alsa"), 1u8),
        (String::from("clock"), 2u8),
    ]);
    assert_eq!(config.settings.as_ref().unwrap().separator, ", ");
    let elements = config.elements.unwrap();
    assert_eq!(elements.len(), 2);
    assert_eq!(elements[0].get_name(), "alsa");
    assert_eq!(*elements[0].get_instance(), 1);
    assert_eq!(elements[1].get_name(), "clock");
    assert_eq!(*elements[1].get_instance(), 2);
    assert_eq!(elements[1].get_non_plugin_settings().before_text, "");
    assert_eq!(elements[1].get_non_plugin_settings().after_text, "");
}

#[test]
fn default_config_without_plugins_has_no_elements() {
    let config: SwaystatusConfig<u8> = SwaystatusConfig::create_default(Vec::new());
    assert!(config.elements.is_none());
    assert!(config.settings.is_some());
}

#[test]
fn element_getters_return_fields() {
    let e = SwaystatusPluginConfig::new(
        String::from("pulse"),
        String::from("cfg"),
        SwaystatusElementNonPluginOptions {
            before_text: String::from("["),
            after_text: String::from("]"),
        },
    );
    assert_eq!(e.get_name(), "pulse");
    assert_eq!(e.get_instance(), "cfg");
    assert_eq!(e.get_non_plugin_settings().before_text, "[");
    assert_eq!(e.get_non_plugin_settings().after_text, "]");
    let err = SwaystatusConfigErrors::ParsingError { message: String::from("bad") };
    assert!(matches!(err, SwaystatusConfigErrors::ParsingError { .. }));
}
