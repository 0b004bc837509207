use swaystatus::plugin_database::{HostVersions, LibraryProbe, PluginDatabase, MODULE_VERSION};
use swaystatus::resolver::{
    element_field, top_level_field, ConfigFieldError, ElementField, ElementFields, FieldName,
    TopLevelField, TopLevelFields,
};

fn database_with(name: &str, value: u32) -> PluginDatabase<u32> {
    let mut db = PluginDatabase::empty();
    let host = HostVersions {
        module_version: String::from(MODULE_VERSION),
        rustc_version: String::from("r"),
    };
    let probe = LibraryProbe {
        module_version: Some(String::from(MODULE_VERSION)),
        rustc_version: Some(String::from("r")),
        has_constructor: true,
    };
    let name = String::from(name);
    assert!(db.load_plugin(&probe, &host, move || (name, value)).is_ok());
    db
}

#[test]
fn duplicate_settings_section_is_refused() {
    let mut t = TopLevelFields::new();
    assert!(matches!(t.on_key("Settings"), Ok(TopLevelField::Settings)));
    match t.on_key("Settings") {
        Err(ConfigFieldError::DuplicateField(f)) => assert_eq!(f.as_str(), "Settings"),
        _ => panic!("expected a duplicate field"),
    }
}

#[test]
fn duplicate_element_section_is_refused() {
    let mut t = TopLevelFields::new();
    assert!(matches!(t.on_key("Element"), Ok(TopLevelField::Element)));
    assert!(matches!(t.on_key("Settings"), Ok(TopLevelField::Settings)));
    assert!(matches!(
        t.on_key("Element"),
        Err(ConfigFieldError::DuplicateField(FieldName::Element))
    ));
}

#[test]
fn unknown_top_level_key_is_refused() {
    let mut t = TopLevelFields::new();
    match t.on_key("Colors") {
        Err(ConfigFieldError::UnknownField(k)) => assert_eq!(k, "Colors"),
        _ => panic!("expected an unknown field"),
    }
    assert_eq!(top_level_field("Element"), Some(TopLevelField::Element));
    assert_eq!(top_level_field("SETTINGS"), None);
}

#[test]
fn config_before_plugin_is_missing_plugin() {
    let mut e = ElementFields::new();
    match e.on_key("Config") {
        Err(ConfigFieldError::MissingField(f)) => assert_eq!(f.as_str(), "Plugin"),
        _ => panic!("expected a missing field"),
    }
}

#[test]
fn plugin_then_config_resolves_loaded_plugin() {
    let db = database_with("TestPlugin", 5);
    let mut e = ElementFields::new();
    assert!(matches!(e.on_key("Plugin"), Ok(ElementField::Plugin)));
    e.set_plugin(String::from("TestPlugin"));
    assert!(matches!(e.on_key("Config"), Ok(ElementField::Config)));
    assert_eq!(*e.resolve_plugin(&db).ok().unwrap(), 5);
    assert!(matches!(e.on_key("General"), Ok(ElementField::General)));
    assert_eq!(e.finish().ok().unwrap(), "TestPlugin");
}

#[test]
fn unknown_plugin_is_named() {
    let db = database_with("TestPlugin", 5);
    let mut e = ElementFields::new();
    assert!(e.on_key("Plugin").is_ok());
    e.set_plugin(String::from("Nope"));
    assert!(e.on_key("Config").is_ok());
    match e.resolve_plugin(&db) {
        Err(ConfigFieldError::UnknownPlugin(n)) => assert_eq!(n, "Nope"),
        _ => panic!("expected an unknown plugin"),
    }
}

#[test]
fn duplicate_element_fields_are_refused() {
    let mut e = ElementFields::new();
    assert!(e.on_key("Plugin").is_ok());
    assert!(matches!(
        e.on_key("Plugin"),
        Err(ConfigFieldError::DuplicateField(FieldName::Plugin))
    ));
    e.set_plugin(String::from("X"));
    assert!(e.on_key("Config").is_ok());
    assert!(matches!(
        e.on_key("Config"),
        Err(ConfigFieldError::DuplicateField(FieldName::Config))
    ));
    assert!(matches!(e.on_key("Extra"), Err(ConfigFieldError::UnknownField(_))));
    assert_eq!(element_field("General"), Some(ElementField::General));
    assert_eq!(element_field("general"), None);
}

#[test]
fn entry_without_config_is_missing_config() {
    let mut e = ElementFields::new();
    assert!(e.on_key("Plugin").is_ok());
    e.set_plugin(String::from("X"));
    assert!(matches!(e.finish(), Err(ConfigFieldError::MissingField(FieldName::Config))));
    let empty = ElementFields::new();
    assert!(matches!(empty.finish(), Err(ConfigFieldError::MissingField(FieldName::Plugin))));
}

#[test]
fn written_field_order_is_accepted() {
    let db = database_with("clock", 1);
    let mut t = TopLevelFields::new();
    assert!(matches!(t.on_key("Settings"), Ok(TopLevelField::Settings)));
    assert!(matches!(t.on_key("Element"), Ok(TopLevelField::Element)));
    let mut e = ElementFields::new();
    assert!(matches!(e.on_key("Plugin"), Ok(ElementField::Plugin)));
    e.set_plugin(String::from("clock"));
    assert!(matches!(e.on_key("Config"), Ok(ElementField::Config)));
    assert_eq!(*e.resolve_plugin(&db).ok().unwrap(), 1);
    assert!(matches!(e.on_key("General"), Ok(ElementField::General)));
    assert_eq!(e.finish().ok().unwrap(), "clock");
}

#[test]
fn config_after_general_without_plugin_is_refused() {
    let mut e = ElementFields::new();
    assert!(e.on_key("General").is_ok());
    assert!(matches!(e.on_key("Config"), Err(ConfigFieldError::MissingField(FieldName::Plugin))));
}

#[test]
fn other_spellings_of_top_level_names_are_unknown() {
    for key in ["settings", "element", "elements", "Elements", "Foo"] {
        let mut t = TopLevelFields::new();
        match t.on_key(key) {
            Err(ConfigFieldError::UnknownField(k)) => assert_eq!(k, key),
            _ => panic!("expected an unknown field"),
        }
    }
}

#[test]
fn other_spellings_of_element_names_are_unknown() {
    for key in ["plugin", "config", "general", "PLUGIN", "Extra"] {
        let mut e = ElementFields::new();
        match e.on_key(key) {
            Err(ConfigFieldError::UnknownField(k)) => assert_eq!(k, key),
            _ => panic!("expected an unknown field"),
        }
    }
}

#[test]
fn duplicate_element_section_names_element() {
    let mut t = TopLevelFields::new();
    assert!(t.on_key("Element").is_ok());
    match t.on_key("Element") {
        Err(ConfigFieldError::DuplicateField(f)) => assert_eq!(f.as_str(), "Element"),
        _ => panic!("expected a duplicate field"),
    }
}
