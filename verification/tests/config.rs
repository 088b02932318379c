use vault::config::{Config, ConfigFile, ConfigGeneral};
use vault::db::DynFieldKind;

fn presets(c: &Config) -> Vec<(usize, String, String, DynFieldKind)> {
    c.get_field_presets()
}

#[test]
fn default_presets() {
    let c = Config::new(String::from("cfg.toml"), String::from("db.toml"), None);
    let p = presets(&c);
    assert_eq!(p.len(), 5);
    assert_eq!(p[0], (0, String::from("Custom"), String::new(), DynFieldKind::SecretLine));
    assert_eq!(p[3], (3, String::from("Website"), String::from("URL"), DynFieldKind::Url));
    assert_eq!(c.general.db_path, "db.toml");
    assert_eq!(c.config_path(), "cfg.toml");
}

#[test]
fn loaded_settings_keep_their_presets() {
    let file = ConfigFile {
        general: ConfigGeneral { preset_fields: vec![(7, String::from("A"), String::from("B"), DynFieldKind::Url)], db_path: String::from("x") },
    };
    let c = Config::new(String::from("cfg.toml"), String::from("db.toml"), Some(file));
    assert_eq!(presets(&c), vec![(7, String::from("A"), String::from("B"), DynFieldKind::Url)]);
    assert_eq!(c.general.db_path, "x");
}

#[test]
fn add_edit_delete_presets() {
    let mut c = Config::default_at(String::new(), String::new());
    let p = c.add_field_preset(String::from("Pin"), DynFieldKind::SecretLine);
    assert_eq!(p.last().unwrap(), &(5, String::from("Pin"), String::from("Pin"), DynFieldKind::SecretLine));
    let p = c.edit_field_preset(5, String::from("PIN"), DynFieldKind::TextLine);
    assert_eq!(p[5], (5, String::from("PIN"), String::from("PIN"), DynFieldKind::TextLine));
    let p = c.edit_field_preset(42, String::from("Z"), DynFieldKind::Url);
    assert_eq!(p[0], (42, String::from("Z"), String::from("Z"), DynFieldKind::Url));
    let p = c.delete_field_preset(5);
    assert_eq!(p.len(), 5);
    assert!(p.iter().all(|x| x.0 != 5));
    let mut empty = Config::from_file(ConfigFile { general: ConfigGeneral { preset_fields: vec![], db_path: String::new() } });
    assert_eq!(empty.add_field_preset(String::from("A"), DynFieldKind::Url)[0].0, 1);
}

#[test]
fn delete_undoes_add() {
    let mut c = Config::default_at(String::new(), String::new());
    let before = presets(&c);
    c.add_field_preset(String::from("Temp"), DynFieldKind::Url);
    assert_eq!(c.delete_field_preset(5), before);
}
