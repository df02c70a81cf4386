use rs3::config::app_config::{AppConfig, ConfigError, ConfigField, ConfigSource};

fn full_source(tag: &str) -> ConfigSource {
    ConfigSource {
        access_key: Some(format!("{tag}-ak")),
        secret_key: Some(format!("{tag}-sk")),
        region: Some(format!("{tag}-region")),
        endpoint_url: Some(format!("http://{tag}:9000")),
        path_style: Some(tag == "env"),
    }
}

fn empty_source() -> ConfigSource {
    ConfigSource {
        access_key: None,
        secret_key: None,
        region: None,
        endpoint_url: None,
        path_style: None,
    }
}

#[test]
fn environment_overrides_file() {
    let cfg = AppConfig::from_sources(&full_source("file"), &full_source("env")).unwrap();
    assert_eq!(cfg.access_key, "env-ak");
    assert_eq!(cfg.secret_key, "env-sk");
    assert_eq!(cfg.region, "env-region");
    assert_eq!(cfg.endpoint_url, "http://env:9000");
    assert!(cfg.path_style);
}

#[test]
fn file_fills_what_environment_lacks() {
    let mut env = empty_source();
    env.region = Some("eu-west-1".to_string());
    let cfg = AppConfig::from_sources(&full_source("file"), &env).unwrap();
    assert_eq!(cfg.access_key, "file-ak");
    assert_eq!(cfg.region, "eu-west-1");
    assert!(!cfg.path_style);
}

#[test]
fn first_missing_field_reported() {
    let err = AppConfig::from_sources(&empty_source(), &empty_source()).unwrap_err();
    assert_eq!(err, ConfigError::Missing(ConfigField::AccessKey));

    let mut file = empty_source();
    file.access_key = Some("ak".to_string());
    file.secret_key = Some("sk".to_string());
    let err = AppConfig::from_sources(&file, &empty_source()).unwrap_err();
    assert_eq!(err, ConfigError::Missing(ConfigField::Region));

    let mut file = full_source("file");
    file.path_style = None;
    let err = AppConfig::from_sources(&file, &empty_source()).unwrap_err();
    assert_eq!(err, ConfigError::Missing(ConfigField::PathStyle));
}

#[test]
fn default_settings_are_blank() {
    let d = rs3::conf::AppConfig::default();
    assert_eq!(d.endpoint_url, "");
    assert_eq!(d.region, "");
    assert_eq!(d.access_key, "");
    assert_eq!(d.secret_key, "");
    assert!(!d.path_style);
}
