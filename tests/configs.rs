use gtfs_extract::configs::{config_sources, BasicRunMode, ConfigBuilderOptions, ConfigPath, ConfigSource, RunModeError};

fn file(name: &str, required: bool) -> String {
    format!("{:?}", ConfigSource::File { name: name.to_string(), required })
}

#[test]
fn sources_come_in_order() {
    let opts = ConfigBuilderOptions {
        env_prefix: Some("TRANSPORT_NSW"),
        default_file_path: ConfigPath::Optional("base"),
        run_mode_path_format: ConfigPath::Required("mode_"),
        local_file_path: ConfigPath::Required("local"),
    };
    let got: Vec<String> = config_sources(&opts).iter().map(|s| format!("{:?}", s)).collect();
    let env = format!("{:?}", ConfigSource::Environment { prefix: "TRANSPORT_NSW".to_string() });
    assert_eq!(got, vec![file("base", false), file("local", true), env]);
}

#[test]
fn default_options_have_no_sources() {
    assert!(config_sources(&ConfigBuilderOptions::default()).is_empty());
    assert!(matches!(ConfigPath::default(), ConfigPath::Ignore));
}

#[test]
fn run_mode_ignores_case() {
    assert_eq!(BasicRunMode::from_str("development"), Ok(BasicRunMode::Development));
    assert_eq!(BasicRunMode::from_str("DEVELOPMENT"), Ok(BasicRunMode::Development));
    assert_eq!(BasicRunMode::from_str("Prodution"), Ok(BasicRunMode::Prodution));
    assert_eq!(BasicRunMode::from_str("prod"), Err(RunModeError::VariantNotFound));
    assert_eq!(BasicRunMode::Prodution.as_ref(), "prodution");
    assert_eq!(BasicRunMode::Development.to_string(), "development");
}
