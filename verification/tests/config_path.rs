use kwybars::config_path::{config_path_source, config_path_suffix, ConfigPathSource};

#[test]
fn explicit_variable_comes_first() {
    assert_eq!(config_path_source(true, true, true), ConfigPathSource::ExplicitVariable);
    assert_eq!(config_path_source(true, false, false), ConfigPathSource::ExplicitVariable);
}

#[test]
fn resolution_order() {
    assert_eq!(config_path_source(false, true, true), ConfigPathSource::XdgConfigHome);
    assert_eq!(config_path_source(false, false, true), ConfigPathSource::HomeDirectory);
    assert_eq!(config_path_source(false, false, false), ConfigPathSource::WorkingDirectory);
}

#[test]
fn config_file_places() {
    assert_eq!(config_path_suffix(ConfigPathSource::XdgConfigHome), "kwybars/config.toml");
    assert_eq!(config_path_suffix(ConfigPathSource::HomeDirectory), ".config/kwybars/config.toml");
    assert_eq!(config_path_suffix(ConfigPathSource::WorkingDirectory), "kwybars.toml");
    assert_eq!(config_path_suffix(ConfigPathSource::ExplicitVariable), "");
}
