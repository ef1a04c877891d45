use radioware::config::{config_file, Configuration, DEFAULT_CONFIG_FILE, ENV_PREFIX};

#[test]
fn default_configuration_values() {
    let c = Configuration::default();
    assert_eq!(c.input_bind, "[::]:8888");
    assert_eq!(c.input_samplerate, 48000);
    assert_eq!(c.channels, 1);
    assert_eq!(c.frame_duration, 20);
    assert_eq!(c.output_bind, "[::]:0");
    assert_eq!(c.output_host, "localhost:1235");
    assert_eq!(c.output_samplerate, 8000);
    assert_eq!(c.output_bitrate, 16000);
}

#[test]
fn config_file_defaults_to_radioware_toml() {
    assert_eq!(config_file(None), "radioware.toml");
    assert_eq!(DEFAULT_CONFIG_FILE, "radioware.toml");
    assert_eq!(ENV_PREFIX, "RADIOWARE_");
}

#[test]
fn config_file_named_on_command_line_wins() {
    assert_eq!(config_file(Some("/etc/radioware/site.toml".to_string())), "/etc/radioware/site.toml");
}
