use hoard::config::{
    append_missing_default_values_to_config, parameter_delimiters, prepare_loaded_config,
    ConfigError, HoardConfig,
};

#[test]
fn new_config_points_at_store_in_home() {
    let c = HoardConfig::new("/home/u/.config/hoard");
    assert_eq!(c.trove_path, Some("/home/u/.config/hoard/trove.yml".to_string()));
    assert_eq!(c.default_namespace, "default");
    assert_eq!(c.query_prefix, "  >");
    assert_eq!(c.parameter_token, Some("#".to_string()));
    assert_eq!(c.parameter_ending_token, Some("!".to_string()));
    assert_eq!(c.read_from_current_directory, Some(true));
    assert_eq!(c.primary_color, Some((242, 229, 188)));
    assert_eq!(c.secondary_color, Some((181, 118, 20)));
    assert_eq!(c.tertiary_color, Some((50, 48, 47)));
    assert_eq!(c.command_color, Some((180, 118, 20)));
    let slash = HoardConfig::new("/tmp/");
    assert_eq!(slash.trove_path, Some("/tmp/trove.yml".to_string()));
}

#[test]
fn default_colors_by_level() {
    assert_eq!(HoardConfig::default_colors(0), (242, 229, 188));
    assert_eq!(HoardConfig::default_colors(1), (181, 118, 20));
    assert_eq!(HoardConfig::default_colors(2), (50, 48, 47));
    assert_eq!(HoardConfig::default_colors(7), (180, 118, 20));
}

#[test]
fn missing_settings_are_filled_one_at_a_time() {
    let mut c = HoardConfig::new("/h");
    c.secondary_color = None;
    c.sync_server_url = None;
    assert!(append_missing_default_values_to_config(&mut c, "/h"));
    assert_eq!(c.secondary_color, Some((181, 118, 20)));
    assert_eq!(c.sync_server_url, None);
    assert!(append_missing_default_values_to_config(&mut c, "/h"));
    assert_eq!(c.sync_server_url, Some("https://troveserver.herokuapp.com/".to_string()));
    assert!(!append_missing_default_values_to_config(&mut c, "/h"));
}

#[test]
fn missing_store_path_goes_to_config_dir() {
    let mut c = HoardConfig::new("/h");
    c.trove_path = None;
    assert!(append_missing_default_values_to_config(&mut c, "/cfg"));
    assert_eq!(c.trove_path, Some("/cfg/trove.yml".to_string()));
}

#[test]
fn equal_delimiters_refuse_the_configuration() {
    let mut c = HoardConfig::new("/h");
    c.parameter_token = Some("#".to_string());
    c.parameter_ending_token = Some("#".to_string());
    assert_eq!(parameter_delimiters(&c), Err(ConfigError::DelimiterCollision));
    assert_eq!(prepare_loaded_config(&mut c, false), Err(ConfigError::DelimiterCollision));
}

#[test]
fn delimiter_shapes() {
    let mut c = HoardConfig::new("/h");
    assert_eq!(parameter_delimiters(&c), Ok(('#', Some('!'))));
    c.parameter_ending_token = Some(String::new());
    assert_eq!(parameter_delimiters(&c), Ok(('#', None)));
    c.parameter_ending_token = None;
    assert_eq!(parameter_delimiters(&c), Ok(('#', None)));
    c.parameter_ending_token = Some("!!".to_string());
    assert_eq!(parameter_delimiters(&c), Err(ConfigError::InvalidEndDelimiter));
    c.parameter_token = Some("##".to_string());
    assert_eq!(parameter_delimiters(&c), Err(ConfigError::InvalidStartDelimiter));
    c.parameter_token = Some(String::new());
    c.parameter_ending_token = Some(String::new());
    assert_eq!(parameter_delimiters(&c), Err(ConfigError::InvalidStartDelimiter));
}

#[test]
fn local_store_is_preferred_when_present() {
    let mut c = HoardConfig::new("/h");
    assert_eq!(prepare_loaded_config(&mut c, true), Ok(('#', Some('!'))));
    assert_eq!(c.trove_path, Some("trove.yml".to_string()));
    let mut d = HoardConfig::new("/h");
    d.read_from_current_directory = Some(false);
    assert_eq!(prepare_loaded_config(&mut d, true), Ok(('#', Some('!'))));
    assert_eq!(d.trove_path, Some("/h/trove.yml".to_string()));
}

#[test]
fn missing_start_delimiter_defaults_to_hash() {
    let mut c = HoardConfig::new("/h");
    c.parameter_token = None;
    assert_eq!(parameter_delimiters(&c), Ok(('#', Some('!'))));
    c.parameter_ending_token = Some("#".to_string());
    assert_eq!(parameter_delimiters(&c), Err(ConfigError::DelimiterCollision));
}

#[test]
fn legacy_file_missing_colour_and_start_delimiter_loads() {
    let mut c = HoardConfig::new("/h");
    c.primary_color = None;
    c.parameter_token = None;
    assert!(append_missing_default_values_to_config(&mut c, "/h"));
    assert_eq!(c.primary_color, Some((242, 229, 188)));
    assert_eq!(c.parameter_token, None);
    assert_eq!(prepare_loaded_config(&mut c, false), Ok(('#', Some('!'))));
    assert!(append_missing_default_values_to_config(&mut c, "/h"));
    assert_eq!(c.parameter_token, Some("#".to_string()));
}
