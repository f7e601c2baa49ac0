use configler_core::data_converters::FromConfigValue;
use configler_core::files::FileStore;
use configler_core::sources::config_source::{
    convert_property_to_environment_name, ConfigSource,
};
use configler_core::sources::environment::EnvironmentConfigSource;
use configler_core::table::StringMap;
use configler_core::ConfigValueError;

#[test]
fn read_environment_variable() {
    let vars = StringMap::new().insert("TEST_ONE".to_string(), "blah".to_string());
    let config_source = EnvironmentConfigSource::from_snapshot(vars);
    let value = config_source.get_value("test.one");
    assert_ne!(value, None);
    assert_eq!(value.unwrap(), "blah");
}

#[test]
fn environment_source_name_and_ordinal() {
    let source = EnvironmentConfigSource::new();
    assert_eq!(source.get_name(), "EnvironmentConfigSource");
    assert_eq!(source.get_ordinal(), 100);
}

#[test]
fn environment_from_file_ignores_the_path() {
    let result = EnvironmentConfigSource::from_file("./anything.txt", &FileStore::new());
    assert!(result.is_ok());
    assert_eq!(result.unwrap().get_value("anything"), None);
}

#[test]
fn convert_property_to_environment_name_rules() {
    assert_eq!(convert_property_to_environment_name("TEST.ONE"), "TEST_ONE");
    assert_eq!(convert_property_to_environment_name("test.ONE"), "TEST_ONE");
    assert_eq!(convert_property_to_environment_name("foo"), "FOO");
}

#[test]
fn integer_conversion_respects_bounds() {
    assert_eq!(i32::from_config_str("35"), Ok(35));
    assert_eq!(i32::from_config_str("+35"), Ok(35));
    assert_eq!(i32::from_config_str("-35"), Ok(-35));
    assert_eq!(i32::from_config_str("2147483647"), Ok(i32::MAX));
    assert_eq!(i32::from_config_str("-2147483648"), Ok(i32::MIN));
    assert_eq!(
        i32::from_config_str("2147483648"),
        Err(ConfigValueError::TypeError)
    );
    assert_eq!(
        i32::from_config_str("12a"),
        Err(ConfigValueError::TypeError)
    );
    assert_eq!(i32::from_config_str(""), Err(ConfigValueError::TypeError));
    assert_eq!(i64::from_config_str("-9223372036854775808"), Ok(i64::MIN));
    assert_eq!(u32::from_config_str("4294967295"), Ok(u32::MAX));
    assert_eq!(
        u32::from_config_str("-1"),
        Err(ConfigValueError::TypeError)
    );
}

#[test]
fn bool_conversion_is_exact() {
    assert_eq!(bool::from_config_str("true"), Ok(true));
    assert_eq!(bool::from_config_str("false"), Ok(false));
    assert_eq!(
        bool::from_config_str("True"),
        Err(ConfigValueError::TypeError)
    );
    assert_eq!(bool::from_config_str(""), Err(ConfigValueError::TypeError));
}
