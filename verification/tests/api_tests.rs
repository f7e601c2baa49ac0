use std::collections::HashMap;

use configler_core::files::FileStore;
use configler_core::sources::config_source::{ConfigSource, FileError, Source};
use configler_core::sources::custom::CustomConfigSource;
use configler_core::sources::dot_env::DotEnvironmentConfigSource;
use configler_core::sources::environment::EnvironmentConfigSource;
use configler_core::sources::yaml::YamlConfigSource;
use configler_core::table::StringMap;
use configler_core::{
    Config, ConfigBuilder, ConfigPropertyGroup, ConfigValueError, SourceName,
};

fn env_with(pairs: &[(&str, &str)]) -> EnvironmentConfigSource {
    let mut vars = StringMap::new();
    for (key, value) in pairs {
        vars = vars.insert(key.to_string(), value.to_string());
    }
    EnvironmentConfigSource::from_snapshot(vars)
}

fn no_env() -> EnvironmentConfigSource {
    EnvironmentConfigSource::new()
}

#[test]
fn it_works() {
    let result = configler_core::sum_as_string(3, 2);
    assert_eq!(result, "5");
}

#[test]
fn use_default_value() {
    // In this test the environment variable is not set
    let build_result = ConfigBuilder::new()
        .add_default_sources()
        .build(&no_env(), &FileStore::new());
    assert!(build_result.is_ok());

    let config = build_result.unwrap();

    let default_value = "default_value";
    let value = config.get_value_or_default("test.two", default_value.to_string());
    assert_eq!(value, default_value.to_string())
}

#[test]
fn build_default_sources() {
    let env = env_with(&[("TEST_ONE", "blah")]);

    let build_result = ConfigBuilder::new()
        .add_default_sources()
        .build(&env, &FileStore::new());
    assert!(build_result.is_ok());

    let config = build_result.unwrap();

    let value = config.get_value_string("test.one");
    assert_ne!(value, None);
    assert_eq!(value.unwrap(), "blah");
}

#[test]
fn custom_source_var() {
    let dot_env_str = "
        ONE_VAL=100
        TWO_VAL=300
        ";

    let build_result = ConfigBuilder::new()
        .add_custom_source(Source::DotEnvironment(
            DotEnvironmentConfigSource::from_str(dot_env_str).unwrap(),
        ))
        .build(&no_env(), &FileStore::new());
    assert!(build_result.is_ok());

    let config = build_result.unwrap();

    assert_eq!(config.get_value_string("one_val"), Some("100".to_string()));
    assert_eq!(config.get_value_string("two_val"), Some("300".to_string()));
}

#[test]
fn read_lazy_source_from_directory() {
    let files = FileStore::new().add("test_configs/.env".to_string(), "KEY1=blah\n".to_string());
    let build_result = ConfigBuilder::new()
        .add_source(SourceName::DotEnvironmentFile)
        .set_config_directory("test_configs")
        .build(&no_env(), &files);
    assert!(build_result.is_ok());

    let config = build_result.unwrap();
    assert_eq!(config.get_value_string("KEY1"), Some("blah".to_string()));
}

#[test]
fn read_lazy_source_from_directory_with_separator() {
    let files = FileStore::new().add("test_configs/.env".to_string(), "KEY1=blah\n".to_string());
    let build_result = ConfigBuilder::new()
        .add_source(SourceName::DotEnvironmentFile)
        .set_config_directory("test_configs/")
        .build(&no_env(), &files);
    assert!(build_result.is_ok());

    let config = build_result.unwrap();
    assert_eq!(config.get_value_string("KEY1"), Some("blah".to_string()));
}

#[test]
fn dot_env_path_honors_override_variable() {
    let env = env_with(&[("CONFIGLER_DOT_ENVIRONMENT_FILE", "elsewhere/mine.env")]);
    let files = FileStore::new().add(
        "elsewhere/mine.env".to_string(),
        "KEY1=from override\n".to_string(),
    );
    let config = ConfigBuilder::new()
        .add_source(SourceName::DotEnvironmentFile)
        .build(&env, &files)
        .unwrap();
    assert_eq!(
        config.get_value_string("KEY1"),
        Some("from override".to_string())
    );
}

#[test]
fn overrides_respect_ordinal_values() {
    let env = env_with(&[("KEY1", "Overrided Value")]);
    let files = FileStore::new().add(
        "test_configs/.env".to_string(),
        "KEY1=file value\n".to_string(),
    );

    let build_result = ConfigBuilder::new()
        .add_source(SourceName::DotEnvironmentFile)
        .add_source(SourceName::Environment)
        .set_config_directory("test_configs")
        .build(&env, &files);
    assert!(build_result.is_ok());

    let config = build_result.unwrap();

    assert_eq!(
        config.get_value_string("KEY1"),
        Some("Overrided Value".to_string())
    );
}

#[test]
fn environment_var_overrides_yaml() {
    let env = env_with(&[("DATABASE_USER", "Overrided value")]);
    let files = FileStore::new().add(
        "test_configs/config.yaml".to_string(),
        "database:\n    user: original\n".to_string(),
    );

    let build_result = ConfigBuilder::new()
        .add_source(SourceName::Environment)
        .add_source(SourceName::YamlFile)
        .set_config_directory("test_configs")
        .build(&env, &files);
    assert!(build_result.is_ok());

    let config = build_result.unwrap();
    assert_eq!(
        config.get_value_string("database.user"),
        Some("Overrided value".to_string())
    );
}

#[test]
fn get_typed_values() {
    let dot_env_str = "
        TEST_INTEGER=35
        TEST_BOOL=false
        ";
    let build_result = ConfigBuilder::new()
        .add_custom_source(Source::DotEnvironment(
            DotEnvironmentConfigSource::from_str(dot_env_str).unwrap(),
        ))
        .build(&no_env(), &FileStore::new());
    assert!(build_result.is_ok());

    let config = build_result.unwrap();

    let integer_value = config.get_value::<i32>("test_integer");
    assert!(integer_value.is_ok());
    assert_eq!(integer_value.unwrap(), Some(35));

    let bool_value = config.get_value::<bool>("test_bool");
    assert!(bool_value.is_ok());
    assert_eq!(bool_value.unwrap(), Some(false));
}

#[test]
fn malformed_typed_value_is_a_type_error() {
    let build_result = ConfigBuilder::new()
        .add_custom_source(Source::DotEnvironment(
            DotEnvironmentConfigSource::from_str("TEST_INTEGER=abc").unwrap(),
        ))
        .build(&no_env(), &FileStore::new());
    let config = build_result.unwrap();

    let integer_value = config.get_value::<i32>("test_integer");
    assert_eq!(integer_value, Err(ConfigValueError::TypeError));

    // An absent value is not an error.
    assert_eq!(config.get_value::<i32>("test_missing"), Ok(None));
}

#[test]
fn verify_lazy_builder_and_config_visibility() {
    let files = FileStore::new().add(
        "./test_configs/config.yaml".to_string(),
        "database:\n    user: original\n".to_string(),
    );
    let builder_result = ConfigBuilder::new()
        .add_source(SourceName::Environment)
        .add_source(SourceName::YamlFile)
        .set_config_directory("./test_configs")
        .build(&no_env(), &files);

    assert!(builder_result.is_ok());
}

#[test]
fn verify_builder_custom_source_visibility() {
    let yaml_source = YamlConfigSource::from_str(
        "
    database:
        user: baz
        password: foo
    ",
    )
    .unwrap();

    let builder_result = ConfigBuilder::new()
        .add_custom_source(Source::Yaml(yaml_source))
        .build(&no_env(), &FileStore::new());

    assert!(builder_result.is_ok());

    let config = builder_result.unwrap();
    assert_eq!(
        config.get_value_string("database.user"),
        Some("baz".to_string())
    );
    assert_eq!(
        config.get_value_or_default("database.is_ssl", "true".to_string()),
        "true"
    );
}

#[test]
fn verify_custom_source_works_with_builder() {
    let custom_source = CustomConfigSource::new(
        10,
        "custom test source".to_string(),
        StringMap::new(),
        Some("example_value".to_string()),
    );
    assert_eq!(custom_source.get_name(), "custom test source");
    assert_eq!(custom_source.get_ordinal(), 10);

    let builder_result = ConfigBuilder::new()
        .add_custom_source(Source::Custom(custom_source))
        .build(&no_env(), &FileStore::new());
    assert!(builder_result.is_ok());

    let config = builder_result.unwrap();
    assert_eq!(
        config.get_value_string("any.value"),
        Some("example_value".to_string())
    );
}

#[test]
fn missing_lazy_dot_env_file_fails_the_build() {
    let build_result = ConfigBuilder::new()
        .add_source(SourceName::DotEnvironmentFile)
        .build(&no_env(), &FileStore::new());
    assert!(matches!(build_result.err(), Some(FileError::IoError(_))));
}

#[test]
fn malformed_lazy_dot_env_file_fails_the_build() {
    let files = FileStore::new().add(".env".to_string(), "BAD=\n".to_string());
    let build_result = ConfigBuilder::new()
        .add_source(SourceName::DotEnvironmentFile)
        .build(&no_env(), &files);
    assert!(matches!(
        build_result.err(),
        Some(FileError::DotEnvLineParseErrors(_))
    ));
}

#[test]
fn multi_document_yaml_fails_the_build() {
    let files = FileStore::new().add("config.yaml".to_string(), "a: 1\n---\nb: 2\n".to_string());
    let build_result = ConfigBuilder::new()
        .add_source(SourceName::YamlFile)
        .build(&no_env(), &files);
    assert!(matches!(
        build_result.err(),
        Some(FileError::YamlUnsupportedMultiDoc)
    ));
}

#[test]
fn file_error_messages_name_the_failure() {
    let missing = FileError::IoError("./nowhere.env".to_string());
    assert_eq!(missing.message(), "unable to read file: ./nowhere.env");
    assert_eq!(
        FileError::YamlUnsupportedMultiDoc.message(),
        "YAML text holds more than one document"
    );
}

struct DbConfig<'a> {
    config: &'a Config,
}

impl<'a> DbConfig<'a> {
    fn get_username(&self) -> Result<String, ConfigValueError> {
        match self.config.get_value_string("database.user") {
            Some(value) => Ok(value),
            None => Err(ConfigValueError::NullError),
        }
    }

    fn get_password(&self) -> Result<String, ConfigValueError> {
        match self.config.get_value_string("database.password") {
            Some(value) => Ok(value),
            None => Err(ConfigValueError::NullError),
        }
    }
}

impl<'a> ConfigPropertyGroup<'a> for DbConfig<'a> {
    fn get_value_map(&self) -> Result<HashMap<String, Option<String>>, ConfigValueError> {
        let mut value_map: HashMap<String, Option<String>> = HashMap::new();
        match self.get_username() {
            Ok(value) => value_map.insert("DATABASE_USER".to_string(), Some(value)),
            Err(error) => return Err(error),
        };
        match self.get_password() {
            Ok(value) => value_map.insert("DATABASE_PASSWORD".to_string(), Some(value)),
            Err(error) => return Err(error),
        };
        Ok(value_map)
    }

    fn from_config(config: &'a Config) -> Self {
        DbConfig { config }
    }
}

#[test]
fn verify_config_property_group_pattern() {
    let yaml_source = YamlConfigSource::from_str(
        "
    database:
        user: baz
        password: foo
    ",
    )
    .unwrap();

    let builder_result = ConfigBuilder::new()
        .add_custom_source(Source::Yaml(yaml_source))
        .build(&no_env(), &FileStore::new());
    assert!(builder_result.is_ok());

    let base_config = builder_result.unwrap();
    let db_config = DbConfig::from_config(&base_config);

    assert!(db_config.get_username().is_ok());
    assert_eq!(db_config.get_username().unwrap(), "baz");
    assert!(db_config.get_password().is_ok());
    assert_eq!(db_config.get_password().unwrap(), "foo");

    let value_map_result = db_config.get_value_map();
    assert!(value_map_result.is_ok());

    let value_map = value_map_result.unwrap();
    assert_eq!(
        value_map.get("DATABASE_USER"),
        Some(&Some("baz".to_string()))
    );
    assert_eq!(
        value_map.get("DATABASE_PASSWORD"),
        Some(&Some("foo".to_string()))
    );
}
