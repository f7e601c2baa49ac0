use configler_core::files::FileStore;
use configler_core::sources::config_source::{ConfigSource, FileError};
use configler_core::sources::yaml::{YamlConfigSource, YamlNode};

#[test]
fn parse_yaml_string() {
    let yaml_str = "
        database:
            username: foo
            password: bar
        ";
    let config_result = YamlConfigSource::from_str(yaml_str);
    assert!(config_result.is_ok());

    let config_source = config_result.unwrap();
    assert_eq!(
        config_source.get_value("database.username"),
        Some("foo".to_string())
    );
    assert_eq!(
        config_source.get_value("database.password"),
        Some("bar".to_string())
    );
}

#[test]
fn parsing_invalid_yaml() {
    let invalid_str = "
            some value
            with other text which is obviously
            not yaml
        ";

    // even though this is not valid yaml, the YAML scanner is particularly
    // flexible and still returns a valid result
    let config_result = YamlConfigSource::from_str(invalid_str);
    assert!(config_result.is_ok());
}

#[test]
fn parse_multi_stanza_yaml_string() {
    let yaml_str = "
        database:
            username: foo
            password: bar
        endpoints:
            health: '/health'
            user: '/users'
        ";
    let config_result = YamlConfigSource::from_str(yaml_str);
    assert!(config_result.is_ok());

    let config_source = config_result.unwrap();

    assert!(config_source.get_value("database.username").is_some());
    assert!(config_source.get_value("endpoints.health").is_some());
}

#[test]
fn multi_yaml_doc_string() {
    let yaml_str = "
        database:
            user: foo
---
        endpoints:
            health: '/health'
        ";

    let config_result = YamlConfigSource::from_str(yaml_str);
    assert!(config_result.is_err());
}

#[test]
fn multi_doc_yaml_reports_the_specific_error() {
    let yaml_str = "a: 1\n---\nb: 2\n";
    let config_result = YamlConfigSource::from_str(yaml_str);
    assert!(matches!(
        config_result.err(),
        Some(FileError::YamlUnsupportedMultiDoc)
    ));
}

#[test]
fn invalid_colon_position() {
    let yaml_str = "
        database:
            user: foo
            missing colon
        ";

    let config_result = YamlConfigSource::from_str(yaml_str);
    assert!(config_result.is_err());
    assert!(matches!(
        config_result.err(),
        Some(FileError::YamlScanError(_))
    ));
}

#[test]
fn parse_yaml_file() {
    let yaml_text = "
        database:
            username: foo
        app:
            name: sample
        ";
    let files = FileStore::new().add(
        "./test_configs/test.yaml".to_string(),
        yaml_text.to_string(),
    );
    let config_result = YamlConfigSource::from_file("./test_configs/test.yaml", &files);
    assert!(config_result.is_ok());

    let config = config_result.unwrap();
    assert!(config.get_value("database.username").is_some());
    assert!(config.get_value("app.name").is_some());
}

#[test]
fn missing_file_error() {
    let files = FileStore::new();
    let config_result = YamlConfigSource::from_file("./non-existent-file.yaml", &files);
    assert!(config_result.is_err());
    assert!(matches!(
        config_result.err(),
        Some(FileError::IoError(_))
    ));
}

#[test]
fn get_yaml_value() {
    let yaml_str = "
        database:
            username: foo
            password: bar
        endpoints:
            health: '/health'
            user: '/users'
        ";
    let config_result = YamlConfigSource::from_str(yaml_str);
    assert!(config_result.is_ok());

    let config_source = config_result.unwrap();
    assert_eq!(
        config_source.get_value("database.username"),
        Some("foo".to_string())
    );
    assert_eq!(
        config_source.get_value("endpoints.health"),
        Some("/health".to_string())
    );
    assert_eq!(config_source.get_value("database.ssl"), None);
}

#[test]
fn non_string_terminal_nodes_are_not_values() {
    let yaml_str = "
        server:
            port: 8080
            name: main
        ";
    let source = YamlConfigSource::from_str(yaml_str).unwrap();
    // An integer scalar is not a string value; no implicit stringification.
    assert_eq!(source.get_value("server.port"), None);
    assert_eq!(source.get_value("server.name"), Some("main".to_string()));
    // An interior node is not a string value either.
    assert_eq!(source.get_value("server"), None);
}

#[test]
fn from_documents_rejects_two_documents() {
    let docs = vec![
        YamlNode::Str("one".to_string()),
        YamlNode::Str("two".to_string()),
    ];
    let result = YamlConfigSource::from_documents(docs);
    assert!(matches!(
        result.err(),
        Some(FileError::YamlUnsupportedMultiDoc)
    ));
}

#[test]
fn from_documents_accepts_one_document() {
    let doc = YamlNode::Mapping(vec![(
        YamlNode::Str("greeting".to_string()),
        YamlNode::Str("hello".to_string()),
    )]);
    let source = YamlConfigSource::from_documents(vec![doc]).unwrap();
    assert_eq!(source.get_value("greeting"), Some("hello".to_string()));
    assert_eq!(source.get_name(), "YamlConfigSource");
    assert_eq!(source.get_ordinal(), 300);
}
