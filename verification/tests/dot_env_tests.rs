use configler_core::files::FileStore;
use configler_core::sources::config_source::{ConfigSource, FileError};
use configler_core::sources::dot_env::{DotEnvironmentConfigSource, LineParseError};

fn get_config_value(config: &DotEnvironmentConfigSource, key: &str) -> Option<String> {
    config.get_value(key)
}

#[test]
fn parse_simple_dot_env_string() {
    let dot_env_str = "
        FIRST=one
        FIRST_FOO=one foo
        ";

    // Verify no parsing errors
    let dot_env_source_result = DotEnvironmentConfigSource::from_str(dot_env_str);
    assert!(dot_env_source_result.is_ok());

    // verify the correct number of items were added
    let dot_env_source = dot_env_source_result.unwrap();
    assert_eq!(dot_env_source.len(), 2);

    // verify key values
    assert_eq!(
        get_config_value(&dot_env_source, "FIRST"),
        Some("one".to_string())
    );
    assert_eq!(
        get_config_value(&dot_env_source, "FIRST_FOO"),
        Some("one foo".to_string())
    );
}

#[test]
fn parse_dot_env_string() {
    let dot_env_str = "
        FIRST=one
        # COMMENT
        export SECOND=second value
        SPACE = space value
        QUOTED = \"quote value\"

        THIRD=third
        lower=fourth value
        UPPER=UPPER VALUE
        ";

    let dot_env_source_result = DotEnvironmentConfigSource::from_str(dot_env_str);
    assert!(dot_env_source_result.is_ok());

    let dot_env_source = dot_env_source_result.unwrap();
    assert_eq!(dot_env_source.len(), 7);

    // verify key values
    assert_eq!(
        get_config_value(&dot_env_source, "FIRST"),
        Some("one".to_string())
    );
    assert_eq!(
        get_config_value(&dot_env_source, "SECOND"),
        Some("second value".to_string())
    );
    assert_eq!(
        get_config_value(&dot_env_source, "SPACE"),
        Some("space value".to_string())
    );
    assert_eq!(
        get_config_value(&dot_env_source, "QUOTED"),
        Some("quote value".to_string())
    );
    assert_eq!(
        get_config_value(&dot_env_source, "THIRD"),
        Some("third".to_string())
    );
    assert_eq!(
        get_config_value(&dot_env_source, "LOWER"),
        Some("fourth value".to_string())
    );
    assert_eq!(
        get_config_value(&dot_env_source, "UPPER"),
        Some("UPPER VALUE".to_string())
    );
}

#[test]
fn parse_invalid_dot_env_error() {
    let dot_env_str = "
        FIRST=one
        BAD_FOO=
        SECOND=la
        ";

    // Verify parsing error: `BAD_FOO=` sits on line 3 of the text, whose
    // first line is blank.
    let dot_env_source_result = DotEnvironmentConfigSource::from_str(dot_env_str);
    let parse_errors = dot_env_source_result.err();

    let expected_line_errors = vec![(3usize, LineParseError::ValueIsEmpty)];
    assert_eq!(
        parse_errors.map(|e| e.line_errors().clone()),
        Some(expected_line_errors)
    );
}

#[test]
fn parse_multiple_dot_env_errors() {
    let dot_env_str = "
        FIRST=one
        BAD_FOO=
        SECOND=la
        =blah
        ";

    // Verify parsing errors, on the 1-based lines of the text.
    let dot_env_source_result = DotEnvironmentConfigSource::from_str(dot_env_str);

    let parse_errors = dot_env_source_result.err();

    let expected_line_errors = vec![
        (3usize, LineParseError::ValueIsEmpty),
        (5usize, LineParseError::KeyIsEmpty),
    ];
    assert_eq!(
        parse_errors.map(|e| e.line_errors().clone()),
        Some(expected_line_errors)
    );
}

#[test]
fn dot_env_error_lines_are_one_based() {
    // Without a leading blank line the malformed records sit on lines 2
    // and 4, and the error list says exactly that.
    let dot_env_str = "FIRST=one\nBAD=\nSECOND=la\n=blah\n";

    let parse_errors = DotEnvironmentConfigSource::from_str(dot_env_str)
        .err()
        .unwrap();
    assert_eq!(
        parse_errors.line_errors().clone(),
        vec![
            (2usize, LineParseError::ValueIsEmpty),
            (4usize, LineParseError::KeyIsEmpty),
        ]
    );
}

#[test]
fn parse_multiline_quoted_value() {
    let dot_env_str = "
        FIRST=\"some value
        extends onto multiple lines
        then ends\"
        SECOND=blah
        ";

    let dot_env_source_result = DotEnvironmentConfigSource::from_str(dot_env_str);
    assert!(dot_env_source_result.is_ok());

    let dot_env_source = dot_env_source_result.unwrap();
    assert_eq!(dot_env_source.len(), 2);
    assert_eq!(
        get_config_value(&dot_env_source, "FIRST"),
        Some("some value\n        extends onto multiple lines\n        then ends".to_string())
    );
    assert_eq!(
        get_config_value(&dot_env_source, "SECOND"),
        Some("blah".to_string())
    )
}

#[test]
fn parse_config_without_newlines() {
    let dot_env_str = "FIRST=one";

    let dot_env_source_result = DotEnvironmentConfigSource::from_str(dot_env_str);
    assert!(dot_env_source_result.is_ok());

    let dot_env_source = dot_env_source_result.unwrap();
    assert_eq!(dot_env_source.len(), 1);

    assert_eq!(
        get_config_value(&dot_env_source, "FIRST"),
        Some("one".to_string())
    );
}

#[test]
fn parse_from_file() {
    let files = FileStore::new().add("./test.env".to_string(), "KEY1=blah\n".to_string());
    let dot_config_result = DotEnvironmentConfigSource::from_file("./test.env", &files);
    assert!(dot_config_result.is_ok());

    let dot_config_source = dot_config_result.unwrap();

    assert_eq!(dot_config_source.len(), 1);
    assert_eq!(
        get_config_value(&dot_config_source, "KEY1"),
        Some("blah".to_string())
    );
}

#[test]
fn errors_out_when_file_does_not_exist() {
    let files = FileStore::new();
    let dot_config_result = DotEnvironmentConfigSource::from_file("./fake-file.env", &files);
    assert!(dot_config_result.is_err());
    let config_error = dot_config_result.err().unwrap();
    assert!(matches!(config_error, FileError::IoError(_)));
}

#[test]
fn config_source_name() {
    let dot_env_str = "FIRST=one";

    let dot_env_source_result = DotEnvironmentConfigSource::from_str(dot_env_str);
    assert!(dot_env_source_result.is_ok());

    let dot_env_source = dot_env_source_result.unwrap();
    assert_eq!(dot_env_source.get_name(), "DotEnvironmentConfigSource");
}

#[test]
fn read_dot_env_variable() {
    let dot_env_str = "
        FIRST=first_value
        SECOND=other value
        ";
    let dot_env_source = DotEnvironmentConfigSource::from_str(dot_env_str).unwrap();

    let value = dot_env_source.get_value("first");
    assert_eq!(value, Some("first_value".to_string()));
}

#[test]
fn parsing_twice_yields_identical_tables() {
    let dot_env_str = "
        ALPHA=1
        BETA=two words
        GAMMA=\"quoted\"
        ";
    let first = DotEnvironmentConfigSource::from_str(dot_env_str).unwrap();
    let second = DotEnvironmentConfigSource::from_str(dot_env_str).unwrap();
    assert_eq!(first.len(), second.len());
    for key in ["alpha", "beta", "gamma"] {
        assert_eq!(first.get_value(key), second.get_value(key));
    }
}

#[test]
fn later_duplicate_key_overwrites_earlier() {
    let dot_env_str = "
        KEY=first
        KEY=second
        ";
    let source = DotEnvironmentConfigSource::from_str(dot_env_str).unwrap();
    assert_eq!(source.len(), 1);
    assert_eq!(source.get_value("key"), Some("second".to_string()));
}

#[test]
fn repeated_export_prefixes_are_stripped() {
    let source = DotEnvironmentConfigSource::from_str("export export KEY=value").unwrap();
    assert_eq!(source.get_value("key"), Some("value".to_string()));
}

#[test]
fn record_without_assignment_is_invalid() {
    let parse_errors = DotEnvironmentConfigSource::from_str("JUST A LINE\n")
        .err()
        .unwrap();
    assert_eq!(
        parse_errors.line_errors().clone(),
        vec![(1usize, LineParseError::InvalidAssignment)]
    );
}

#[test]
fn error_message_lists_lines() {
    let parse_errors = DotEnvironmentConfigSource::from_str("GOOD=1\nBAD=\n")
        .err()
        .unwrap();
    assert_eq!(
        parse_errors.message(),
        "Found 1 errors while parsing Dot Environment File\nLine 2: value is empty\n"
    );
}

#[test]
fn ordinal_of_dot_env_source() {
    let source = DotEnvironmentConfigSource::from_str("FIRST=one").unwrap();
    assert_eq!(source.get_ordinal(), 200);
}
