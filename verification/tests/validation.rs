use std::collections::BTreeMap;

use feldera_connectors::validation::{
    validate_deployment_config, validate_description, validate_name, validate_program_config,
    validate_program_info, validate_runtime_config, validate_storage_status_details,
    validate_tags, DBError, Deserialized, ValidationError, MAXIMUM_DESCRIPTION_LENGTH,
    MAXIMUM_TAGS_PER_PIPELINE, MAXIMUM_TAG_LENGTH,
};

#[test]
fn test_valid_names() {
    let valid = vec![
        "a",
        "z",
        "A",
        "Z",
        "0",
        "9",
        "-",
        "_",
        "exampleExample",
        "example-1",
        "example-of-this",
        "Aa0_-",
        "example_2",
        "Example",
        "EXAMPLE_example-example1234",
    ];
    for name in valid {
        assert!(validate_name(name).is_ok());
    }
}

#[test]
fn test_invalid_names() {
    assert!(matches!(validate_name(""), Err(DBError::EmptyName)));
    assert!(
        matches!(validate_name("aaaaaaaaaaaaaaaaaaaaaaaaaaaaaaaaaaaaaaaaaaaaaaaaaaaaaaaaaaaaaaaaaaaaaaaaaaaaaaaaaaaaaaaaaaaaaaaaaaaaa"), Err(DBError::TooLongName {
            name, length, maximum
        }) if name == "aaaaaaaaaaaaaaaaaaaaaaaaaaaaaaaaaaaaaaaaaaaaaaaaaaaaaaaaaaaaaaaaaaaaaaaaaaaaaaaaaaaaaaaaaaaaaaaaaaaaa" && length == 101 && maximum == 100)
    );
    let invalid_due_to_pattern = vec!["%", "$", "abc@", "example example", " ", "%20"];
    for invalid_name in invalid_due_to_pattern {
        assert!(
            matches!(validate_name(invalid_name), Err(DBError::NameDoesNotMatchPattern {
                name
            }) if name == invalid_name)
        );
    }
}

#[test]
fn names_are_measured_in_characters() {
    let name = "é".repeat(60);
    assert!(matches!(
        validate_name(&name),
        Err(DBError::NameDoesNotMatchPattern { name: given }) if given == name
    ));
    assert!(validate_name(&"a".repeat(100)).is_ok());
}

#[test]
fn a_line_break_at_the_end_does_not_match() {
    assert!(matches!(
        validate_name("abc\n"),
        Err(DBError::NameDoesNotMatchPattern { .. })
    ));
    assert!(matches!(
        validate_tags(&["abc\n".to_string()]),
        Err(DBError::InvalidTag { .. })
    ));
}

#[test]
fn test_valid_tags() {
    let max_length = "a".repeat(MAXIMUM_TAG_LENGTH);
    let valid = vec![
        "a",
        "Z",
        "0",
        "prod",
        "team-billing",
        "env/staging",
        "a.b.c",
        "with space",
        "pipe|sep",
        "back\\slash",
        "key:value",
        "key=value",
        "Mixed-1_2/3|4.5:6=7 8",
        max_length.as_str(),
    ];
    for tag in valid {
        assert!(
            validate_tags(&[tag.to_string()]).is_ok(),
            "expected '{tag}' to be valid"
        );
    }
    assert!(validate_tags(&[]).is_ok());
    assert!(validate_tags(&["a".to_string(), "b/c".to_string()]).is_ok());
    let max_tags: Vec<String> = (0..MAXIMUM_TAGS_PER_PIPELINE)
        .map(|i| format!("tag{i}"))
        .collect();
    assert!(validate_tags(&max_tags).is_ok());
}

#[test]
fn test_invalid_tags() {
    assert!(matches!(
        validate_tags(&["".to_string()]),
        Err(DBError::InvalidTag { tag, .. }) if tag.is_empty()
    ));
    let too_long = "a".repeat(MAXIMUM_TAG_LENGTH + 1);
    assert!(matches!(
        validate_tags(&[too_long.clone()]),
        Err(DBError::InvalidTag { tag, .. }) if tag == too_long
    ));
    for invalid in ["%", "café", "a,b", "tab\tchar", "emoji😀", "a;b", "a@b"] {
        assert!(
            matches!(
                validate_tags(&[invalid.to_string()]),
                Err(DBError::InvalidTag { tag, .. }) if tag == invalid
            ),
            "expected '{invalid}' to be rejected"
        );
    }
    assert!(matches!(
        validate_tags(&["ok".to_string(), "bad,tag".to_string()]),
        Err(DBError::InvalidTag { tag, .. }) if tag == "bad,tag"
    ));
    let too_many: Vec<String> = (0..MAXIMUM_TAGS_PER_PIPELINE + 1)
        .map(|i| format!("tag{i}"))
        .collect();
    assert!(matches!(
        validate_tags(&too_many),
        Err(DBError::TooManyTags { count, maximum })
            if count == MAXIMUM_TAGS_PER_PIPELINE + 1 && maximum == MAXIMUM_TAGS_PER_PIPELINE
    ));
}

#[test]
fn tag_rejections_give_their_reason() {
    let reason = |tag: &str| match validate_tags(&[tag.to_string()]) {
        Err(DBError::InvalidTag { reason, .. }) => reason,
        other => panic!("unexpected outcome {other:?}"),
    };
    assert_eq!(reason(""), "it cannot be empty");
    assert_eq!(
        reason(&"é".repeat(51)),
        "it is 51 characters long, but the maximum is 50"
    );
    assert_eq!(
        reason("a;b"),
        "it may contain only ASCII letters (a-z, A-Z), numbers (0-9), or one of space, '.', '_', '/', '|', '\\', ':', '=' and '-'"
    );
}

#[test]
fn test_description_length() {
    assert!(validate_description("").is_ok());
    assert!(validate_description("a short description").is_ok());
    assert!(validate_description(&"a".repeat(MAXIMUM_DESCRIPTION_LENGTH)).is_ok());
    assert!(validate_description(&"é".repeat(MAXIMUM_DESCRIPTION_LENGTH)).is_ok());
    let too_long = "a".repeat(MAXIMUM_DESCRIPTION_LENGTH + 1);
    assert!(matches!(
        validate_description(&too_long),
        Err(DBError::TooLongDescription { length, maximum })
            if length == MAXIMUM_DESCRIPTION_LENGTH + 1 && maximum == MAXIMUM_DESCRIPTION_LENGTH
    ));
}

/// Numeric settings, standing in for a configuration.
type Numbers = BTreeMap<String, u64>;

/// Settings that hold a text or nothing, standing in for a configuration.
type Texts = BTreeMap<String, Option<String>>;

fn deserialize<T: serde::de::DeserializeOwned>(json: &str) -> Result<T, String> {
    serde_json::from_str(json).map_err(|e| e.to_string())
}

/// Deserializes a configuration, and checks its environment for a variable that the
/// pipeline reserves.
fn checked<T: serde::de::DeserializeOwned>(json: &str) -> Result<Deserialized<T>, String> {
    let settings: serde_json::Value = deserialize(json)?;
    let reserved = settings
        .get("env")
        .is_some_and(|env| env.get("TOKIO_WORKER_THREADS").is_some());
    Ok(Deserialized {
        value: deserialize(json)?,
        fault_tolerant: settings.get("fault_tolerance").is_some(),
        env: if reserved {
            Err("TOKIO_WORKER_THREADS is reserved".to_string())
        } else {
            Ok(())
        },
    })
}

fn checked_value(json: &str) -> Result<Deserialized<serde_json::Value>, String> {
    checked(json)
}

#[test]
fn runtime_config_validation() {
    let valid = validate_runtime_config(checked::<Numbers>(r#"{ "workers": 8 }"#), false);
    assert_eq!(valid.unwrap()["workers"], 8);

    assert!(matches!(
        validate_runtime_config(checked::<Numbers>(r#"{ "workers": "not-a-number" }"#), false),
        Err(ValidationError::DeserializationFailed(_))
    ));

    let fault_tolerant = r#"{ "fault_tolerance": {} }"#;
    assert!(validate_runtime_config(checked_value(fault_tolerant), true).is_ok());
    assert!(matches!(
        validate_runtime_config(checked_value(fault_tolerant), false),
        Err(ValidationError::EnterpriseFeature(s)) if s == "fault tolerance"
    ));

    assert!(matches!(
        validate_runtime_config(
            checked_value(r#"{ "env": { "TOKIO_WORKER_THREADS": "1" } }"#),
            false
        ),
        Err(ValidationError::InvalidPipelineEnv(e)) if e == "TOKIO_WORKER_THREADS is reserved"
    ));
    // The edition is checked before the environment.
    let both = r#"{ "fault_tolerance": {}, "env": { "TOKIO_WORKER_THREADS": "1" } }"#;
    assert!(matches!(
        validate_runtime_config(checked_value(both), false),
        Err(ValidationError::EnterpriseFeature(_))
    ));
}

#[test]
fn program_config_validation() {
    let valid = validate_program_config(deserialize::<Numbers>(r#"{ "cache": 0 }"#));
    assert_eq!(valid.unwrap()["cache"], 0);
    assert!(matches!(
        validate_program_config(deserialize::<Numbers>(
            r#"{ "profile": "non-existent-profile" }"#
        )),
        Err(ValidationError::DeserializationFailed(_))
    ));
}

#[test]
fn program_info_validation() {
    let info = r#"{ "main_rust": "", "udf_stubs": "", "dataflow": null }"#;
    let valid = validate_program_info(deserialize::<Texts>(info)).unwrap();
    assert_eq!(valid, deserialize(info).unwrap());
    assert!(matches!(
        validate_program_info(deserialize::<Texts>(r#"{ "main_rust": 123 }"#)),
        Err(ValidationError::DeserializationFailed(_))
    ));
}

#[test]
fn deployment_config_validation() {
    let config = r#"{ "name": null, "given_name": null }"#;
    let valid = validate_deployment_config(checked::<Texts>(config)).unwrap();
    assert_eq!(valid, deserialize(config).unwrap());
    assert!(matches!(
        validate_deployment_config(checked::<Texts>(r#"{ "name": 123 }"#)),
        Err(ValidationError::DeserializationFailed(_))
    ));
    assert!(matches!(
        validate_deployment_config(checked_value(
            r#"{ "workers": 8, "env": { "TOKIO_WORKER_THREADS": "1" } }"#
        )),
        Err(ValidationError::InvalidPipelineEnv(_))
    ));
    // Fault tolerance is not looked at here.
    assert!(validate_deployment_config(checked_value(r#"{ "fault_tolerance": {} }"#)).is_ok());
}

#[test]
fn storage_status_validation() {
    assert!(validate_storage_status_details(deserialize::<Numbers>("{}")).is_ok());
    assert!(validate_storage_status_details(deserialize::<Numbers>("[")).is_err());
}

#[test]
fn validation_errors_have_a_text() {
    assert_eq!(
        ValidationError::DeserializationFailed("x".into()).message(),
        "could not deserialize due to: x"
    );
    assert_eq!(
        ValidationError::EnterpriseFeature("fault tolerance".into()).message(),
        "enterprise feature: fault tolerance"
    );
    assert_eq!(
        ValidationError::InvalidPipelineEnv("y".into()).message(),
        "invalid pipeline environment: y"
    );
}
