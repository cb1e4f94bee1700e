use schematic::config::{ConfigError, HandlerError, MergeError};
use schematic::internal::{
    default_env_value, format_case, handle_default_result, merge_setting, parse_env_value,
    parse_value, parsed_value, track_env, untagged_failure, EnvManager, MergeManager,
};
use std::collections::HashSet;

#[test]
fn parse_value_quotes_the_value_on_failure() {
    assert_eq!(parse_value::<u8>("7"), Ok(7));
    assert_eq!(
        parse_value::<u8>("300"),
        Err(HandlerError(
            "Failed to parse \"300\" into the correct type.".to_string()
        ))
    );
}

#[test]
fn env_manager_applies_non_empty_prefixes_in_order() {
    let manager = EnvManager::new(Some("OVERRIDE_"), Some("APP_"));
    assert_eq!(
        manager.prefixed_keys("PORT"),
        vec!["OVERRIDE_PORT".to_string(), "APP_PORT".to_string()]
    );

    let manager = EnvManager::new(Some(""), Some("APP_"));
    assert_eq!(manager.prefixed_keys("PORT"), vec!["APP_PORT".to_string()]);

    let manager = EnvManager::new(None, None);
    assert!(manager.prefixed_keys("PORT").is_empty());
    assert!(manager.is_empty());
}

#[test]
fn env_manager_counts_found_values() {
    let mut manager = EnvManager::new(None, None);

    assert_eq!(manager.get::<u16>("PORT", None), Ok(None));
    assert!(manager.is_empty());

    assert_eq!(manager.get::<u16>("PORT", Some("8080".to_string())), Ok(Some(8080)));
    assert!(!manager.is_empty());
}

#[test]
fn env_manager_names_the_variable_on_failure() {
    let mut manager = EnvManager::new(None, None);

    assert_eq!(
        manager.get::<u16>("PORT", Some("high".to_string())),
        Err(HandlerError(
            "Invalid environment variable PORT. Failed to parse \"high\" into the correct type."
                .to_string()
        ))
    );
    assert!(manager.is_empty());
}

#[test]
fn env_manager_first_prefixed_value_wins() {
    let mut manager = EnvManager::new(Some("A_"), Some("B_"));

    assert_eq!(
        manager.get_prefixed::<u16>("PORT", vec![None, Some("2".to_string())]),
        Ok(Some(2))
    );
    assert_eq!(
        manager.get_prefixed::<u16>(
            "PORT",
            vec![Some("1".to_string()), Some("2".to_string())]
        ),
        Ok(Some(1))
    );
    assert_eq!(manager.get_prefixed::<u16>("PORT", vec![None, None]), Ok(None));
    assert_eq!(
        manager.get_prefixed::<u16>("PORT", vec![None, Some("x".to_string())]),
        Err(HandlerError(
            "Invalid environment variable B_PORT. Failed to parse \"x\" into the correct type."
                .to_string()
        ))
    );
}

#[test]
fn env_manager_skips_values_the_parser_turns_into_none() {
    let mut manager = EnvManager::new(Some("A_"), Some("B_"));
    let result = manager.get_and_parse_prefixed(
        "FLAG",
        vec![Some(String::new()), Some("yes".to_string())],
        |value: String| {
            if value.is_empty() {
                Ok(None)
            } else {
                Ok(Some(value))
            }
        },
    );

    assert_eq!(result, Ok(Some("yes".to_string())));
}

#[test]
fn env_manager_nested_counts_present_partials() {
    let mut manager = EnvManager::new(None, None);

    assert_eq!(manager.nested::<u8>(None), Ok(None));
    assert!(manager.is_empty());
    assert_eq!(manager.nested(Some(1)), Ok(Some(1)));
    assert!(!manager.is_empty());
}

#[test]
fn default_results_map_into_invalid_default_value() {
    assert_eq!(handle_default_result::<u8, std::fmt::Error>(Ok(3)), Ok(3));
    assert_eq!(
        handle_default_result::<u8, std::fmt::Error>(Err(std::fmt::Error)),
        Err(ConfigError::InvalidDefaultValue(
            "an error occurred when formatting an argument".to_string()
        ))
    );
}

#[test]
fn merge_manager_only_merges_when_both_are_set() {
    let context = ();
    let mut prev = Some(1);
    MergeManager::new(&context).apply(&mut prev, None).unwrap();
    assert_eq!(prev, Some(1));

    MergeManager::new(&context).apply(&mut prev, Some(2)).unwrap();
    assert_eq!(prev, Some(2));

    let mut prev = Some(vec![1]);
    MergeManager::new(&context)
        .apply_with(&mut prev, Some(vec![2]), |p: Vec<u8>, n: Vec<u8>, _: &()| {
            Ok(Some([p, n].concat()))
        })
        .unwrap();
    assert_eq!(prev, Some(vec![1, 2]));
}

#[test]
fn merge_manager_reports_the_merger_error() {
    let context = ();
    let mut prev = Some(1);
    let result = MergeManager::new(&context).apply_with(&mut prev, Some(2), |_: u8, _: u8, _: &()| {
        Err(MergeError("conflict".to_string()))
    });

    assert!(matches!(result, Err(MergeError(message)) if message == "conflict"));
}

#[test]
fn merge_setting_picks_whichever_is_set() {
    let merger = |p: u8, n: u8, _: &()| Ok(Some(p + n));

    assert_eq!(merge_setting(Some(1), Some(2), &(), merger), Ok(Some(3)));
    assert_eq!(merge_setting(None, Some(2), &(), merger), Ok(Some(2)));
    assert_eq!(merge_setting(Some(1), None, &(), merger), Ok(Some(1)));
    assert_eq!(merge_setting::<u8, ()>(None, None, &(), merger), Ok(None));
}

#[test]
fn tracks_found_env_values() {
    let mut tracker = HashSet::new();

    assert_eq!(track_env::<u8>(None, &mut tracker), None);
    assert!(tracker.is_empty());
    assert_eq!(track_env(Some(1), &mut tracker), Some(1));
    assert!(tracker.contains(&true));
}

#[test]
fn env_values_are_parsed_with_the_key_in_errors() {
    assert_eq!(default_env_value::<u8>("LEVEL", None), Ok(None));
    assert_eq!(default_env_value::<u8>("LEVEL", Some("4".to_string())), Ok(Some(4)));
    assert_eq!(
        parse_env_value("LEVEL", Some("x".to_string()), |_: String| -> Result<Option<u8>, HandlerError> {
            Err(HandlerError("bad".to_string()))
        }),
        Err(HandlerError("Invalid environment variable LEVEL. bad".to_string()))
    );
}

#[test]
fn formats_input_into_each_case() {
    assert_eq!(format_case("VeryHigh", "kebab-case"), "very-high");
    assert_eq!(format_case("very_high", "camelCase"), "veryHigh");
    assert_eq!(format_case("very-high", "PascalCase"), "VeryHigh");
    assert_eq!(format_case("veryHigh", "SCREAMING_SNAKE_CASE"), "VERY_HIGH");
    assert_eq!(format_case("Version2", "snake_case"), "version2");
    assert_eq!(format_case("MiXeD", "lowercase"), "mixed");
    assert_eq!(format_case("MiXeD", "UPPERCASE"), "MIXED");
}

#[test]
fn a_full_count_still_reads_unset_variables() {
    let mut manager = EnvManager::new(None, None);
    for _ in 0..255 {
        assert_eq!(manager.nested(Some(1u8)), Ok(Some(1)));
    }

    assert_eq!(manager.found_count(), 255);
    assert_eq!(manager.get::<u8>("UNSET", None), Ok(None));
    assert_eq!(manager.nested::<u8>(None), Ok(None));
    assert_eq!(
        manager.get_and_parse("EMPTY", Some(String::new()), |_: String| -> Result<Option<u8>, HandlerError> {
            Ok(None)
        }),
        Ok(None)
    );
    assert_eq!(manager.found_count(), 255);
}

#[test]
fn parsed_values_are_kept_and_failures_quote_the_value() {
    assert_eq!(parsed_value("7", Some(7u8)), Ok(7));
    assert_eq!(
        parsed_value::<u8>("x", None),
        Err(HandlerError(
            "Failed to parse \"x\" into the correct type.".to_string()
        ))
    );
}

#[test]
fn untagged_failures_list_each_variant() {
    let errors = vec![
        ("String".to_string(), "invalid type: integer".to_string()),
        ("List".to_string(), "expected a sequence".to_string()),
    ];
    assert_eq!(
        untagged_failure("PartialValue", &errors),
        "failed to parse as any variant of PartialValue:\n- String: invalid type: integer\n- List: expected a sequence"
    );
    assert_eq!(untagged_failure("E", &vec![]), "failed to parse as any variant of E:");
}

#[test]
fn layered_values_prefer_the_environment_then_the_partial() {
    let context = ();
    let layer = |default: Option<u8>, partial: Option<u8>, env: Option<u8>| {
        let mut value = default;
        let manager = MergeManager::new(&context).apply(&mut value, partial).unwrap();
        manager.apply(&mut value, env).unwrap();
        value
    };
    assert_eq!(layer(Some(1), Some(2), Some(3)), Some(3));
    assert_eq!(layer(Some(1), Some(2), None), Some(2));
    assert_eq!(layer(Some(1), None, None), Some(1));
    assert_eq!(layer(Some(1), None, Some(3)), Some(3));
    assert_eq!(layer(None, None, None), None);
}
