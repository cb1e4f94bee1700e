use schematic::config::error::{full_error_message, ErrorDetail};
use schematic::config::formats::create_span;
use schematic::config::{
    Cacher, ConfigError, JsonFormat, MemoryCache, ParseError, PklFormat, RegexSetting, RonFormat, Source,
    TomlFormat, VersionSetting, YamlFormat,
};
use schematic::format::Format;

fn file(path: &str) -> Source {
    Source::File {
        path: path.to_string(),
        format: Format::Json,
        required: true,
    }
}

#[test]
fn each_format_parses_its_own_extensions() {
    assert!(JsonFormat.should_parse(&file("a.json")));
    assert!(JsonFormat.should_parse(&file("a.jsonc")));
    assert!(!JsonFormat.should_parse(&file("a.yml")));
    assert!(RonFormat.should_parse(&file("a.ron")));
    assert!(!RonFormat.should_parse(&file("a.json")));
    assert!(TomlFormat.should_parse(&file("a.toml")));
    assert!(YamlFormat.should_parse(&file("a.yml")));
    assert!(YamlFormat.should_parse(&file("a.yaml")));
    assert!(!YamlFormat.should_parse(&file("yaml")));
}

#[test]
fn json_content_is_prepared_for_the_deserializer() {
    let source = file("dir/app.json");

    assert_eq!(JsonFormat.prepare(&source, ""), Ok("{}".to_string()));

    let prepared = JsonFormat.prepare(&source, "{\n  // note\n  \"a\": 1,\n}").unwrap();
    assert!(!prepared.contains("note"));
    assert!(!prepared.contains(','));
    assert_eq!(prepared.len(), "{\n  // note\n  \"a\": 1,\n}".len());

    assert!(matches!(
        JsonFormat.prepare(&source, "{ /x }"),
        Err(ConfigError::JsonStripCommentsFailed { file, .. }) if file == "app.json"
    ));
}

#[test]
fn spans_point_at_the_line_and_column() {
    assert_eq!(create_span("ab\ncd", 2, 2), (4, 0));
    assert_eq!(create_span("ab\ncd", 1, 1), (0, 0));
}

#[test]
fn memory_cache_reads_back_what_was_written() {
    let mut cache = MemoryCache::new();

    assert_eq!(cache.read("https://a"), Ok(None));
    assert_eq!(cache.write("https://a", "one"), Ok(()));
    assert_eq!(cache.write("https://b", "two"), Ok(()));
    assert_eq!(cache.read("https://a"), Ok(Some("one".to_string())));

    // A second write replaces the content
    assert_eq!(cache.write("https://a", "uno"), Ok(()));
    assert_eq!(cache.read("https://a"), Ok(Some("uno".to_string())));
    assert_eq!(cache.read("https://b"), Ok(Some("two".to_string())));
    assert_eq!(cache.get_file_path("https://a"), Ok(None));

    let mut cache = MemoryCache::default();
    assert_eq!(cache.read("https://b"), Ok(None));
}

#[test]
fn full_error_messages() {
    assert_eq!(
        full_error_message("Failed to read file app.yml", &ErrorDetail::Cause("denied".to_string())),
        "Failed to read file app.yml. denied"
    );
    assert_eq!(
        full_error_message("Failed to parse:", &ErrorDetail::Cause("bad".to_string())),
        "Failed to parse: bad"
    );
    assert_eq!(
        full_error_message("Done.", &ErrorDetail::Cause("why".to_string())),
        "Done. why"
    );
    assert_eq!(
        full_error_message("Header\n", &ErrorDetail::Cause("body".to_string())),
        "Header\nbody"
    );
    assert_eq!(
        full_error_message(
            "Failed to validate app.yml.",
            &ErrorDetail::Errors(vec!["a: bad".to_string(), "b: worse".to_string()])
        ),
        "Failed to validate app.yml. \n  a: bad\n  b: worse"
    );
    assert_eq!(
        full_error_message("Failed to validate app.yml", &ErrorDetail::Errors(vec!["a: bad".to_string()])),
        "Failed to validate app.yml. \n  a: bad"
    );
    assert_eq!(
        full_error_message("  Unknown enum variant x.  ", &ErrorDetail::Nothing),
        "Unknown enum variant x."
    );
}

#[test]
fn parse_errors_carry_their_message() {
    assert_eq!(ParseError::new("oops").message, "oops");
}

#[test]
fn regex_settings_compile_their_pattern() {
    let setting = RegexSetting::new("^a+$").unwrap();
    assert!(setting.0.is_match("aaa"));
    assert!(RegexSetting::new("(").is_err());
}

#[test]
fn version_settings_parse_semver() {
    let setting = VersionSetting::new("1.2.3").unwrap();
    assert_eq!(setting.0.major, 1);
    assert_eq!(setting.0.patch, 3);
    assert!(VersionSetting::new("1.2").is_err());
}

#[test]
fn regex_settings_keep_their_pattern_and_compare_by_it() {
    let setting = RegexSetting::new("a+").unwrap();
    assert_eq!(setting.as_str(), "a+");
    assert!(setting.is_match("caab"));
    assert!(setting == RegexSetting::new("a+").unwrap());
    assert!(setting != RegexSetting::new("b+").unwrap());
    assert_eq!(RegexSetting::default().as_str(), ".");
    assert!(RegexSetting::default().is_match("x"));
    let parsed: RegexSetting = "x?".parse().unwrap();
    assert_eq!(parsed.as_str(), "x?");
    assert!(RegexSetting::try_from("(").is_err());
    assert_eq!(RegexSetting::try_from(String::from("[a-z]")).unwrap().as_str(), "[a-z]");
    let text: String = setting.clone().into();
    assert_eq!(text, "a+");
    let mut set = std::collections::HashSet::new();
    set.insert(setting);
    assert!(set.contains(&RegexSetting::new("a+").unwrap()));
}

#[test]
fn version_settings_default_to_zero_and_convert_to_text() {
    assert_eq!(VersionSetting::default().0, semver::Version::new(0, 0, 0));
    let setting = VersionSetting::try_from("1.2.3-beta.1+build").unwrap();
    assert_eq!(setting.minor, 2);
    let text: String = setting.clone().into();
    assert_eq!(text, "1.2.3-beta.1+build");
    assert!(setting == VersionSetting::new("1.2.3-beta.1+build").unwrap());
    assert!(setting != VersionSetting::new("1.2.3").unwrap());
    assert!(VersionSetting::try_from(String::from("v1.2.3")).is_err());
    let parsed: VersionSetting = "0.4.0".parse().unwrap();
    assert_eq!(parsed.0, semver::Version::new(0, 4, 0));
}

#[test]
fn pkl_evaluates_a_cached_file_or_the_source_file() {
    let format = PklFormat::new(rpkl::EvaluatorOptions::default());
    let source = Source::File {
        path: "app.pkl".to_string(),
        format: Format::Pkl,
        required: true,
    };

    assert!(format.should_parse(&source));
    assert!(!format.should_parse(&file("app.json")));
    assert_eq!(format.file_path(&source, None), Ok("app.pkl".to_string()));
    assert_eq!(
        format.file_path(&source, Some("/cache/app.pkl".to_string())),
        Ok("/cache/app.pkl".to_string())
    );

    let code = Source::code("a = 1", Format::Pkl).unwrap();
    assert_eq!(format.file_path(&code, None), Err(ConfigError::PklFileRequired));
}

#[test]
fn spans_count_bytes_as_miette_does() {
    assert_eq!(create_span("é\nab", 2, 2), (4, 0));
    assert_eq!(create_span("ab", 5, 1), (2, 0));
    for content in ["", "a", "ab\ncd\n", "héllo\nwörld\n€\n𝄞x"] {
        for line in 0..5 {
            for column in 0..7 {
                let expected = miette::SourceOffset::from_location(content, line, column).offset();
                assert_eq!(create_span(content, line, column), (expected, 0), "{content:?} {line} {column}");
            }
        }
    }
}
