use schematic::format::{Format, UnsupportedFormatError};
use schematic::helpers::{
    extract_ext, extract_file_ext, extract_file_name, is_file_like, is_secure_url,
    is_source_format, is_url_like, strip_bom,
};

#[test]
fn detects_source_formats_by_extension() {
    assert!(is_source_format("config.json"));
    assert!(is_source_format("config.yml"));
    assert!(is_source_format("https://example.com/config.toml?raw=true"));
    assert!(!is_source_format("config.ron"));
    assert!(!is_source_format("config"));
}

#[test]
fn detects_file_like_values() {
    assert!(is_file_like("file://config.json"));
    assert!(is_file_like("/abs/path"));
    assert!(is_file_like("dir\\file"));
    assert!(is_file_like("config.yml"));
    assert!(is_file_like("./app"));
    assert!(!is_file_like("config"));
    assert!(!is_file_like(""));
    // A period counts only through a supported extension
    assert!(!is_file_like("notes.txt"));
    assert!(!is_file_like("app.ron"));
}

#[test]
fn detects_url_like_values() {
    assert!(is_url_like("https://example.com"));
    assert!(is_url_like("http://example.com"));
    assert!(is_url_like("www.example.com"));
    assert!(!is_url_like("ftp://example.com"));
}

#[test]
fn only_https_or_local_urls_are_secure() {
    assert!(is_secure_url("https://example.com/config.yml"));
    assert!(is_secure_url("http://127.0.0.1:8080/config.yml"));
    assert!(is_secure_url("http://localhost/config.yml"));
    assert!(is_secure_url("http://localhost:3000/config.yml"));
    assert!(!is_secure_url("http://example.com/config.yml"));
    // Only the host is looked at
    assert!(!is_secure_url("http://a.com/c.yml?next=127.0.0.1"));
    assert!(!is_secure_url("http://a.com//localhost/c.yml"));
    assert!(!is_secure_url("http://localhost.evil.com/c.yml"));
    assert!(!is_secure_url("ftp://localhost/c.yml"));
}

#[test]
fn strips_every_leading_bom() {
    assert_eq!(strip_bom("\u{feff}\u{feff}a: 1"), "a: 1");
    assert_eq!(strip_bom("a: 1\u{feff}"), "a: 1\u{feff}");
    assert_eq!(strip_bom(""), "");
}

#[test]
fn extracts_file_names() {
    assert_eq!(extract_file_name("path/to/config.yml"), "config.yml");
    assert_eq!(
        extract_file_name("https://example.com/dir/file.json?token=a/b"),
        "file.json"
    );
    assert_eq!(extract_file_name("plain"), "plain");
    // The query string starts at the first `?`
    assert_eq!(extract_file_name("a/c.yml?x=1?y=2"), "c.yml");
    assert_eq!(extract_file_name("https://a.com/p/c.yml?t=1"), "c.yml");
    assert_eq!(extract_file_name("trailing/"), "");
}

#[test]
fn extracts_file_extensions() {
    assert_eq!(extract_file_ext("path/to/config.yml"), Some("yml"));
    assert_eq!(extract_file_ext("archive.tar.gz"), Some("gz"));
    assert_eq!(extract_file_ext("dir.d/file"), None);
    assert_eq!(extract_ext("dir/config.json"), Some(".json"));
    assert_eq!(extract_ext("https://a.b/c.toml?x=1"), Some(".toml"));
    assert_eq!(extract_ext("noext"), None);
}

#[test]
fn detects_each_format() {
    assert_eq!(Format::detect("a.json"), Ok(Format::Json));
    assert_eq!(Format::detect("a.pkl"), Ok(Format::Pkl));
    assert_eq!(Format::detect("a.ron"), Ok(Format::Ron));
    assert_eq!(Format::detect("a.toml"), Ok(Format::Toml));
    assert_eq!(Format::detect("a.yaml"), Ok(Format::Yaml));
    assert_eq!(Format::detect("https://x.y/a.yml?v=2"), Ok(Format::Yaml));
}

#[test]
fn unsupported_format_lists_the_available_ones() {
    assert_eq!(
        Format::detect("a.ini"),
        Err(UnsupportedFormatError(
            "a.ini".to_string(),
            "JSON, Pkl, RON, TOML, YAML".to_string()
        ))
    );
    assert!(Format::detect("noext").is_err());
}

#[test]
fn format_predicates_name_one_format() {
    assert!(Format::Json.is_json() && !Format::Json.is_yaml());
    assert!(Format::Pkl.is_pkl());
    assert!(Format::Ron.is_ron());
    assert!(Format::Toml.is_toml());
    assert!(Format::Yaml.is_yaml() && !Format::Yaml.is_toml());
    assert_eq!(Format::default(), Format::Unset);
    assert!(!Format::Unset.is_json());
}

#[test]
fn extension_with_period_is_period_and_extension() {
    for value in ["a.json", "dir.d/file", "https://x.y/z.tar.gz?q=1", "noext", "."] {
        match extract_file_ext(value) {
            Some(ext) => assert_eq!(extract_ext(value), Some(format!(".{ext}").as_str())),
            None => assert_eq!(extract_ext(value), None),
        }
    }
}

#[test]
fn white_space_agrees_with_the_standard_library() {
    for code in 0u32..=0x10ffff {
        if let Some(c) = char::from_u32(code) {
            assert_eq!(schematic::text::is_white_space(c), c.is_whitespace(), "{code:#x}");
        }
    }
}
