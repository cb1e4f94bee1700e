use schematic::config::{PartialConfig, Path, PathSegment, ValidateError, ValidatorError};
use schematic::internal::ValidateManager;

fn key(k: &str) -> PathSegment {
    PathSegment::Key(k.to_string())
}

fn variant(v: &str) -> PathSegment {
    PathSegment::Variant(v.to_string())
}

fn positive(value: &i32, _: &(), _: &(), _: bool) -> Result<(), ValidateError> {
    if *value > 0 {
        Ok(())
    } else {
        Err(ValidateError::new("must be positive"))
    }
}

#[test]
fn validate_error_constructors() {
    let error = ValidateError::new("bad");
    assert_eq!(error.message, "bad");
    assert_eq!(error.path, Path::default());

    let error = ValidateError::required();
    assert_eq!(error.message, "this setting is required");

    let error = ValidateError::with_segment("bad", PathSegment::Index(2));
    assert_eq!(error.path, Path::new(vec![PathSegment::Index(2)]));

    let error = ValidateError::with_segments("bad", vec![key("a"), PathSegment::Unknown]);
    assert_eq!(error.path.segments(), &vec![key("a"), PathSegment::Unknown]);

    let error = ValidateError::with_path("bad", Path::new(vec![key("x")]));
    assert_eq!(error.path, Path::new(vec![key("x")]));
}

#[test]
fn prepending_places_the_outer_path_first() {
    let mut error = ValidateError::with_segments("bad", vec![key("leaf")]);
    error.prepend_path(Path::new(vec![key("inner")]));
    error.prepend_path(Path::new(vec![key("outer")]));

    assert_eq!(
        error.path,
        Path::new(vec![key("outer"), key("inner"), key("leaf")])
    );
    assert_eq!(error.message, "bad");
}

#[test]
fn paths_join_segments() {
    let path = Path::default().join_key("a").join_index(1).join_variant("B");
    assert_eq!(path.segments(), &vec![key("a"), PathSegment::Index(1), variant("B")]);

    let joined = path.join_path(&Path::new(vec![key("c")]));
    assert_eq!(
        joined.segments(),
        &vec![key("a"), PathSegment::Index(1), variant("B"), key("c")]
    );
}

#[test]
fn checks_record_failures_under_the_setting_path() {
    let context = ();
    let mut manager = ValidateManager::new(&context, false, Path::new(vec![key("root")]));

    manager.check("count", &5, &(), positive);
    assert!(manager.errors.is_empty());

    manager.check("count", &-1, &(), positive);
    manager.check_variant("Other", &0, &(), positive);

    assert_eq!(manager.errors.len(), 2);
    assert_eq!(manager.errors[0].message, "must be positive");
    assert_eq!(manager.errors[0].path, Path::new(vec![key("root"), key("count")]));
    assert_eq!(manager.errors[1].path, Path::new(vec![key("root"), variant("Other")]));
}

#[test]
fn required_settings_only_fail_when_finalizing() {
    let context = ();
    let mut manager = ValidateManager::new(&context, false, Path::default());
    manager.required("name");
    assert!(manager.errors.is_empty());

    let mut manager = ValidateManager::new(&context, true, Path::default());
    manager.required("name");
    manager.required_variant("Named");

    assert_eq!(manager.errors.len(), 2);
    assert_eq!(manager.errors[0].message, "this setting is required");
    assert_eq!(manager.errors[0].path, Path::new(vec![key("name")]));
    assert_eq!(manager.errors[1].path, Path::new(vec![variant("Named")]));
}

struct Nested {
    valid: bool,
}

impl PartialConfig for Nested {
    type Context = ();

    fn validate_with_path(
        &self,
        _: &(),
        _: bool,
        path: Path,
    ) -> Result<(), Vec<ValidateError>> {
        if self.valid {
            Ok(())
        } else {
            Err(vec![ValidateError::with_path("invalid", path)])
        }
    }
}

#[test]
fn nested_errors_keep_their_full_path() {
    let context = ();
    let mut manager = ValidateManager::new(&context, false, Path::new(vec![key("root")]));

    manager.nested("ok", &Nested { valid: true });
    manager.nested("child", &Nested { valid: false });
    manager.nested_list(
        "list",
        &vec![Nested { valid: true }, Nested { valid: false }],
    );
    manager.nested_map(
        "map",
        &vec![("k".to_string(), Nested { valid: false })],
    );
    manager.nested_variant("Var", 1, &Nested { valid: false });
    manager.nested_variant_list("Var", 0, &vec![Nested { valid: false }]);
    manager.nested_variant_map("Var", 2, &vec![("m".to_string(), Nested { valid: false })]);

    let paths: Vec<Path> = manager.errors.iter().map(|e| e.path.clone()).collect();
    assert_eq!(
        paths,
        vec![
            Path::new(vec![key("root"), key("child")]),
            Path::new(vec![key("root"), key("list"), PathSegment::Index(1)]),
            Path::new(vec![key("root"), key("map"), key("k")]),
            Path::new(vec![key("root"), variant("Var"), PathSegment::Index(1)]),
            Path::new(vec![
                key("root"),
                variant("Var"),
                PathSegment::Index(0),
                PathSegment::Index(0)
            ]),
            Path::new(vec![key("root"), variant("Var"), PathSegment::Index(2), key("m")]),
        ]
    );
}

#[test]
fn gathered_errors_follow_the_recorded_ones() {
    let context = ();
    let mut manager = ValidateManager::new(&context, false, Path::default());
    manager.check("a", &0, &(), positive);
    manager.gather(Err(vec![ValidateError::new("x"), ValidateError::new("y")]));
    manager.gather(Ok(()));

    let messages: Vec<&str> = manager.errors.iter().map(|e| e.message.as_str()).collect();
    assert_eq!(messages, vec!["must be positive", "x", "y"]);

    let errors = ValidatorError { errors: vec![] };
    assert!(errors.errors.is_empty());
}
