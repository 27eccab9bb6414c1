use specspec_prelude::bundle::FSContext;
use specspec_prelude::bundle_checks::{
    bundle_kind, check_bundle_kind, check_opened_bundle, is_archive_name, validate_fs_directory,
    classify_bundle, validate_fs_file, validate_json_file, validate_path, BundleKind, LoadError,
};
use specspec_prelude::issue::{add_issue, decimal, index_segment, render, Issue, Issues};
use specspec_prelude::paths::{extension, file_name_of, stem};
use specspec_prelude::validators::{
    check_value, validate, validate_bool, validate_field, validate_list, validate_literal,
    validate_literal_i64, validate_literal_str, validate_num, validate_object, validate_oneof,
    validate_pattern, validate_str, Field, Validator,
};
use specspec_prelude::value::{values_equal, JsonValue, Number};

fn s(t: &str) -> JsonValue {
    JsonValue::Str(t.to_string())
}

fn whole(n: i64) -> JsonValue {
    JsonValue::Number(Number { mantissa: n, scale: 0 })
}

fn obj(members: Vec<(&str, JsonValue)>) -> JsonValue {
    JsonValue::Object(members.into_iter().map(|(k, v)| (k.to_string(), v)).collect())
}

fn codes(issues: &[Issue]) -> Vec<String> {
    issues.iter().map(|i| i.code.clone()).collect()
}

fn root() -> Vec<String> {
    Vec::new()
}

fn archive(entries: Vec<(&str, bool, &[u8])>) -> FSContext {
    FSContext::archive(
        "/bundles/sample.zip".to_string(),
        entries.into_iter().map(|(n, d, b)| (n.to_string(), d, b.to_vec())).collect(),
    )
}

#[test]
fn short_string_yields_one_too_short() {
    let mut issues: Issues = Vec::new();
    validate_str(&s("ab"), &root(), &mut issues, Some(5), None, None);
    assert_eq!(codes(&issues), vec!["str.too_short"]);
    assert_eq!(issues[0].message, "String length 2 is less than minimum 5");
    assert_eq!(issues[0].path, "(root)");
}

#[test]
fn string_checks_all_run() {
    let mut issues: Issues = Vec::new();
    validate_str(&s("hello world"), &root(), &mut issues, Some(1), Some(4), Some("^[0-9]+$"));
    assert_eq!(codes(&issues), vec!["str.too_long", "str.pattern_mismatch"]);
    let mut issues: Issues = Vec::new();
    validate_str(&whole(3), &root(), &mut issues, None, None, None);
    assert_eq!(codes(&issues), vec!["type.mismatch"]);
    assert_eq!(issues[0].message, "Expected string, got number");
}

#[test]
fn string_length_counts_bytes() {
    let mut issues: Issues = Vec::new();
    validate_str(&s("\u{e9}\u{e9}"), &root(), &mut issues, None, Some(3), None);
    assert_eq!(codes(&issues), vec!["str.too_long"]);
}

#[test]
fn malformed_pattern_checks_nothing() {
    let mut issues: Issues = Vec::new();
    validate_str(&s("abc"), &root(), &mut issues, None, None, Some("(unclosed"));
    assert!(issues.is_empty());
    validate_pattern(&s("abc"), &root(), &mut issues, "(unclosed");
    assert!(issues.is_empty());
}

#[test]
fn pattern_matches_and_mismatches() {
    let mut issues: Issues = Vec::new();
    validate_pattern(&s("aaa"), &root(), &mut issues, "^a+$");
    assert!(issues.is_empty());
    validate_pattern(&s("bbb"), &root(), &mut issues, "^a+$");
    assert_eq!(codes(&issues), vec!["pattern.mismatch"]);
    validate_pattern(&JsonValue::Null, &root(), &mut issues, "^a+$");
    assert_eq!(codes(&issues), vec!["pattern.mismatch", "type.mismatch"]);
}

#[test]
fn number_in_range_yields_nothing() {
    let mut issues: Issues = Vec::new();
    let min = Number { mantissa: 15, scale: 1 };
    let max = Number { mantissa: 10, scale: 0 };
    validate_num(&whole(5), &root(), &mut issues, Some(min), Some(max), false);
    validate_num(&JsonValue::Number(Number { mantissa: 150, scale: 2 }), &root(), &mut issues, Some(min), Some(max), false);
    validate_num(&whole(10), &root(), &mut issues, Some(min), Some(max), false);
    assert!(issues.is_empty());
}

#[test]
fn number_checks_do_not_short_circuit() {
    let mut issues: Issues = Vec::new();
    let half = JsonValue::Number(Number { mantissa: -5, scale: 1 });
    validate_num(&half, &root(), &mut issues, Some(Number::from_i64(0)), Some(Number::from_i64(-1)), true);
    assert_eq!(codes(&issues), vec!["num.not_integer", "num.too_small", "num.too_large"]);
    assert_eq!(issues[0].message, "Expected integer, got -0.5");
    assert_eq!(issues[1].message, "Number -0.5 is less than minimum 0");
    assert_eq!(issues[2].message, "Number -0.5 exceeds maximum -1");
    assert_eq!(Number { mantissa: 5, scale: 3 }.text(), "0.005");
    assert_eq!(Number { mantissa: -12345, scale: 2 }.text(), "-123.45");
    let mut issues: Issues = Vec::new();
    validate_num(&JsonValue::Number(Number { mantissa: 20, scale: 1 }), &root(), &mut issues, None, None, true);
    assert!(issues.is_empty());
    validate_num(&s("1"), &root(), &mut issues, None, None, false);
    assert_eq!(codes(&issues), vec!["type.mismatch"]);
}

#[test]
fn boolean_check() {
    let mut issues: Issues = Vec::new();
    validate_bool(&JsonValue::Bool(false), &root(), &mut issues);
    assert!(issues.is_empty());
    validate_bool(&s("true"), &root(), &mut issues);
    assert_eq!(codes(&issues), vec!["type.mismatch"]);
    assert_eq!(issues[0].message, "Expected boolean, got string");
}

#[test]
fn literal_str_mismatch_at_root() {
    let mut issues: Issues = Vec::new();
    validate_literal_str(&s("inactive"), &root(), &mut issues, "active");
    assert_eq!(issues.len(), 1);
    assert_eq!(issues[0].code, "literal.mismatch");
    assert_eq!(issues[0].path, "(root)");
    let mut issues: Issues = Vec::new();
    validate_literal_str(&s("active"), &root(), &mut issues, "active");
    assert!(issues.is_empty());
}

#[test]
fn literal_i64_and_generic_literal() {
    let mut issues: Issues = Vec::new();
    validate_literal_i64(&whole(7), &root(), &mut issues, 7);
    assert!(issues.is_empty());
    validate_literal_i64(&JsonValue::Number(Number { mantissa: 70, scale: 1 }), &root(), &mut issues, 7);
    assert_eq!(codes(&issues), vec!["literal.mismatch"]);
    let expected = obj(vec![("a", JsonValue::Array(vec![whole(1), s("x")]))]);
    let same = obj(vec![("a", JsonValue::Array(vec![whole(1), s("x")]))]);
    let other = obj(vec![("a", JsonValue::Array(vec![whole(1), s("y")]))]);
    let one_and_half = JsonValue::Number(Number { mantissa: 15, scale: 1 });
    let same_number = JsonValue::Number(Number { mantissa: 150, scale: 2 });
    assert!(values_equal(&one_and_half, &same_number));
    assert!(!values_equal(&one_and_half, &whole(1)));
    let one_float = JsonValue::Number(Number { mantissa: 10, scale: 1 });
    assert!(!values_equal(&whole(1), &one_float));
    let mut issues: Issues = Vec::new();
    validate_literal(&whole(1), &root(), &mut issues, &one_float);
    assert_eq!(codes(&issues), vec!["literal.mismatch"]);
    let ab = obj(vec![("a", whole(1)), ("b", whole(2))]);
    let ba = obj(vec![("b", whole(2)), ("a", whole(1))]);
    let a_only = obj(vec![("a", whole(1))]);
    assert!(values_equal(&ab, &ba));
    assert!(!values_equal(&ab, &a_only));
    assert!(!values_equal(&a_only, &ab));
    assert!(values_equal(&same, &expected));
    let mut issues: Issues = Vec::new();
    validate_literal(&same, &root(), &mut issues, &expected);
    assert!(issues.is_empty());
    validate_literal(&other, &root(), &mut issues, &expected);
    assert_eq!(codes(&issues), vec!["literal.mismatch"]);
}

#[test]
fn object_check() {
    let mut issues: Issues = Vec::new();
    assert!(validate_object(&obj(vec![]), &root(), &mut issues));
    assert!(!validate_object(&JsonValue::Array(vec![]), &root(), &mut issues));
    assert_eq!(issues[0].message, "Expected object, got array");
}

#[test]
fn missing_field_required_and_optional() {
    let empty = obj(vec![]);
    let mut issues: Issues = Vec::new();
    validate_field(&empty, &root(), &mut issues, "name", None, false);
    assert_eq!(codes(&issues), vec!["field.missing"]);
    assert_eq!(issues[0].message, "Missing required field: name");
    let mut issues: Issues = Vec::new();
    validate_field(&empty, &root(), &mut issues, "name", None, true);
    assert!(issues.is_empty());
}

#[test]
fn present_field_is_checked_at_its_key() {
    let value = obj(vec![("age", s("old"))]);
    let mut issues: Issues = Vec::new();
    let v = Validator::Num { min: None, max: None, integer: true };
    validate_field(&value, &vec!["person".to_string()], &mut issues, "age", Some(&v), false);
    assert_eq!(codes(&issues), vec!["type.mismatch"]);
    assert_eq!(issues[0].path, "person.age");
}

#[test]
fn short_list_still_checks_items() {
    let list = JsonValue::Array(vec![s("a"), s("b")]);
    let mut issues: Issues = Vec::new();
    validate_list(&list, &root(), &mut issues, Some(&Validator::Bool), Some(3), None);
    assert_eq!(codes(&issues), vec!["list.too_short", "type.mismatch", "type.mismatch"]);
    assert_eq!(issues[0].message, "Array length 2 is less than minimum 3");
    assert_eq!(issues[1].path, "[0]");
    assert_eq!(issues[2].path, "[1]");
}

#[test]
fn long_list_and_non_list() {
    let list = JsonValue::Array(vec![whole(1), whole(2), whole(3)]);
    let mut issues: Issues = Vec::new();
    validate_list(&list, &root(), &mut issues, None, None, Some(2));
    assert_eq!(codes(&issues), vec!["list.too_long"]);
    validate_list(&s("x"), &root(), &mut issues, None, None, None);
    assert_eq!(codes(&issues), vec!["list.too_long", "type.mismatch"]);
}

#[test]
fn oneof_second_candidate_matches() {
    let candidates = vec![
        Validator::Bool,
        Validator::Str { min_length: None, max_length: None, pattern: None },
        Validator::Num { min: None, max: None, integer: false },
    ];
    let mut issues: Issues = Vec::new();
    validate_oneof(&s("x"), &root(), &mut issues, &candidates);
    assert!(issues.is_empty());
    validate_oneof(&JsonValue::Null, &root(), &mut issues, &candidates);
    assert_eq!(codes(&issues), vec!["oneof.no_match"]);
    assert_eq!(issues[0].message, "Value does not match any of the options");
}

#[test]
fn nested_path_rendering() {
    let name_rule = Validator::Object(vec![Field {
        key: "name".to_string(),
        validator: Some(Validator::Str { min_length: None, max_length: None, pattern: None }),
        optional: false,
    }]);
    let schema = Validator::Object(vec![Field {
        key: "items".to_string(),
        validator: Some(Validator::List { item: Some(Box::new(name_rule)), min_items: None, max_items: None }),
        optional: false,
    }]);
    let value = obj(vec![(
        "items",
        JsonValue::Array(vec![obj(vec![("name", s("a"))]), obj(vec![("name", s("b"))]), obj(vec![("name", whole(3))])]),
    )]);
    let result = validate(&value, &schema);
    assert!(!result.ok);
    assert_eq!(result.issues.len(), 1);
    assert_eq!(result.issues[0].path, "items.[2].name");
    assert_eq!(result.issues[0].code, "type.mismatch");
}

#[test]
fn valid_value_round_trip() {
    let schema = Validator::Object(vec![
        Field { key: "status".to_string(), validator: Some(Validator::LiteralStr("active".to_string())), optional: false },
        Field { key: "note".to_string(), validator: Some(Validator::Pattern("^n".to_string())), optional: true },
        Field {
            key: "tags".to_string(),
            validator: Some(Validator::List {
                item: Some(Box::new(Validator::OneOf(vec![Validator::Bool, Validator::LiteralI64(4)]))),
                min_items: Some(1),
                max_items: Some(3),
            }),
            optional: false,
        },
    ]);
    let value = obj(vec![("status", s("active")), ("tags", JsonValue::Array(vec![JsonValue::Bool(true), whole(4)]))]);
    let result = validate(&value, &schema);
    assert!(result.ok);
    assert!(result.issues.is_empty());
}

#[test]
fn check_value_appends_to_shared_list() {
    let mut issues: Issues = Vec::new();
    add_issue(&mut issues, &vec!["a".to_string(), "b".to_string()], "x.y", "first");
    check_value(&JsonValue::Null, &root(), &mut issues, &Validator::Bool);
    assert_eq!(codes(&issues), vec!["x.y", "type.mismatch"]);
    assert_eq!(issues[0].path, "a.b");
}

#[test]
fn path_text_helpers() {
    assert_eq!(render(&["items".to_string(), "[2]".to_string(), "name".to_string()]), "items.[2].name");
    assert_eq!(render(&[]), "(root)");
    assert_eq!(decimal(0), "0");
    assert_eq!(decimal(40213), "40213");
    assert_eq!(index_segment(12), "[12]");
    assert_eq!(file_name_of("/tmp/bundles/foo.zip"), "foo.zip");
    assert_eq!(file_name_of("dir/sub/"), "sub");
    assert_eq!(file_name_of("a/.."), "");
    assert_eq!(file_name_of("bundles/pkg/."), "pkg");
    assert_eq!(file_name_of("bundles/pkg/./"), "pkg");
    assert_eq!(file_name_of("."), "");
    assert_eq!(file_name_of("/"), "");
    assert_eq!(stem("foo.tar.gz"), "foo.tar");
    assert_eq!(stem(".hidden"), ".hidden");
    assert_eq!(extension("data.json"), "json");
    assert_eq!(extension("README"), "");
}

#[test]
fn archive_synthetic_directory() {
    let ctx = archive(vec![("data/", true, b""), ("data/x.txt", false, b"hi")]);
    assert!(ctx.path_exists("data"));
    assert!(ctx.is_dir("data"));
    assert!(!ctx.is_file("data"));
    assert!(ctx.is_file("data/x.txt"));
    assert!(!ctx.path_exists("dat"));
    assert_eq!(ctx.zip_entries.len(), 1);
}

#[test]
fn archive_read_entry() {
    let ctx = archive(vec![("a.txt", false, b"one"), ("bad.txt", false, &[0xff, 0xfe]), ("a.txt", false, b"two")]);
    assert_eq!(ctx.read_entry("a.txt"), Ok("two".to_string()));
    assert!(ctx.read_entry("bad.txt").is_err());
    assert_eq!(ctx.read_entry("none.txt"), Err("File not found: none.txt".to_string()));
    assert_eq!(ctx.read_entry("bad.txt"), Err("Invalid UTF-8: bad.txt".to_string()));
    assert_eq!(ctx.basename(), "sample");
}

#[test]
fn unparsable_json_file_in_archive() {
    let ctx = archive(vec![("index.json", false, b"{not json")]);
    let text = ctx.read_entry("index.json").unwrap();
    let parsed = match serde_json::from_str::<serde_json::Value>(&text) {
        Ok(_) => Ok(JsonValue::Null),
        Err(e) => Err(LoadError::Syntax(e.to_string())),
    };
    let mut issues: Issues = Vec::new();
    let out = validate_json_file(&ctx, "index.json", &root(), &mut issues, parsed, None);
    assert!(out.is_none());
    assert_eq!(codes(&issues), vec!["json.parse_error"]);
    assert_eq!(issues[0].path, "index.json");
    assert!(issues[0].message.starts_with("Invalid JSON: "));
}

#[test]
fn json_file_probes() {
    let ctx = archive(vec![("conf/app.json", false, b"{}")]);
    let mut issues: Issues = Vec::new();
    assert!(validate_json_file(&ctx, "missing.json", &root(), &mut issues, Err(LoadError::Read("unread".to_string())), None).is_none());
    assert!(validate_json_file(&ctx, "conf", &root(), &mut issues, Err(LoadError::Read("unread".to_string())), None).is_none());
    assert_eq!(codes(&issues), vec!["file.not_found", "file.not_file"]);
    let mut issues: Issues = Vec::new();
    let out = validate_json_file(&ctx, "conf/app.json", &root(), &mut issues, Ok(obj(vec![])), Some(&Validator::Bool));
    assert!(out.is_some());
    assert_eq!(codes(&issues), vec!["type.mismatch"]);
    assert_eq!(issues[0].path, "conf/app.json");
}

#[test]
fn fs_file_and_directory_checks() {
    let ctx = archive(vec![("docs/readme.md", false, b"x"), ("data.json", false, b"{}")]);
    let mut issues: Issues = Vec::new();
    assert!(validate_fs_file(&ctx, "data.json", &root(), &mut issues, Some("json")));
    assert!(!validate_fs_file(&ctx, "docs/readme.md", &root(), &mut issues, Some("txt")));
    assert!(!validate_fs_file(&ctx, "docs", &root(), &mut issues, None));
    assert!(!validate_fs_file(&ctx, "nope", &root(), &mut issues, None));
    assert_eq!(codes(&issues), vec!["file.wrong_ext", "file.not_file", "file.not_found"]);
    assert_eq!(issues[0].message, "Expected .txt, got .md");
    let mut issues: Issues = Vec::new();
    assert!(validate_fs_directory(&ctx, "docs", &root(), &mut issues));
    assert!(!validate_fs_directory(&ctx, "data.json", &root(), &mut issues));
    assert!(!validate_fs_directory(&ctx, "gone", &root(), &mut issues));
    assert_eq!(codes(&issues), vec!["dir.not_dir", "dir.not_found"]);
    assert_eq!(issues[0].path, "data.json");
}

#[test]
fn bundle_kind_checks() {
    assert_eq!(bundle_kind("/no/such/bundle/anywhere.zip", None), BundleKind::Missing);
    assert_eq!(classify_bundle("b.zip", false, false, None), BundleKind::Missing);
    assert_eq!(classify_bundle("b.zip", true, true, None), BundleKind::Directory);
    assert_eq!(classify_bundle("b.pkg", true, false, Some("pkg")), BundleKind::Archive);
    assert_eq!(classify_bundle("b.pkg", true, false, None), BundleKind::Other);
    assert!(is_archive_name("pkg.zip", None));
    assert!(is_archive_name("pkg.asks", Some("asks")));
    assert!(!is_archive_name("pkg.tar", Some("asks")));
    let mut issues: Issues = Vec::new();
    assert!(!check_bundle_kind("x", &root(), &mut issues, BundleKind::Missing, true, true));
    assert!(!check_bundle_kind("x", &root(), &mut issues, BundleKind::Directory, false, true));
    assert!(!check_bundle_kind("x", &root(), &mut issues, BundleKind::Archive, true, false));
    assert!(!check_bundle_kind("x", &root(), &mut issues, BundleKind::Other, true, true));
    assert!(check_bundle_kind("x", &root(), &mut issues, BundleKind::Archive, false, true));
    assert_eq!(codes(&issues), vec!["bundle.not_found", "bundle.type_mismatch", "bundle.type_mismatch", "bundle.invalid"]);
}

#[test]
fn opened_bundle_name_and_errors() {
    let mut issues: Issues = Vec::new();
    assert!(check_opened_bundle(Err("Invalid zip".to_string()), &root(), &mut issues, None).is_none());
    let ctx = archive(vec![]);
    assert!(check_opened_bundle(Ok(ctx), &root(), &mut issues, Some("^[0-9]+$")).is_some());
    let ctx = archive(vec![]);
    assert!(check_opened_bundle(Ok(ctx), &root(), &mut issues, Some("^sam")).is_some());
    assert_eq!(codes(&issues), vec!["bundle.open_error", "bundle.name_mismatch"]);
    assert_eq!(issues[0].message, "Invalid zip");
    assert_eq!(issues[1].message, "Name 'sample' does not match pattern");
}

#[test]
fn validate_path_packages_issues() {
    let result = validate_path("anything", |p: &str, path: &[String], issues: &mut Issues| {
        add_issue(issues, path, "bundle.not_found", p);
        None
    });
    assert!(!result.ok);
    assert_eq!(result.issues[0].path, "(root)");
    let result = validate_path("anything", |_p: &str, _path: &[String], _issues: &mut Issues| None);
    assert!(result.ok);
    let result = validate_path("/no/such/bundle/here", |p: &str, path: &[String], issues: &mut Issues| {
        let kind = bundle_kind(p, None);
        check_bundle_kind(p, path, issues, kind, true, true);
        None
    });
    assert!(!result.ok);
    assert_eq!(codes(&result.issues), vec!["bundle.not_found"]);
    assert_eq!(result.issues[0].path, "(root)");
}
