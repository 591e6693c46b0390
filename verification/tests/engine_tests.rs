use tackt::parse_int;
use tackt::Descriptor;
use tackt::DescriptorError;
use tackt::Error;
use tackt::Extractor;
use tackt::Kind;
use tackt::Method;
use tackt::ParamSpec;
use tackt::Value;

fn compile(spec: &str, params: &[(&str, Kind)]) -> Result<Extractor, DescriptorError> {
    let desc = Descriptor::parse(spec).unwrap();
    let mut ps: Vec<ParamSpec> = Vec::new();
    for (name, kind) in params {
        ps.push(ParamSpec { name: (*name).to_string(), kind: *kind });
    }
    Extractor::compile(&desc, &ps)
}

fn route(spec: &str, params: &[(&str, Kind)]) -> Extractor {
    compile(spec, params).unwrap()
}

#[test]
fn extract_is_pure() {
    let x = route("GET: \"user\" / id", &[("id", Kind::Int)]);
    let before = x.clone();
    let first = x.extract("/user/7", Method::Get);
    let second = x.extract("/user/7", Method::Get);
    assert_eq!(first, second);
    assert_eq!(x, before);
}

#[test]
fn segment_exactness() {
    let x = route("\"a\" / x", &[("x", Kind::Str)]);
    assert_eq!(x.extract("/a/b/c", Method::Get).unwrap_err(), Error::Path);
    assert_eq!(x.extract("/a/b/c", Method::Delete).unwrap_err(), Error::Path);
    assert_eq!(x.extract("/a/b/c", Method::Post).unwrap_err(), Error::Path);
    assert!(x.extract("/a/b", Method::Get).is_ok());
}

#[test]
fn wildcard_greediness() {
    let x = route(
        "\"entity\" / id / \"resource\" / path*",
        &[("id", Kind::Int), ("path", Kind::Str)],
    );
    let got = x.extract("/entity/7/resource/a/b/c", Method::Get).unwrap();
    assert_eq!(got.get("id"), Some(&Value::Int(7)));
    assert_eq!(got.get("path"), Some(&Value::Str("a/b/c".to_string())));
    let empty_tail = x.extract("/entity/7/resource/", Method::Get).unwrap();
    assert_eq!(empty_tail.get("path"), Some(&Value::Str("".to_string())));
}

#[test]
fn method_independence() {
    let x = route("GET, PUT: \"thing\"", &[]);
    assert!(x.extract("/thing", Method::Get).is_ok());
    assert!(x.extract("/thing", Method::Put).is_ok());
    assert_eq!(x.extract("/thing", Method::Delete).unwrap_err(), Error::Method);
    assert_eq!(x.extract("/thing", Method::Post).unwrap_err(), Error::Method);
    assert_eq!(x.extract("/things", Method::Delete).unwrap_err(), Error::Path);
}

#[test]
fn path_must_open_with_slash_and_end_exactly() {
    let x = route("\"about\"", &[]);
    assert!(x.extract("/about", Method::Get).is_ok());
    assert_eq!(x.extract("about", Method::Get).unwrap_err(), Error::Path);
    assert_eq!(x.extract("", Method::Get).unwrap_err(), Error::Path);
    // one trailing separator leaves an empty remainder, so it still matches
    assert!(x.extract("/about/", Method::Get).is_ok());
    assert_eq!(x.extract("/about//", Method::Get).unwrap_err(), Error::Path);
    let root = route("", &[]);
    assert!(root.extract("/", Method::Get).is_ok());
    assert_eq!(root.extract("", Method::Get).unwrap_err(), Error::Path);
    assert_eq!(root.extract("/x", Method::Get).unwrap_err(), Error::Path);
}

#[test]
fn type_parse_failure_is_path_mismatch() {
    let x = route("\"user\" / id", &[("id", Kind::Int)]);
    assert_eq!(x.extract("/user/abc", Method::Get).unwrap_err(), Error::Path);
    assert_eq!(x.extract("/user/-12", Method::Get).unwrap().get("id"), Some(&Value::Int(-12)));
}

#[test]
fn compile_arity_mismatch() {
    assert_eq!(compile("\"user\" / id", &[]).unwrap_err(), DescriptorError::ArityMismatch);
}

#[test]
fn compile_missing_parameter() {
    assert_eq!(
        compile("\"user\" / id", &[("uid", Kind::Int)]).unwrap_err(),
        DescriptorError::MissingParameter,
    );
}

#[test]
fn compile_unknown_parameter() {
    assert_eq!(
        compile("\"user\" / id", &[("id", Kind::Int), ("extra", Kind::Str)]).unwrap_err(),
        DescriptorError::UnknownParameter,
    );
    assert_eq!(
        compile("\"user\" / id", &[("id", Kind::Int), ("id", Kind::Int)]).unwrap_err(),
        DescriptorError::UnknownParameter,
    );
    assert_eq!(
        compile("\"f\" / rest*", &[("rest", Kind::Int)]).unwrap_err(),
        DescriptorError::UnknownParameter,
    );
}

#[test]
fn compile_order_independent() {
    let x = route(
        "\"content\" / id / name / path*",
        &[("path", Kind::Str), ("id", Kind::Int), ("name", Kind::Str)],
    );
    let got = x.extract("/content/1/n/p", Method::Get).unwrap();
    assert_eq!(got.get("id"), Some(&Value::Int(1)));
    assert_eq!(got.get("name"), Some(&Value::Str("n".to_string())));
    assert_eq!(got.get("path"), Some(&Value::Str("p".to_string())));
    assert_eq!(got.get("nope"), None);
}

#[test]
fn parse_int_bounds() {
    assert_eq!(parse_int("0"), Some(0));
    assert_eq!(parse_int("007"), Some(7));
    assert_eq!(parse_int("+5"), Some(5));
    assert_eq!(parse_int("-0"), Some(0));
    assert_eq!(parse_int("9223372036854775807"), Some(i64::MAX));
    assert_eq!(parse_int("9223372036854775808"), None);
    assert_eq!(parse_int("-9223372036854775808"), Some(i64::MIN));
    assert_eq!(parse_int("-9223372036854775809"), None);
    assert_eq!(parse_int("00000000000000000000042"), Some(42));
    assert_eq!(parse_int(""), None);
    assert_eq!(parse_int("-"), None);
    assert_eq!(parse_int("+"), None);
    assert_eq!(parse_int("12a"), None);
    assert_eq!(parse_int("1 2"), None);
}
