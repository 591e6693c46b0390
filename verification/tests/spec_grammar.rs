use tackt::Descriptor;
use tackt::Segment;

#[test]
fn segment() {
    let segment = Segment::parse("\"path\"").unwrap();
    assert!(matches!(segment, Segment::Lit(..)));

    let segment = Segment::parse("param").unwrap();
    assert!(matches!(segment, Segment::Param(..)));

    let segment = Segment::parse("wild*").unwrap();
    assert!(matches!(segment, Segment::Wild(..)));
}

#[test]
fn only_method() {
    let spec = Descriptor::parse("GET");
    assert!(spec.is_ok());

    let spec = Descriptor::parse("GET,");
    assert!(spec.is_err());

    let spec = Descriptor::parse("GET, POST");
    assert!(spec.is_ok());

    let spec = Descriptor::parse("GET, POST:");
    assert!(spec.is_err());
}

#[test]
fn only_path() {
    let spec = Descriptor::parse("\"entity\"");
    assert!(spec.is_ok());

    let spec = Descriptor::parse("\"entity\" /");
    assert!(spec.is_err());

    let spec = Descriptor::parse("\"entity\" / param");
    assert!(spec.is_ok());

    let spec = Descriptor::parse("\"entity\" / param /");
    assert!(spec.is_err());

    let spec = Descriptor::parse("\"entity\" / param / *");
    assert!(spec.is_err());

    let spec = Descriptor::parse("\"entity\" / param / wild*");
    assert!(spec.is_ok());

    let spec = Descriptor::parse("\"entity\" / param / wild* /");
    assert!(spec.is_err());

    let spec = Descriptor::parse("\"entity\" / param / wild* / err");
    assert!(spec.is_err());
}

#[test]
fn method_and_path() {
    let spec = Descriptor::parse("GET: \"path\"");
    assert!(spec.is_ok());
}

#[test]
fn parsed_shape() {
    let spec = Descriptor::parse("GET, PUT: \"entity\" / id / \"resource\" / path*").unwrap();
    assert_eq!(spec.methods, vec![tackt::Method::Get, tackt::Method::Put]);
    assert_eq!(spec.segments.len(), 4);
    assert!(matches!(&spec.segments[0], Segment::Lit(s) if s == "entity"));
    assert!(matches!(&spec.segments[1], Segment::Param(s) if s == "id"));
    assert!(matches!(&spec.segments[2], Segment::Lit(s) if s == "resource"));
    assert!(matches!(&spec.segments[3], Segment::Wild(s) if s == "path"));
    assert_eq!(spec.param_names(), vec!["id".to_string(), "path".to_string()]);
    assert_eq!(spec.num_params(), 2);
}

#[test]
fn empty_spec_and_unterminated_literal() {
    let spec = Descriptor::parse("").unwrap();
    assert!(spec.methods.is_empty());
    assert!(spec.segments.is_empty());

    let spec = Descriptor::parse("\"open");
    assert_eq!(spec.unwrap_err(), tackt::DescriptorError::Syntax);

    let spec = Descriptor::parse("FETCH");
    assert_eq!(spec.unwrap_err(), tackt::DescriptorError::Syntax);
}
