use json_exporter::prom_label::PromLabel;

#[test]
fn test_string_value() {
    let label = PromLabel::new("foo".to_string(), "Foo".to_string());
    assert_eq!(format!("{}=\"{}\"", "foo", "Foo"), label.to_string());
}

#[test]
fn test_int_number_value() {
    let label = PromLabel::new("foo".to_string(), "34".to_string());
    assert_eq!(format!("{}={}", "foo", "34"), label.to_string());
}

#[test]
fn test_float_number_value() {
    let label = PromLabel::new("foo".to_string(), "3.14".to_string());
    assert_eq!(format!("{}={}", "foo", "3.14"), label.to_string());
}

#[test]
fn test_bool_value() {
    let label = PromLabel::new("foo".to_string(), false.to_string());
    assert_eq!(format!("{}={}", "foo", "false"), label.to_string());
}

#[test]
fn test_exponent_and_word_literals_unquoted() {
    assert_eq!(PromLabel::new("x".into(), "1e5".into()).to_string(), "x=1e5");
    assert_eq!(PromLabel::new("x".into(), ".5".into()).to_string(), "x=.5");
    assert_eq!(PromLabel::new("x".into(), "3.".into()).to_string(), "x=3.");
    assert_eq!(PromLabel::new("x".into(), "-2".into()).to_string(), "x=-2");
    assert_eq!(PromLabel::new("x".into(), "inf".into()).to_string(), "x=inf");
    assert_eq!(PromLabel::new("x".into(), "NaN".into()).to_string(), "x=NaN");
    assert_eq!(PromLabel::new("x".into(), "true".into()).to_string(), "x=true");
}

#[test]
fn test_non_literals_quoted() {
    assert_eq!(PromLabel::new("x".into(), "".into()).to_string(), "x=\"\"");
    assert_eq!(PromLabel::new("x".into(), "1e".into()).to_string(), "x=\"1e\"");
    assert_eq!(PromLabel::new("x".into(), "-".into()).to_string(), "x=\"-\"");
    assert_eq!(PromLabel::new("x".into(), "1.2.3".into()).to_string(), "x=\"1.2.3\"");
    assert_eq!(PromLabel::new("x".into(), "True".into()).to_string(), "x=\"True\"");
}
