use excel_img::{parse_kv_pair, KvPair, RunError};

#[test]
fn parses_simple_pair() {
    let kv = parse_kv_pair("0,1").unwrap();
    assert_eq!(kv, KvPair { sort_id: 0, url: 1 });
}

#[test]
fn parses_multi_digit_pair() {
    let kv = parse_kv_pair("12,34").unwrap();
    assert_eq!(kv, KvPair { sort_id: 12, url: 34 });
}

#[test]
fn ignores_fields_beyond_the_second() {
    let kv = parse_kv_pair("1,2,3").unwrap();
    assert_eq!(kv, KvPair { sort_id: 1, url: 2 });
}

#[test]
fn parses_usize_max() {
    let s = format!("{},0", usize::MAX);
    let kv = parse_kv_pair(&s).unwrap();
    assert_eq!(kv, KvPair { sort_id: usize::MAX, url: 0 });
}

#[test]
fn rejects_single_field() {
    let e = parse_kv_pair("12").unwrap_err();
    assert_eq!(e, RunError::ArgumentParse { input: "12".to_string() });
    assert_eq!(e.message(), "Failed to parse 12");
}

#[test]
fn rejects_empty_string() {
    assert!(parse_kv_pair("").is_err());
}

#[test]
fn rejects_non_numeric_fields() {
    assert!(parse_kv_pair("a,b").is_err());
    assert!(parse_kv_pair("1,x").is_err());
    assert!(parse_kv_pair("x,1").is_err());
    assert!(parse_kv_pair("1.5,2").is_err());
}

#[test]
fn rejects_empty_fields() {
    assert!(parse_kv_pair(",1").is_err());
    assert!(parse_kv_pair("1,").is_err());
    assert!(parse_kv_pair(",").is_err());
}

#[test]
fn rejects_overflowing_index() {
    assert!(parse_kv_pair("99999999999999999999999999,1").is_err());
    assert!(parse_kv_pair("1,99999999999999999999999999").is_err());
}

#[test]
fn from_str_agrees_with_parse_kv_pair() {
    let kv = KvPair::from_str("3,7").unwrap();
    assert_eq!(kv, KvPair { sort_id: 3, url: 7 });
    assert!(KvPair::from_str("3;7").is_err());
}
