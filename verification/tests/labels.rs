use lading::labels::render;
use lading::labels::CliKeyValues;

#[test]
fn cli_key_values_deserializes_empty_string_to_empty_set() {
    let val = "";
    let deser = CliKeyValues::from_str(val);
    let deser = deser.unwrap().to_string();
    assert_eq!(deser, "");
}

#[test]
fn cli_key_values_deserializes_kv_list() {
    let val = "first=one,second=two";
    let deser = CliKeyValues::from_str(val);
    let deser = deser.unwrap().to_string();
    // The list keeps no order, so either order of the two pairs will do.
    assert!(deser == "first=one,second=two," || deser == "second=two,first=one,");
}

#[test]
fn cli_key_values_deserializes_kv_list_trailing_comma() {
    let val = "first=one,";
    let deser = CliKeyValues::from_str(val);
    let deser = deser.unwrap().to_string();
    assert_eq!(deser, "first=one,");
}

#[test]
fn cli_key_values_rejects_pair_without_separator() {
    let deser = CliKeyValues::from_str("first");
    assert_eq!(deser.err().unwrap(), "pairs must be separated by '='");
    let deser = CliKeyValues::from_str("first=one,second");
    assert_eq!(deser.err().unwrap(), "pairs must be separated by '='");
}

#[test]
fn cli_key_values_skips_empty_pairs() {
    let deser = CliKeyValues::from_str(",,first=one,,").unwrap();
    assert_eq!(deser.to_string(), "first=one,");
}

#[test]
fn cli_key_values_later_pair_wins() {
    let deser = CliKeyValues::from_str("key=old,key=new").unwrap();
    assert_eq!(deser.to_string(), "key=new,");
}

#[test]
fn cli_key_values_value_ends_at_second_separator() {
    let deser = CliKeyValues::from_str("key=value=more").unwrap();
    assert_eq!(deser.to_string(), "key=value,");
}

#[test]
fn cli_key_values_empty_key_and_value() {
    let deser = CliKeyValues::from_str("=").unwrap();
    assert_eq!(deser.to_string(), "=,");
    let deser = CliKeyValues::from_str("=value").unwrap();
    assert_eq!(deser.to_string(), "=value,");
    let deser = CliKeyValues::from_str("key=").unwrap();
    assert_eq!(deser.to_string(), "key=,");
}

#[test]
fn cli_key_values_round_trip() {
    let first = CliKeyValues::from_str("a=1,b=2,c=3").unwrap();
    let written = first.to_string();
    let second = CliKeyValues::from_str(&written).unwrap();
    let mut one = first.pairs();
    let mut two = second.pairs();
    one.sort();
    two.sort();
    assert_eq!(one, two);
    assert_eq!(
        one,
        vec![
            ("a".to_string(), "1".to_string()),
            ("b".to_string(), "2".to_string()),
            ("c".to_string(), "3".to_string()),
        ]
    );
}

#[test]
fn cli_key_values_insert_and_extend() {
    let mut base = CliKeyValues::from_str("a=1,b=2").unwrap();
    base.insert("c".to_string(), "3".to_string());
    let more = CliKeyValues::from_str("b=20,d=4").unwrap();
    base.extend(more);
    let mut pairs = base.pairs();
    pairs.sort();
    assert_eq!(
        pairs,
        vec![
            ("a".to_string(), "1".to_string()),
            ("b".to_string(), "20".to_string()),
            ("c".to_string(), "3".to_string()),
            ("d".to_string(), "4".to_string()),
        ]
    );
}

#[test]
fn cli_key_values_default_is_empty() {
    let empty = CliKeyValues::default();
    assert!(empty.pairs().is_empty());
    assert_eq!(empty.to_string(), "");
}

#[test]
fn render_writes_pairs_in_order() {
    let pairs = vec![
        ("first".to_string(), "one".to_string()),
        ("second".to_string(), "two".to_string()),
    ];
    assert_eq!(render(&pairs), "first=one,second=two,");
    assert_eq!(render(&Vec::new()), "");
}
