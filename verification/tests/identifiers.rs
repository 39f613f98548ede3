use secretfop::config::{IdOrder, Snowflake, SnowflakeRef};

#[test]
fn string_number_coercion_equality() {
    assert!(Snowflake::String("123".to_string()) == Snowflake::Number(123));
    assert!(Snowflake::Number(123) == Snowflake::String("123".to_string()));
    assert!(Snowflake::String("abc".to_string()) != Snowflake::Number(1));
    assert!(Snowflake::Number(1) != Snowflake::String("abc".to_string()));
}

#[test]
fn noncoercible_comparison_is_unknown() {
    let a = Snowflake::String("abc".to_string());
    let b = Snowflake::Number(1);
    assert_eq!(a.compare(&b), IdOrder::Unknown);
    assert_eq!(b.compare(&a), IdOrder::Unknown);
    assert_eq!(a.cmp_u64(1), IdOrder::Unknown);
}

#[test]
fn numeric_comparison_orders_by_value() {
    assert_eq!(Snowflake::Number(1).compare(&Snowflake::Number(2)), IdOrder::Less);
    assert_eq!(Snowflake::Number(2).compare(&Snowflake::Number(2)), IdOrder::Equal);
    assert_eq!(Snowflake::Number(3).compare(&Snowflake::Number(2)), IdOrder::Greater);
    assert_eq!(
        Snowflake::String("10".to_string()).compare(&Snowflake::Number(2)),
        IdOrder::Greater
    );
    assert_eq!(Snowflake::Number(7).cmp_u64(7), IdOrder::Equal);
}

#[test]
fn coercion_grammar_matches_u64_parsing() {
    assert_eq!(Snowflake::String("123".to_string()).coerce_value(), Some(123));
    assert_eq!(Snowflake::String("+5".to_string()).coerce_value(), Some(5));
    assert_eq!(Snowflake::String("0012".to_string()).coerce_value(), Some(12));
    assert_eq!(
        Snowflake::String("18446744073709551615".to_string()).coerce_value(),
        Some(u64::MAX)
    );
    assert_eq!(Snowflake::String("18446744073709551616".to_string()).coerce_value(), None);
    assert_eq!(Snowflake::String(String::new()).coerce_value(), None);
    assert_eq!(Snowflake::String("+".to_string()).coerce_value(), None);
    assert_eq!(Snowflake::String("12a".to_string()).coerce_value(), None);
    assert_eq!(Snowflake::String("-3".to_string()).coerce_value(), None);
    assert_eq!(Snowflake::Number(9).coerce_value(), Some(9));
}

#[test]
fn text_form_of_identifiers() {
    assert_eq!(Snowflake::Number(42).to_text(), "42".to_string());
    assert_eq!(Snowflake::Number(0).to_text(), "0".to_string());
    assert_eq!(Snowflake::String("some.domain".to_string()).to_text(), "some.domain".to_string());
    assert_eq!(SnowflakeRef::Number(18446744073709551615).to_text(), "18446744073709551615".to_string());
    assert_eq!(SnowflakeRef::String("grp").to_text(), "grp".to_string());
}

#[test]
fn flatten_coerces_strings() {
    assert!(matches!(SnowflakeRef::String("77").flatten(), SnowflakeRef::Number(77)));
    assert!(matches!(SnowflakeRef::String("abc").flatten(), SnowflakeRef::String("abc")));
    assert!(matches!(SnowflakeRef::Number(5).flatten(), SnowflakeRef::Number(5)));
}

#[test]
fn unwrap_number_and_as_ref() {
    let id = Snowflake::Number(5);
    assert_eq!(id.as_ref().unwrap_number(), 5);
    let s = Snowflake::String("xyz".to_string());
    assert!(matches!(s.as_ref(), SnowflakeRef::String("xyz")));
}
