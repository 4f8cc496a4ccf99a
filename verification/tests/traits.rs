use unzip_open::traits::KotlinAny;

#[test]
fn also_hands_the_value_back() {
    assert_eq!(5u32.also(|value| value + 1), 5);
    assert_eq!("abc".to_string().also(|text| text.len()), "abc".to_string());
}

#[test]
fn also_calls_the_function_once_on_the_value() {
    let mut seen = Vec::new();
    let kept = 7u8.also(|value| seen.push(*value));
    assert_eq!(kept, 7);
    assert_eq!(seen, vec![7]);
}

#[test]
fn take_if_keeps_what_the_predicate_accepts() {
    assert_eq!(5u32.take_if(|value| *value > 3), Some(5));
    assert_eq!("note".to_string().take_if(|text| !text.is_empty()), Some("note".to_string()));
}

#[test]
fn take_if_drops_what_the_predicate_refuses() {
    assert_eq!(2u32.take_if(|value| *value > 3), None);
    assert_eq!(String::new().take_if(|text| !text.is_empty()), None);
}
