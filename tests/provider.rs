use vaksms::provider::{
    availability_from, check_balance_error, find_entry, message_texts, normalize_phone,
    rented_from, GetNumberResponse, Message, RunError,
};

fn entries(pairs: &[(&str, i32)]) -> Vec<(String, i32)> {
    pairs.iter().map(|(k, v)| (k.to_string(), *v)).collect()
}

fn message(text: &str) -> Message {
    Message { tzid: "abc123".to_string(), tel: "380991234567".to_string(), text: text.to_string() }
}

#[test]
fn phone_gets_plus_prefix() {
    assert_eq!(normalize_phone(&"380991234567".to_string()), "+380991234567");
}

#[test]
fn empty_phone_is_just_plus() {
    assert_eq!(normalize_phone(&String::new()), "+");
}

#[test]
fn invalid_key_marker_is_an_error() {
    assert_eq!(check_balance_error(&Some("apiKeyNotFound".to_string())), Err(RunError::InvalidKey));
}

#[test]
fn other_balance_errors_are_ignored() {
    assert_eq!(check_balance_error(&Some("noBalance".to_string())), Ok(()));
    assert_eq!(check_balance_error(&Some("apikeynotfound".to_string())), Ok(()));
    assert_eq!(check_balance_error(&None), Ok(()));
}

#[test]
fn availability_reads_stock_and_price() {
    assert_eq!(availability_from(&entries(&[("dc", 7), ("price", 15)])), Ok((7, 15)));
}

#[test]
fn availability_ignores_other_services() {
    let e = entries(&[("tg", 100), ("price", 15), ("wa", 3), ("dc", 0)]);
    assert_eq!(availability_from(&e), Ok((0, 15)));
}

#[test]
fn availability_without_price_is_transport_error() {
    assert_eq!(availability_from(&entries(&[("dc", 7)])), Err(RunError::Transport));
}

#[test]
fn availability_without_stock_is_transport_error() {
    assert_eq!(availability_from(&entries(&[("price", 15)])), Err(RunError::Transport));
    assert_eq!(availability_from(&Vec::new()), Err(RunError::Transport));
}

#[test]
fn availability_does_not_depend_on_entry_order() {
    let a = entries(&[("dc", 7), ("tg", 1), ("price", 15)]);
    let b = entries(&[("price", 15), ("dc", 7), ("tg", 1)]);
    assert_eq!(availability_from(&a), availability_from(&b));
    assert_eq!(availability_from(&a), availability_from(&a));
}

#[test]
fn find_entry_takes_first_match() {
    let e = entries(&[("a", 1), ("b", 2), ("b", 3)]);
    assert_eq!(find_entry(&e, &"b".to_string()), Some(2));
    assert_eq!(find_entry(&e, &"c".to_string()), None);
}

#[test]
fn order_response_becomes_rented_number() {
    let r = rented_from(&GetNumberResponse {
        tel: "380991234567".to_string(),
        id_num: "abc123".to_string(),
    });
    assert_eq!(r.phone, "+380991234567");
    assert_eq!(r.handle, "abc123");
}

#[test]
fn message_texts_keep_order() {
    let ms = vec![message("first"), message("second"), message("third")];
    assert_eq!(message_texts(&ms), vec!["first", "second", "third"]);
    assert_eq!(message_texts(&Vec::new()), Vec::<String>::new());
}
