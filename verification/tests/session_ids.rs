use session_registry::session_id::{format_session_id, parse_session_id};

#[test]
fn ids_are_the_letter_s_and_the_number() {
    assert_eq!(format_session_id(1), "S1");
    assert_eq!(format_session_id(2), "S2");
    assert_eq!(format_session_id(9), "S9");
    assert_eq!(format_session_id(10), "S10");
    assert_eq!(format_session_id(42), "S42");
    assert_eq!(format_session_id(100), "S100");
    assert_eq!(format_session_id(1_234_567_890), "S1234567890");
}

#[test]
fn zero_has_the_id_s0() {
    assert_eq!(format_session_id(0), "S0");
    assert_eq!(parse_session_id("S0"), Some(0));
}

#[test]
fn the_largest_number_has_an_id() {
    let id = format_session_id(usize::MAX);
    assert_eq!(id, format!("S{}", usize::MAX));
    assert_eq!(parse_session_id(&id), Some(usize::MAX));
}

#[test]
fn ids_are_read_back() {
    assert_eq!(parse_session_id("S1"), Some(1));
    assert_eq!(parse_session_id("S7"), Some(7));
    assert_eq!(parse_session_id("S10"), Some(10));
    assert_eq!(parse_session_id("S109"), Some(109));
    assert_eq!(parse_session_id("S1234567890"), Some(1_234_567_890));
}

#[test]
fn reading_undoes_writing() {
    let mut serial: usize = 0;
    while serial < 2500 {
        assert_eq!(parse_session_id(&format_session_id(serial)), Some(serial));
        serial += 1;
    }
    for serial in [usize::MAX, usize::MAX - 1, usize::MAX / 10, usize::MAX / 10 + 1, 99_999, 100_000] {
        assert_eq!(parse_session_id(&format_session_id(serial)), Some(serial));
    }
}

#[test]
fn different_numbers_have_different_ids() {
    let mut seen: Vec<String> = Vec::new();
    let mut serial: usize = 0;
    while serial < 300 {
        let id = format_session_id(serial);
        assert!(!seen.contains(&id));
        seen.push(id);
        serial += 1;
    }
}

#[test]
fn leading_zeros_name_no_session() {
    assert_eq!(parse_session_id("S01"), None);
    assert_eq!(parse_session_id("S00"), None);
    assert_eq!(parse_session_id("S007"), None);
    assert_eq!(parse_session_id("S0000000001"), None);
}

#[test]
fn text_without_the_letter_or_the_number_names_no_session() {
    assert_eq!(parse_session_id(""), None);
    assert_eq!(parse_session_id("S"), None);
    assert_eq!(parse_session_id("1"), None);
    assert_eq!(parse_session_id("12"), None);
    assert_eq!(parse_session_id("s1"), None);
    assert_eq!(parse_session_id("T1"), None);
    assert_eq!(parse_session_id("SS1"), None);
}

#[test]
fn text_with_other_characters_names_no_session() {
    assert_eq!(parse_session_id("S1a"), None);
    assert_eq!(parse_session_id("Sa1"), None);
    assert_eq!(parse_session_id("S-1"), None);
    assert_eq!(parse_session_id("S+1"), None);
    assert_eq!(parse_session_id("S 1"), None);
    assert_eq!(parse_session_id(" S1"), None);
    assert_eq!(parse_session_id("S1 "), None);
    assert_eq!(parse_session_id("S1\n"), None);
    assert_eq!(parse_session_id("S1.0"), None);
    assert_eq!(parse_session_id("S/"), None);
    assert_eq!(parse_session_id("S:"), None);
    assert_eq!(parse_session_id("S1/"), None);
    assert_eq!(parse_session_id("S1:"), None);
}

#[test]
fn digits_outside_ascii_name_no_session() {
    assert_eq!(parse_session_id("S\u{661}"), None);
    assert_eq!(parse_session_id("S\u{ff11}"), None);
    assert_eq!(parse_session_id("\u{405}1"), None);
    assert_eq!(parse_session_id("S1\u{e9}"), None);
}

#[test]
fn numbers_beyond_the_machine_name_no_session() {
    let largest = format!("S{}", usize::MAX);
    assert_eq!(parse_session_id(&largest), Some(usize::MAX));
    let one_more = format!("S{}", usize::MAX as u128 + 1);
    assert_eq!(parse_session_id(&one_more), None);
    let ten_times = format!("S{}0", usize::MAX);
    assert_eq!(parse_session_id(&ten_times), None);
    assert_eq!(parse_session_id("S99999999999999999999999999999999999999999"), None);
}
