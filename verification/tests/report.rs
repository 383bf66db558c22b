use fixtojson::report::{line_output, open_failure, parse_failure, push_decimal};

#[test]
fn decimal_of_small_and_large_numbers() {
    for (n, expected) in [
        (0usize, "0"),
        (7, "7"),
        (9, "9"),
        (10, "10"),
        (11, "11"),
        (99, "99"),
        (100, "100"),
        (1905, "1905"),
        (1234567890, "1234567890"),
    ] {
        let mut text = String::new();
        push_decimal(&mut text, n);
        assert_eq!(text, expected);
    }
    let mut text = String::from("n=");
    push_decimal(&mut text, usize::MAX);
    assert_eq!(text, format!("n={}", usize::MAX));
}

#[test]
fn notice_names_line_number_and_text() {
    assert_eq!(
        parse_failure(0, "8=FIX"),
        "Could not parse FIX message from at line 0: 8=FIX"
    );
    assert_eq!(
        parse_failure(41, ""),
        "Could not parse FIX message from at line 41: "
    );
    assert_eq!(
        parse_failure(120, "a: b"),
        "Could not parse FIX message from at line 120: a: b"
    );
}

#[test]
fn warning_names_source_and_cause() {
    assert_eq!(
        open_failure("logs/a.txt", "Permission denied (os error 13)"),
        "Failed to open logs/a.txt: Permission denied (os error 13)"
    );
    assert_eq!(open_failure("", ""), "Failed to open : ");
}

#[test]
fn line_output_is_json_or_notice() {
    assert_eq!(line_output(3, "raw", Some("{\"8\":\"x\"}".to_string())), "{\"8\":\"x\"}");
    assert_eq!(line_output(3, "raw", Some(String::new())), "");
    assert_eq!(
        line_output(3, "raw", None),
        "Could not parse FIX message from at line 3: raw"
    );
}
