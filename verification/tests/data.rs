use russenger::data::{truncate_value, Data, Page, MAX_VALUE_AUTORIZED};

#[test]
fn page_default_is_the_first_ten() {
    assert_eq!(Page::default(), Page(0, 10));
}

#[test]
fn page_next_slides_by_its_own_width() {
    let mut page = Page(0, 10);
    page.next();
    assert_eq!(page, Page(10, 10));
}

#[test]
fn page_next_applied_n_times_moves_by_n_widths() {
    let mut page = Page(0, 10);
    for _ in 0..7 {
        page.next();
    }
    assert_eq!(page, Page(70, 10));
    let mut other = Page(3, 4);
    for _ in 0..5 {
        other.next();
    }
    assert_eq!(other, Page(23, 4));
}

#[test]
fn page_next_reaches_the_end_of_the_range() {
    let mut page = Page(usize::MAX - 10, 10);
    page.next();
    assert_eq!(page, Page(usize::MAX, 10));
}

#[test]
fn data_new_keeps_the_value_as_json_text() {
    let data = Data::new("payload_for_option_1", None);
    assert_eq!(data.value(), "\"payload_for_option_1\"");
    assert_eq!(data.get_value(), "payload_for_option_1");
    assert_eq!(data.get_page(), None);
}

#[test]
fn data_new_escapes_what_json_escapes() {
    let data = Data::new("say \"hi\"\n", Some(Page(2, 3)));
    assert_eq!(data.value(), "\"say \\\"hi\\\"\\n\"");
    assert_eq!(data.get_value(), "say \"hi\"\n");
    assert_eq!(data.get_page(), Some(Page(2, 3)));
}

#[test]
fn data_new_cuts_a_long_value_to_the_cap() {
    let long = "a".repeat(600);
    let data = Data::new(&long, None);
    assert_eq!(data.value().len(), MAX_VALUE_AUTORIZED);
    assert_eq!(data.value(), format!("\"{}", "a".repeat(499)));
    // What is left is no JSON text any more: the value is lost, silently.
    assert_eq!(data.get_value(), "");
}

#[test]
fn with_value_keeps_a_value_that_fits() {
    let exact = "b".repeat(500);
    let data = Data::with_value(&exact, None);
    assert_eq!(data.value(), exact);
    let short = Data::with_value("42", Some(Page(0, 10)));
    assert_eq!(short.value(), "42");
    assert_eq!(short.get_page(), Some(Page(0, 10)));
}

#[test]
fn with_value_cuts_at_the_cap_exactly() {
    let long = "c".repeat(501);
    let data = Data::with_value(&long, None);
    assert_eq!(data.value(), "c".repeat(500));
}

#[test]
fn truncate_value_never_splits_a_character() {
    // One byte, then characters of two bytes: byte 500 falls inside one.
    let text = format!("x{}", "é".repeat(300));
    let kept = truncate_value(&text);
    assert_eq!(kept.len(), 499);
    assert_eq!(kept, format!("x{}", "é".repeat(249)));
    // Characters of four bytes: 125 of them fill the cap.
    let wide = "😀".repeat(130);
    assert_eq!(truncate_value(&wide), "😀".repeat(125));
    // Characters of three bytes: 166 of them take 498 bytes.
    let three = "€".repeat(200);
    assert_eq!(truncate_value(&three), "€".repeat(166));
}

#[test]
fn truncate_value_keeps_short_and_empty_values() {
    assert_eq!(truncate_value(""), "");
    assert_eq!(truncate_value("hello"), "hello");
    let edge = "d".repeat(499);
    assert_eq!(truncate_value(&edge), edge);
}

#[test]
fn get_value_of_what_is_no_json_string_is_empty() {
    assert_eq!(Data::with_value("not json", None).get_value(), "");
    assert_eq!(Data::with_value("42", None).get_value(), "");
    assert_eq!(Data::with_value("\"ok\"", None).get_value(), "ok");
    assert_eq!(Data::with_value("\"a\\u0041\"", None).get_value(), "aA");
}

#[test]
fn get_value_gives_back_what_new_was_given() {
    for text in [
        "",
        "x",
        "payload_for_option_1",
        "quo\"te and back\\slash",
        "\u{0}\u{1}\u{7}\u{8}\t\n\u{b}\u{c}\r\u{e}\u{1f} \u{7f}",
        "é € 😀",
        "{\"value\":\"x\",\"page\":null}",
    ] {
        for page in [None, Some(Page(0, 10)), Some(Page(7, 3))] {
            let data = Data::new(text, page);
            assert_eq!(data.get_value(), text);
            assert_eq!(data.get_page(), page);
        }
    }
    // The longest string that is kept whole: with its quotes it fills the cap.
    let fits = "a".repeat(498);
    assert_eq!(Data::new(&fits, None).get_value(), fits);
    assert_eq!(Data::new(&fits, None).value().len(), 500);
}

#[test]
fn data_default_is_empty() {
    let data = Data::default();
    assert_eq!(data.value(), "");
    assert_eq!(data.get_page(), None);
}

#[test]
fn data_clone_is_equal() {
    let data = Data::new("x", Some(Page(1, 2)));
    let copy = data.clone();
    assert_eq!(copy.value(), data.value());
    assert_eq!(copy.get_page(), data.get_page());
}

#[test]
fn next_page_starts_from_the_default_window() {
    let mut data = Data::new("x", None);
    data.next_page();
    assert_eq!(data.get_page(), Some(Page(10, 10)));
    assert_eq!(data.value(), "\"x\"");
    data.next_page();
    assert_eq!(data.get_page(), Some(Page(20, 10)));
}

#[test]
fn next_page_moves_a_given_window() {
    let mut data = Data::new("x", Some(Page(5, 3)));
    data.next_page();
    assert_eq!(data.get_page(), Some(Page(8, 3)));
}

#[test]
fn from_string_reads_a_written_data() {
    let data = Data::from_string("{\"value\":\"\\\"x\\\"\",\"page\":[0,10]}");
    assert_eq!(data.value(), "\"x\"");
    assert_eq!(data.get_value(), "x");
    assert_eq!(data.get_page(), Some(Page(0, 10)));
    let bare = Data::from_string("{\"value\":\"\",\"page\":null}");
    assert_eq!(bare.value(), "");
    assert_eq!(bare.get_page(), None);
}

#[test]
fn from_string_of_anything_else_is_the_default() {
    for text in [
        "",
        "null",
        "{}",
        "{\"value\":\"x\"}",
        "{\"value\":\"x\",\"page\":null} ",
        "{\"value\":\"x\",\"page\":[1]}",
        "{\"value\":\"x\",\"page\":[1,2,3]}",
        "{\"page\":null,\"value\":\"x\"}",
        "{\"value\":x,\"page\":null}",
    ] {
        let data = Data::from_string(text);
        assert_eq!(data.value(), "", "{text}");
        assert_eq!(data.get_page(), None, "{text}");
    }
}
