use russenger::data::{Data, Page, MAX_VALUE_AUTORIZED};
use russenger::payload::Payload;

fn round_trip(path: &str, data: Option<Data>) {
    let payload = Payload::new(path, data);
    let token = payload.to_string();
    let back = Payload::from_str(&token).expect("a token that was just written");
    assert_eq!(back.get_path(), payload.get_path());
    assert_eq!(back.get_data().value(), payload.get_data().value());
    assert_eq!(back.get_data().get_page(), payload.get_data().get_page());
    assert_eq!(back.to_string(), token);
    let decoded = Payload::decode(&token);
    assert_eq!(decoded.to_string(), token);
}

#[test]
fn token_of_an_instruction_with_data() {
    let payload = Payload::new("Option1", Some(Data::new("payload_for_option_1", None)));
    assert_eq!(
        payload.to_string(),
        "{\"path\":\"Option1\",\"data\":{\"value\":\"\\\"payload_for_option_1\\\"\",\"page\":null}}"
    );
}

#[test]
fn token_of_an_instruction_with_a_window() {
    let payload = Payload::new("List", Some(Data::with_value("7", Some(Page(20, 10)))));
    assert_eq!(
        payload.to_string(),
        "{\"path\":\"List\",\"data\":{\"value\":\"7\",\"page\":[20,10]}}"
    );
}

#[test]
fn token_of_an_instruction_without_data() {
    let payload = Payload::new("Main", None);
    assert_eq!(payload.to_string(), "{\"path\":\"Main\",\"data\":null}");
}

#[test]
fn tokens_are_read_back_as_they_were_written() {
    round_trip("Main", None);
    round_trip("", None);
    round_trip("Option1", Some(Data::new("payload_for_option_1", None)));
    round_trip("List", Some(Data::new("x", Some(Page(0, 10)))));
    round_trip("List", Some(Data::with_value("", Some(Page(0, 0)))));
    round_trip("Big", Some(Data::with_value("1", Some(Page(usize::MAX, usize::MAX)))));
    round_trip("quo\"te", Some(Data::with_value("back\\slash \"and\" quote", None)));
    round_trip("line\nbreak\ttab", Some(Data::with_value("\u{0}\u{1}\u{8}\u{c}\r\u{1f}\u{7f}", None)));
    round_trip("unicode é € 😀", Some(Data::new("é € 😀", Some(Page(1, 2)))));
    round_trip("{\"path\":\"Main\",\"data\":null}", None);
    round_trip("null", Some(Data::with_value("null", None)));
}

#[test]
fn strings_in_a_token_are_written_as_json_writes_them() {
    for text in ["plain", "quo\"te", "back\\slash", "\u{0}\u{1}\u{7}\u{8}\t\n\u{b}\u{c}\r\u{e}\u{1f} \u{7f}", "é € 😀", ""] {
        let token = Payload::new(text, None).to_string();
        let expected = format!("{{\"path\":{},\"data\":null}}", serde_json::to_string(text).unwrap());
        assert_eq!(token, expected);
    }
}

#[test]
fn a_token_is_a_json_document() {
    let payload = Payload::new("a\"b", Some(Data::new("c\\d\ne", Some(Page(3, 4)))));
    let value: serde_json::Value = serde_json::from_str(&payload.to_string()).unwrap();
    assert_eq!(value["path"].as_str(), Some("a\"b"));
    assert_eq!(value["data"]["value"].as_str(), Some("\"c\\\\d\\ne\""));
    assert_eq!(value["data"]["page"][0].as_u64(), Some(3));
    assert_eq!(value["data"]["page"][1].as_u64(), Some(4));
}

#[test]
fn from_str_reads_the_parts_of_a_token() {
    let payload =
        Payload::from_str("{\"path\":\"Option1\",\"data\":{\"value\":\"\\\"v\\\"\",\"page\":[5,3]}}")
            .unwrap();
    assert_eq!(payload.get_path(), "Option1");
    assert_eq!(payload.get_data().value(), "\"v\"");
    assert_eq!(payload.get_data().get_value(), "v");
    assert_eq!(payload.get_data().get_page(), Some(Page(5, 3)));
}

#[test]
fn from_str_reads_escapes() {
    let payload = Payload::from_str("{\"path\":\"a\\\"b\\\\c\\n\\u0001\\t\",\"data\":null}").unwrap();
    assert_eq!(payload.get_path(), "a\"b\\c\n\u{1}\t");
    assert_eq!(payload.get_data().value(), "");
    assert_eq!(payload.get_data().get_page(), None);
}

#[test]
fn from_str_refuses_what_is_no_token() {
    for token in [
        "",
        "Main",
        "null",
        "{}",
        "{\"path\":\"Main\"}",
        "{\"path\":\"Main\",\"data\":null",
        "{\"path\":\"Main\",\"data\":null}}",
        "{\"path\":\"Main\",\"data\":null} ",
        " {\"path\":\"Main\",\"data\":null}",
        "{\"path\": \"Main\",\"data\":null}",
        "{\"data\":null,\"path\":\"Main\"}",
        "{\"path\":Main,\"data\":null}",
        "{\"path\":\"Main,\"data\":null}",
        "{\"path\":\"Ma\\in\",\"data\":null}",
        "{\"path\":\"Ma\\u0041in\",\"data\":null}",
        "{\"path\":\"Ma\\u000Ain\",\"data\":null}",
        "{\"path\":\"Ma\\u000ain\",\"data\":null}",
        "{\"path\":\"Ma\\u00\",\"data\":null}",
        "{\"path\":\"Ma\nin\",\"data\":null}",
        "{\"path\":\"Main\\\",\"data\":null}",
        "{\"path\":\"Main\",\"data\":{}}",
        "{\"path\":\"Main\",\"data\":{\"value\":\"x\"}}",
        "{\"path\":\"Main\",\"data\":{\"value\":\"x\",\"page\":null}",
        "{\"path\":\"Main\",\"data\":{\"value\":\"x\",\"page\":[]}}",
        "{\"path\":\"Main\",\"data\":{\"value\":\"x\",\"page\":[1]}}",
        "{\"path\":\"Main\",\"data\":{\"value\":\"x\",\"page\":[1,]}}",
        "{\"path\":\"Main\",\"data\":{\"value\":\"x\",\"page\":[1,2,3]}}",
        "{\"path\":\"Main\",\"data\":{\"value\":\"x\",\"page\":[01,2]}}",
        "{\"path\":\"Main\",\"data\":{\"value\":\"x\",\"page\":[1,00]}}",
        "{\"path\":\"Main\",\"data\":{\"value\":\"x\",\"page\":[-1,2]}}",
        "{\"path\":\"Main\",\"data\":{\"value\":\"x\",\"page\":[1.5,2]}}",
        "{\"path\":\"Main\",\"data\":{\"value\":\"x\",\"page\":[1,2}}",
        "{\"path\":\"Main\",\"data\":{\"value\":\"x\",\"page\":[a,2]}}",
        "{\"path\":\"Main\",\"data\":{\"value\":\"x\",\"page\":[99999999999999999999999999,2]}}",
        "{\"path\":\"Main\",\"data\":{\"value\":\"x\",\"page\":[1,340282366920938463463374607431768211456]}}",
        "{\"path\":\"Main\",\"data\":{\"value\":12,\"page\":null}}",
        "{\"path\":\"Main\",\"data\":nul}",
    ] {
        assert!(Payload::from_str(token).is_err(), "{token}");
    }
}

#[test]
fn from_str_takes_the_largest_number_and_refuses_the_next() {
    let largest = format!(
        "{{\"path\":\"P\",\"data\":{{\"value\":\"\",\"page\":[{},0]}}}}",
        usize::MAX
    );
    let payload = Payload::from_str(&largest).unwrap();
    assert_eq!(payload.get_data().get_page(), Some(Page(usize::MAX, 0)));
    let next = format!(
        "{{\"path\":\"P\",\"data\":{{\"value\":\"\",\"page\":[{},0]}}}}",
        usize::MAX as u128 + 1
    );
    assert!(Payload::from_str(&next).is_err());
}

#[test]
fn decode_of_what_is_no_token_is_the_default_instruction() {
    for token in ["", "garbage", "{\"path\":\"Option1\"", "<POSTBACK_PAYLOAD>"] {
        let payload = Payload::decode(token);
        assert_eq!(payload.get_path(), "Main");
        assert_eq!(payload.get_data().value(), "");
        assert_eq!(payload.get_data().get_page(), None);
        assert_eq!(payload.to_string(), "{\"path\":\"Main\",\"data\":null}");
    }
}

#[test]
fn default_payload_is_the_root_action_without_data() {
    let payload = Payload::default();
    assert_eq!(payload.get_path(), "Main");
    assert_eq!(payload.to_string(), "{\"path\":\"Main\",\"data\":null}");
}

#[test]
fn a_value_over_the_cap_travels_cut_to_the_cap() {
    let long = "z".repeat(2000);
    let payload = Payload::new("Option1", Some(Data::new(&long, Some(Page(0, 10)))));
    let back = Payload::decode(&payload.to_string());
    assert_eq!(back.get_path(), "Option1");
    assert_eq!(back.get_data().value().len(), MAX_VALUE_AUTORIZED);
    assert_eq!(back.get_data().value(), format!("\"{}", "z".repeat(499)));
    assert_eq!(back.get_data().get_page(), Some(Page(0, 10)));
}

#[test]
fn a_value_at_the_cap_travels_whole() {
    let exact = "y".repeat(500);
    let payload = Payload::new("Option1", Some(Data::with_value(&exact, None)));
    let back = Payload::decode(&payload.to_string());
    assert_eq!(back.get_data().value(), exact);
}

#[test]
fn payload_clone_is_equal() {
    let payload = Payload::new("A", Some(Data::new("b", Some(Page(1, 2)))));
    assert_eq!(payload.clone().to_string(), payload.to_string());
}

#[test]
fn get_data_of_an_instruction_without_data_is_the_default() {
    let data = Payload::new("A", None).get_data();
    assert_eq!(data.value(), "");
    assert_eq!(data.get_page(), None);
}
