use russenger::data::{Data, Page};
use russenger::generic::{
    GenericButton, GenericElement, GenericModel, NextStep, Recipient, MAX_BUTTONS, MAX_PAGE,
};
use russenger::payload::Payload;
use russenger::quick_replies::{QuickMessage, QuickReplie, QuickReplieModel};

fn cards(count: usize) -> Vec<GenericElement> {
    (0..count)
        .map(|i| GenericElement::new(&format!("card {i}"), "https://example.com/i.jpg", "", vec![]))
        .collect()
}

fn titles(model: &GenericModel) -> Vec<String> {
    model.elements().iter().map(|card| card.title().to_string()).collect()
}

fn expected(range: std::ops::Range<usize>) -> Vec<String> {
    range.map(|i| format!("card {i}")).collect()
}

#[test]
fn quick_reply_new_sends_the_placeholder() {
    let reply = QuickReplie::new("Option1", "https://example.com/1.png");
    assert_eq!(reply.content_type, "text");
    assert_eq!(reply.title, "Option1");
    assert_eq!(reply.payload, "<POSTBACK_PAYLOAD>");
    assert_eq!(reply.image_url, "https://example.com/1.png");
}

#[test]
fn quick_reply_with_payload_sends_the_token() {
    let token = Payload::new("Option1", None).to_string();
    let reply = QuickReplie::with_payload("Next", "", &token);
    assert_eq!(reply.content_type, "text");
    assert_eq!(reply.title, "Next");
    assert_eq!(reply.payload, token);
    assert_eq!(reply.image_url, "");
}

#[test]
fn quick_reply_model_is_a_response() {
    let replies = vec![QuickReplie::new("a", ""), QuickReplie::new("b", "")];
    let message = QuickMessage { text: "Choose an option:", quick_replies: &replies };
    let model = QuickReplieModel::new(Recipient { id: "alice" }, message);
    assert_eq!(model.recipient.id, "alice");
    assert_eq!(model.messaging_type, "RESPONSE");
    assert_eq!(model.message.text, "Choose an option:");
    assert_eq!(model.message.quick_replies.len(), 2);
    assert_eq!(model.message.quick_replies[1].title, "b");
}

#[test]
fn generic_element_keeps_its_parts() {
    let button = GenericButton::new("Choose Option 2", Payload::new("Main", None));
    let card = GenericElement::new("Option 2", "https://example.com/option2.jpg", "Option 2 description", vec![button]);
    assert_eq!(card.title(), "Option 2");
    assert_eq!(card.image_url(), "https://example.com/option2.jpg");
    assert_eq!(card.subtitle(), "Option 2 description");
    assert_eq!(card.buttons().len(), 1);
    assert_eq!(card.buttons()[0].title, "Choose Option 2");
    assert_eq!(card.buttons()[0].payload.get_path(), "Main");
}

#[test]
fn generic_element_takes_three_buttons() {
    let buttons: Vec<GenericButton> =
        (0..MAX_BUTTONS).map(|i| GenericButton::new(&format!("b{i}"), Payload::new("Main", None))).collect();
    assert_eq!(GenericElement::new("t", "", "", buttons).buttons().len(), 3);
}

#[test]
fn generic_model_without_window_shows_the_first_ten() {
    let model = GenericModel::new("alice", cards(12), None);
    assert_eq!(model.get_sender(), "alice");
    assert_eq!(model.messaging_type(), "RESPONSE");
    assert_eq!(titles(&model), expected(0..MAX_PAGE));
    assert_eq!(titles(&GenericModel::new("alice", cards(10), None)), expected(0..10));
    assert_eq!(titles(&GenericModel::new("alice", cards(4), None)), expected(0..4));
    assert!(GenericModel::new("alice", cards(0), None).is_element_empty());
}

#[test]
fn generic_model_shows_the_window() {
    assert_eq!(titles(&GenericModel::new("a", cards(25), Some(Page(0, 10)))), expected(0..10));
    assert_eq!(titles(&GenericModel::new("a", cards(25), Some(Page(10, 10)))), expected(10..20));
    assert_eq!(titles(&GenericModel::new("a", cards(25), Some(Page(5, 3)))), expected(5..8));
    assert_eq!(titles(&GenericModel::new("a", cards(25), Some(Page(0, 100)))), expected(0..25));
}

#[test]
fn generic_model_clamps_the_window_to_the_list() {
    assert_eq!(titles(&GenericModel::new("a", cards(25), Some(Page(20, 10)))), expected(20..25));
    assert!(GenericModel::new("a", cards(25), Some(Page(25, 10))).is_element_empty());
    assert!(GenericModel::new("a", cards(25), Some(Page(30, 10))).is_element_empty());
    assert!(GenericModel::new("a", cards(25), Some(Page(3, 0))).is_element_empty());
    assert_eq!(
        titles(&GenericModel::new("a", cards(25), Some(Page(24, usize::MAX)))),
        expected(24..25)
    );
    assert!(GenericModel::new("a", cards(3), Some(Page(usize::MAX, usize::MAX))).is_element_empty());
}

#[test]
fn send_next_offers_the_next_window() {
    let model = GenericModel::new("alice", cards(25), Some(Page(0, 10)));
    match model.send_next("List", Data::new("x", Some(Page(0, 10)))) {
        NextStep::Navigation(payload) => {
            assert_eq!(payload.get_path(), "List");
            assert_eq!(payload.get_data().value(), "\"x\"");
            assert_eq!(payload.get_data().get_page(), Some(Page(10, 10)));
        }
        NextStep::NoMoreElements => panic!("there are cards to go on from"),
    }
}

#[test]
fn send_next_says_when_the_list_has_ended() {
    let model = GenericModel::new("alice", cards(25), Some(Page(30, 10)));
    assert!(matches!(
        model.send_next("List", Data::new("x", Some(Page(30, 10)))),
        NextStep::NoMoreElements
    ));
    // Nothing is added up where there is nothing to go on from.
    let end = Page(usize::MAX, usize::MAX);
    let model = GenericModel::new("alice", cards(3), Some(end));
    assert!(matches!(
        model.send_next("List", Data::new("x", Some(end))),
        NextStep::NoMoreElements
    ));
}
