//! The generic template: a row of cards, shown one window at a time.

use crate::data::{following, Data, DataView, Page};
use crate::payload::{Payload, PayloadView};
use vstd::prelude::*;
use vstd::string::*;

verus! {

/// The greatest number of cards that one message shows.
pub const MAX_PAGE: usize = 10;

/// The greatest number of buttons on one card.
pub const MAX_BUTTONS: usize = 3;

/// The user a message is addressed to.
pub struct Recipient<'r> {
    pub id: &'r str,
}

/// A button on a card: pressing it sends back an instruction.
pub struct GenericButton {
    pub title: String,
    pub payload: Payload,
}

impl GenericButton {
    /// A button shown as `title` that sends back `payload`.
    pub fn new(title: &str, payload: Payload) -> (button: GenericButton)
        ensures
            button.title@ == title@,
            button.payload == payload,
    {
        GenericButton { title: title.to_owned(), payload }
    }
}

/// A card: a title, a picture, a line under the title, and up to three
/// buttons.
pub struct GenericElement {
    title: String,
    image_url: String,
    subtitle: String,
    buttons: Vec<GenericButton>,
}

impl GenericElement {
    /// The title of the card.
    pub closed spec fn title_view(&self) -> Seq<char> {
        self.title@
    }

    /// The address of the picture of the card.
    pub closed spec fn image_url_view(&self) -> Seq<char> {
        self.image_url@
    }

    /// The line under the title of the card.
    pub closed spec fn subtitle_view(&self) -> Seq<char> {
        self.subtitle@
    }

    /// The buttons of the card.
    pub closed spec fn buttons_view(&self) -> Seq<GenericButton> {
        self.buttons@
    }

    /// A card with the given texts and buttons.
    pub fn new(title: &str, image_url: &str, subtitle: &str, buttons: Vec<GenericButton>) -> (element:
        GenericElement)
        requires
            buttons@.len() <= MAX_BUTTONS,
        ensures
            element.title_view() == title@,
            element.image_url_view() == image_url@,
            element.subtitle_view() == subtitle@,
            element.buttons_view() == buttons@,
    {
        GenericElement {
            title: title.to_owned(),
            image_url: image_url.to_owned(),
            subtitle: subtitle.to_owned(),
            buttons,
        }
    }

    /// The buttons of the card.
    pub fn buttons(&self) -> (buttons: &Vec<GenericButton>)
        ensures
            buttons@ == self.buttons_view(),
    {
        &self.buttons
    }

    /// The title of the card.
    pub fn title(&self) -> (title: &str)
        ensures
            title@ == self.title_view(),
    {
        self.title.as_str()
    }

    /// The address of the picture of the card.
    pub fn image_url(&self) -> (image_url: &str)
        ensures
            image_url@ == self.image_url_view(),
    {
        self.image_url.as_str()
    }

    /// The line under the title of the card.
    pub fn subtitle(&self) -> (subtitle: &str)
        ensures
            subtitle@ == self.subtitle_view(),
    {
        self.subtitle.as_str()
    }
}

/// The part of `elements` that one message shows. With a window, its limit
/// counts from its offset, and both stop at the end of the list; without
/// one, the first [`MAX_PAGE`] elements.
pub open spec fn window<T>(elements: Seq<T>, page: Option<Page>) -> Seq<T> {
    match page {
        Some(page) => {
            let start = if page.0 <= elements.len() {
                page.0 as int
            } else {
                elements.len() as int
            };
            let end = if page.0 + page.1 <= elements.len() {
                page.0 + page.1
            } else {
                elements.len() as int
            };
            elements.subrange(start, end)
        },
        None => if elements.len() >= MAX_PAGE {
            elements.take(MAX_PAGE as int)
        } else {
            elements
        },
    }
}

/// A message that shows a row of cards to a user.
pub struct GenericModel<'g> {
    recipient: Recipient<'g>,
    messaging_type: &'g str,
    elements: Vec<GenericElement>,
}

/// What follows a message of cards.
pub enum NextStep {
    /// A button that asks for the next window, with the instruction it
    /// sends back.
    Navigation(Payload),
    /// Word that the list has ended.
    NoMoreElements,
}

impl<'g> GenericModel<'g> {
    /// The user the message is addressed to.
    pub closed spec fn sender_view(&self) -> Seq<char> {
        self.recipient.id@
    }

    /// The cards that the message shows.
    pub closed spec fn elements_view(&self) -> Seq<GenericElement> {
        self.elements@
    }

    /// The kind of message, as the platform wants it named.
    pub closed spec fn messaging_type_view(&self) -> Seq<char> {
        self.messaging_type@
    }

    /// The message that shows to `sender` the window `page` of `elements`.
    pub fn new(sender: &'g str, elements: Vec<GenericElement>, page: Option<Page>) -> (model:
        GenericModel<'g>)
        ensures
            model.sender_view() == sender@,
            model.messaging_type_view() == "RESPONSE"@,
            model.elements_view() == window(elements@, page),
    {
        let mut elements = elements;
        let shown = match page {
            Some(page) => {
                let len = elements.len();
                let start = if page.0 <= len {
                    page.0
                } else {
                    len
                };
                let end = if page.1 <= len - start {
                    start + page.1
                } else {
                    len
                };
                elements.truncate(end);
                elements.split_off(start)
            },
            None => {
                if elements.len() >= MAX_PAGE {
                    elements.truncate(MAX_PAGE);
                }
                elements
            },
        };
        GenericModel { recipient: Recipient { id: sender }, messaging_type: "RESPONSE", elements: shown }
    }

    /// The user the message is addressed to.
    pub fn get_sender(&self) -> (sender: &'g str)
        ensures
            sender@ == self.sender_view(),
    {
        self.recipient.id
    }

    /// The kind of message, as the platform wants it named.
    pub fn messaging_type(&self) -> (messaging_type: &'g str)
        ensures
            messaging_type@ == self.messaging_type_view(),
    {
        self.messaging_type
    }

    /// Whether the message shows no card.
    pub fn is_element_empty(&self) -> (empty: bool)
        ensures
            empty == (self.elements_view().len() == 0),
    {
        self.elements.len() == 0
    }

    /// The cards that the message shows.
    pub fn elements(&self) -> (elements: &Vec<GenericElement>)
        ensures
            elements@ == self.elements_view(),
    {
        &self.elements
    }

    /// What to send after this message: where it shows cards, a button that
    /// runs the action at `path` on the window after the one in `data`;
    /// where it shows none, word that the list has ended.
    pub fn send_next(&self, path: &str, data: Data) -> (step: NextStep)
        requires
            self.elements_view().len() > 0 ==> (data@.page matches Some(page) ==> page.0 + page.1
                <= usize::MAX),
        ensures
            match step {
                NextStep::Navigation(payload) => self.elements_view().len() > 0 && payload@ == (
                PayloadView {
                    path: path@,
                    data: Some(
                        DataView { value: data@.value, page: Some(following(data@.page)) },
                    ),
                }),
                NextStep::NoMoreElements => self.elements_view().len() == 0,
            },
    {
        if !self.is_element_empty() {
            let mut data = data;
            data.next_page();
            NextStep::Navigation(Payload::new(path, Some(data)))
        } else {
            NextStep::NoMoreElements
        }
    }
}

} // verus!
