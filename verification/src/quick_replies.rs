//! Quick replies: a text with a row of choices under it.

use crate::generic::Recipient;
use vstd::prelude::*;
use vstd::string::*;

verus! {

/// One choice under a message.
pub struct QuickReplie<'c> {
    pub content_type: &'c str,
    pub title: &'c str,
    pub payload: &'c str,
    pub image_url: &'c str,
}

impl<'c> QuickReplie<'c> {
    /// A choice shown as `title`, which sends back the placeholder token.
    pub fn new(title: &'c str, image_url: &'c str) -> (reply: QuickReplie<'c>)
        ensures
            reply.content_type@ == "text"@,
            reply.title@ == title@,
            reply.payload@ == "<POSTBACK_PAYLOAD>"@,
            reply.image_url@ == image_url@,
    {
        QuickReplie { content_type: "text", title, payload: "<POSTBACK_PAYLOAD>", image_url }
    }

    /// A choice shown as `title`, which sends back `payload` when chosen.
    pub fn with_payload(title: &'c str, image_url: &'c str, payload: &'c str) -> (reply:
        QuickReplie<'c>)
        ensures
            reply.content_type@ == "text"@,
            reply.title@ == title@,
            reply.payload@ == payload@,
            reply.image_url@ == image_url@,
    {
        QuickReplie { content_type: "text", title, payload, image_url }
    }
}

/// A text and the choices under it.
pub struct QuickMessage<'m> {
    pub text: &'m str,
    pub quick_replies: &'m Vec<QuickReplie<'m>>,
}

/// A message with quick replies, addressed to a user.
pub struct QuickReplieModel<'q> {
    pub recipient: Recipient<'q>,
    pub messaging_type: &'q str,
    pub message: QuickMessage<'q>,
}

impl<'q> QuickReplieModel<'q> {
    /// The answer that shows `message` to `recipient`.
    pub fn new(recipient: Recipient<'q>, message: QuickMessage<'q>) -> (model: QuickReplieModel<
        'q,
    >)
        ensures
            model.recipient == recipient,
            model.messaging_type@ == "RESPONSE"@,
            model.message == message,
    {
        QuickReplieModel { recipient, messaging_type: "RESPONSE", message }
    }
}

} // verus!
