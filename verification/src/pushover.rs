//! The notification dispatcher: what is sent to whom, and how a provider's
//! answer is to be read. Sending itself is left to the caller, so that no
//! network traffic happens while the registry is held.

use crate::json::{encode_string, json_string, JsonPost};
use vstd::prelude::*;
use vstd::string::*;

verus! {

/// Where notices are posted, as JSON.
pub const PUSHOVER_URL: &'static str = "https://api.pushover.net/1/messages.json";

/// One notice as mathematical values.
pub struct Notice {
    pub message: Seq<char>,
    pub token: Seq<char>,
    pub user: Seq<char>,
}

/// The body of one notice: the text, the application's credential and the
/// recipient.
#[derive(Debug, PartialEq, Eq)]
pub struct PushOverMsg {
    pub message: String,
    pub token: String,
    pub user: String,
}

impl View for PushOverMsg {
    type V = Notice;

    open spec fn view(&self) -> Notice {
        Notice { message: self.message@, token: self.token@, user: self.user@ }
    }
}

/// `batch` holds one notice per recipient, in the recipients' order, each
/// with the same text and credential.
pub open spec fn is_batch(
    batch: Seq<PushOverMsg>,
    message: Seq<char>,
    token: Seq<char>,
    recipients: Seq<String>,
) -> bool {
    &&& batch.len() == recipients.len()
    &&& forall|i: int|
        0 <= i < batch.len() ==> (#[trigger] batch[i])@ == (Notice {
            message,
            token,
            user: recipients[i]@,
        })
}

/// The body of a notice on the wire: a JSON object of the three fields,
/// each of them given as a JSON string literal.
pub open spec fn notice_json(message: Seq<char>, token: Seq<char>, user: Seq<char>) -> Seq<char> {
    "{\"message\":"@ + message + ",\"token\":"@ + token + ",\"user\":"@ + user + "}"@
}

/// How one attempt to deliver a notice ended. None of these is retried, and
/// none stops the other attempts.
#[derive(Debug, Clone, Copy, PartialEq, Eq, Structural)]
pub enum Delivery {
    /// The provider answered with a success status.
    Sent,
    /// The provider answered with the given status, which is no success.
    Rejected(u16),
    /// No answer came: the transport failed.
    Failed,
}

/// Prepares one notice about `msg` for each recipient.
pub fn dispatch(msg: &str, app_token: &str, recipients: &Vec<String>) -> (batch: Vec<PushOverMsg>)
    ensures
        is_batch(batch@, msg@, app_token@, recipients@),
{
    let mut batch: Vec<PushOverMsg> = Vec::new();
    let mut i: usize = 0;
    while i < recipients.len()
        invariant
            i <= recipients.len(),
            is_batch(batch@, msg@, app_token@, recipients@.take(i as int)),
        decreases recipients.len() - i,
    {
        batch.push(
            PushOverMsg {
                message: msg.to_owned(),
                token: app_token.to_owned(),
                user: recipients[i].clone(),
            },
        );
        i += 1;
    }
    assert(recipients@.take(i as int) =~= recipients@);
    batch
}

/// Frames the request for a notice from its three fields, each already
/// written as a JSON string literal: a post to the provider's endpoint.
pub fn frame_notice(message: &str, token: &str, user: &str) -> (request: JsonPost)
    ensures
        request.uri@ == PUSHOVER_URL@,
        request.body@ == notice_json(message@, token@, user@),
{
    let mut body = "{\"message\":".to_owned();
    body.append(message);
    body.append(",\"token\":");
    body.append(token);
    body.append(",\"user\":");
    body.append(user);
    body.append("}");
    JsonPost { uri: PUSHOVER_URL.to_owned(), body }
}

/// Prepares the request that tells `user_token` about `msg`: a post to the
/// provider's endpoint with the notice as its body.
pub fn send_notice(msg: &str, app_token: &str, user_token: &str) -> (request: JsonPost)
    ensures
        request.uri@ == PUSHOVER_URL@,
        request.body@ == notice_json(
            json_string(msg@),
            json_string(app_token@),
            json_string(user_token@),
        ),
{
    let message = encode_string(msg).unwrap();
    let token = encode_string(app_token).unwrap();
    let user = encode_string(user_token).unwrap();
    frame_notice(message.as_str(), token.as_str(), user.as_str())
}

/// Reads the outcome of one attempt: `response` is the status the provider
/// answered with, or `None` where the request itself failed.
pub fn delivery(response: Option<u16>) -> (outcome: Delivery)
    ensures
        outcome == match response {
            Some(status) => if 200 <= status < 300 {
                Delivery::Sent
            } else {
                Delivery::Rejected(status)
            },
            None => Delivery::Failed,
        },
{
    match response {
        Some(status) => {
            if 200 <= status && status < 300 {
                Delivery::Sent
            } else {
                Delivery::Rejected(status)
            }
        },
        None => Delivery::Failed,
    }
}

} // verus!
