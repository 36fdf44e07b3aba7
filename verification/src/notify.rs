//! The notifier's computational half: building the push payload for a newly
//! stored comment and rendering it as the JSON object that goes on the wire.
//! Sending is the caller's business; its outcome never alters an insert's
//! reported result.

use vstd::prelude::*;
use crate::comment::Comment;
use crate::json::json_string;

verus! {

/// The transient payload of one push notification.
#[derive(Debug)]
pub struct PushData {
    pub title: String,
    pub body: String,
    pub device_key: String,
}

/// The mathematical value of a push payload.
pub ghost struct PushDataV {
    pub title: Seq<char>,
    pub body: Seq<char>,
    pub device_key: Seq<char>,
}

impl View for PushData {
    type V = PushDataV;

    open spec fn view(&self) -> PushDataV {
        PushDataV { title: self.title@, body: self.body@, device_key: self.device_key@ }
    }
}

/// The notification title for a comment: `{user} on {page}`.
pub open spec fn push_title(user: Seq<char>, page: Seq<char>) -> Seq<char> {
    user + " on "@ + page
}

/// The JSON object a payload is sent as, with `title`, `body` and
/// `device_key` members in that order.
pub open spec fn push_json(p: PushDataV) -> Seq<char> {
    seq!['{'] + json_string("title"@) + seq![':'] + json_string(p.title) + seq![','] + json_string(
        "body"@,
    ) + seq![':'] + json_string(p.body) + seq![','] + json_string("device_key"@) + seq![':']
        + json_string(p.device_key) + seq!['}']
}

/// The outcome of one best-effort notification attempt: delivered, or failed
/// for any reason (transport, serialization, a non-success status).
#[derive(Debug, Clone, Copy, PartialEq, Eq, Structural)]
pub enum NotifyOutcome {
    Delivered,
    Failed,
}

/// Builds the payload for `comment`: title `{user} on {page}`, body the
/// comment text, and the configured device key.
pub fn build_push_data(comment: &Comment, device_key: &String) -> (p: PushData)
    ensures
        p@.title == push_title(comment@.user, comment@.page),
        p@.body == comment@.text,
        p@.device_key == device_key@,
{
    let mut title = comment.user.clone();
    title.append(" on ");
    title.append(comment.page.as_str());
    PushData { title, body: comment.text.clone(), device_key: device_key.clone() }
}

impl PushData {
    /// Renders the payload as the JSON object that is posted.
    pub fn to_json(&self) -> (r: String)
        ensures
            r@ == push_json(self@),
    {
        let mut out = String::new();
        out.append("{");
        crate::json::append_json_string(&mut out, "title");
        out.append(":");
        crate::json::append_json_string(&mut out, self.title.as_str());
        out.append(",");
        crate::json::append_json_string(&mut out, "body");
        out.append(":");
        crate::json::append_json_string(&mut out, self.body.as_str());
        out.append(",");
        crate::json::append_json_string(&mut out, "device_key");
        out.append(":");
        crate::json::append_json_string(&mut out, self.device_key.as_str());
        out.append("}");
        proof {
            reveal_strlit("{");
            reveal_strlit(":");
            reveal_strlit(",");
            reveal_strlit("}");
            assert(out@ =~= push_json(self@));
        }
        out
    }
}

/// The insert's reported outcome once the notification attempt has finished:
/// exactly the response already computed from the insert, whatever the
/// attempt's outcome was.
pub fn response_after_notify(created: Comment, outcome: NotifyOutcome) -> (r: Comment)
    ensures
        r == created,
{
    created
}

} // verus!
