//! The comment data model: what a client supplies on a write, and what the
//! store holds and returns on a read.

use vstd::prelude::*;

verus! {

/// A new comment as a client supplies it: no `id`, no `date`; those are
/// assigned by the store. `email` is optional and never shown in listings.
#[derive(Debug)]
pub struct CommentInput {
    pub page: String,
    pub user: String,
    pub text: String,
    pub email: Option<String>,
}

/// A stored comment, or one echoed back to the client after an insert:
/// the client fields plus the server-assigned `id` and `date`.
#[derive(Debug, PartialEq)]
pub struct Comment {
    pub id: i64,
    pub date: String,
    pub page: String,
    pub user: String,
    pub text: String,
    pub email: Option<String>,
}

/// The mathematical value of an optional string.
pub open spec fn opt_str_view(e: Option<String>) -> Option<Seq<char>> {
    match e {
        Some(s) => Some(s@),
        None => None,
    }
}

/// The mathematical value of a client-supplied comment.
pub ghost struct CommentInputV {
    pub page: Seq<char>,
    pub user: Seq<char>,
    pub text: Seq<char>,
    pub email: Option<Seq<char>>,
}

/// The mathematical value of a stored or returned comment.
pub ghost struct CommentV {
    pub id: int,
    pub date: Seq<char>,
    pub page: Seq<char>,
    pub user: Seq<char>,
    pub text: Seq<char>,
    pub email: Option<Seq<char>>,
}

impl View for CommentInput {
    type V = CommentInputV;

    open spec fn view(&self) -> CommentInputV {
        CommentInputV {
            page: self.page@,
            user: self.user@,
            text: self.text@,
            email: opt_str_view(self.email),
        }
    }
}

impl View for Comment {
    type V = CommentV;

    open spec fn view(&self) -> CommentV {
        CommentV {
            id: self.id as int,
            date: self.date@,
            page: self.page@,
            user: self.user@,
            text: self.text@,
            email: opt_str_view(self.email),
        }
    }
}

/// Clones an optional string, keeping its value.
pub fn clone_opt_string(e: &Option<String>) -> (r: Option<String>)
    ensures
        opt_str_view(r) == opt_str_view(*e),
{
    match e {
        Some(s) => Some(s.clone()),
        None => None,
    }
}

} // verus!
