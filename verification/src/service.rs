//! The assembled application core: the store behind the two request
//! handlers, and the write flow whose reported outcome is independent of the
//! notification attempt.

use vstd::prelude::*;
use crate::comment::{Comment, CommentInput, CommentInputV, CommentV};
use crate::store::{CommentStore, StoreV, insert_model, listing, stored_comment, views_of};
use crate::notify::NotifyOutcome;
use crate::timestamp::{
    clamp_local, format_timestamp, is_timestamp, lemma_timestamp_injective, local_secs_of,
    now_unix_seconds, timestamp_seq, valid_local_secs,
};

verus! {

/// The date stamped on a comment inserted at clock reading `t`.
pub open spec fn stamp_of(t: int) -> Seq<char> {
    timestamp_seq(local_secs_of(t))
}

/// The application core: the comment store, schema ready.
pub struct Service {
    pub store: CommentStore,
}

impl Service {
    pub open spec fn wf(&self) -> bool {
        self.store.wf()
    }

    /// Handles a write at clock reading `now_unix`: stamps the comment,
    /// stores it under a fresh id, and echoes it back, `email` included.
    pub fn handle_post_at(&mut self, input: &CommentInput, now_unix: i64) -> (c: Comment)
        requires
            old(self).wf(),
            old(self).store@.next_id < i64::MAX,
        ensures
            final(self).wf(),
            final(self).store@ == insert_model(
                old(self).store@,
                input@,
                stamp_of(now_unix as int),
            ),
            c@ == stored_comment(old(self).store@.next_id, stamp_of(now_unix as int), input@),
    {
        let local = clamp_local(now_unix);
        let date = format_timestamp(local);
        self.store.insert(input, &date)
    }

    /// Handles a write at the current clock. The store gains exactly one row
    /// for the input, under the next id, stamped with a well-formed
    /// `YYYY-MM-DD HH:MM:SS` date; the created comment is echoed back.
    pub fn handle_post(&mut self, input: &CommentInput) -> (c: Comment)
        requires
            old(self).wf(),
            old(self).store@.next_id < i64::MAX,
        ensures
            final(self).wf(),
            exists|d: Seq<char>|
                {
                    &&& #[trigger] is_timestamp(d)
                    &&& final(self).store@ == insert_model(old(self).store@, input@, d)
                    &&& c@ == stored_comment(old(self).store@.next_id, d, input@)
                },
    {
        let t = now_unix_seconds();
        let c = self.handle_post_at(input, t);
        proof {
            let d = stamp_of(t as int);
            assert(valid_local_secs(local_secs_of(t as int)));
            assert(is_timestamp(d));
        }
        c
    }

    /// Handles a read: every comment of `page`, in insertion order, emails
    /// withheld; an unknown page gives an empty list, not an error.
    pub fn handle_list(&self, page: &String) -> (r: Vec<Comment>)
        ensures
            views_of(r@) == listing(self.store@.rows, page@),
    {
        self.store.list_by_page(page)
    }
}

/// Assembles the application core: an empty, well-formed store whose first
/// comment will get id 1. Safe to call afresh on every process start.
pub fn rocket() -> (s: Service)
    ensures
        s.wf(),
        s.store@.rows == Seq::<CommentV>::empty(),
        s.store@.next_id == 1,
{
    Service { store: CommentStore::new() }
}

/// What one write request does to the store and what it reports back, at
/// clock reading `t`. The notification outcome `o` belongs to the flow but,
/// deliberately, not to the result.
pub open spec fn post_flow(s: StoreV, input: CommentInputV, t: int, o: NotifyOutcome) -> (
    StoreV,
    CommentV,
) {
    (insert_model(s, input, stamp_of(t)), stored_comment(s.next_id, stamp_of(t), input))
}

/// Law: two sequential inserts of identical content at clock readings that
/// land on distinct local seconds produce two distinct rows: distinct ids,
/// and distinct date strings too.
pub proof fn lemma_same_content_distinct_rows(s: StoreV, input: CommentInputV, t1: int, t2: int)
    requires
        local_secs_of(t1) != local_secs_of(t2),
    ensures
        ({
            let first = stored_comment(s.next_id, stamp_of(t1), input);
            let second = stored_comment(
                insert_model(s, input, stamp_of(t1)).next_id,
                stamp_of(t2),
                input,
            );
            first.id != second.id && first.date != second.date
        }),
{
    if stamp_of(t1) == stamp_of(t2) {
        lemma_timestamp_injective(local_secs_of(t1), local_secs_of(t2));
    }
}

/// Law: a notification failure does not change the write's reported outcome,
/// nor the stored rows: the flow ends in the same store and the same
/// response whatever the notify outcome was.
pub proof fn lemma_notify_isolated(
    s: StoreV,
    input: CommentInputV,
    t: int,
    o1: NotifyOutcome,
    o2: NotifyOutcome,
)
    ensures
        post_flow(s, input, t, o1) == post_flow(s, input, t, o2),
{
}

} // verus!
