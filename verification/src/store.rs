//! The comment store: inserts assign fresh, strictly increasing ids; listing
//! filters by page, keeps insertion order, and never exposes an email.

use vstd::prelude::*;
use crate::comment::{Comment, CommentInput, CommentInputV, CommentV, clone_opt_string};

verus! {

/// The mathematical state of a comment store: the rows in insertion order and
/// the id the next insert will be given.
pub ghost struct StoreV {
    pub next_id: int,
    pub rows: Seq<CommentV>,
}

/// The comment row created for `input` by an insert at id `id` stamped `date`.
/// The same value is echoed back to the client, `email` included.
pub open spec fn stored_comment(id: int, date: Seq<char>, input: CommentInputV) -> CommentV {
    CommentV {
        id: id,
        date: date,
        page: input.page,
        user: input.user,
        text: input.text,
        email: input.email,
    }
}

/// `c` as a listing shows it: the same row with the email withheld.
pub open spec fn strip_email(c: CommentV) -> CommentV {
    CommentV { email: None, ..c }
}

/// Whether `c` belongs to `page`.
pub open spec fn on_page(c: CommentV, page: Seq<char>) -> bool {
    c.page == page
}

/// What a listing of `page` over `rows` returns: the rows of that page, in
/// order, each with the email withheld.
pub open spec fn listing(rows: Seq<CommentV>, page: Seq<char>) -> Seq<CommentV> {
    rows.filter(|c: CommentV| on_page(c, page)).map_values(|c: CommentV| strip_email(c))
}

/// The mathematical values of a sequence of comments.
pub open spec fn views_of(s: Seq<Comment>) -> Seq<CommentV> {
    s.map_values(|c: Comment| c@)
}

/// Ids strictly increase along the rows: insertion order shows in the ids.
pub open spec fn ids_strictly_increase(rows: Seq<CommentV>) -> bool {
    forall|i: int, j: int|
        0 <= i < j < rows.len() ==> (#[trigger] rows[i]).id < (#[trigger] rows[j]).id
}

/// Well-formedness of a store's mathematical state: ids start at 1, every
/// stored id was assigned below the counter, and ids strictly increase along
/// the rows.
pub open spec fn wf_model(s: StoreV) -> bool {
    &&& 1 <= s.next_id
    &&& forall|i: int| 0 <= i < s.rows.len() ==> 1 <= (#[trigger] s.rows[i]).id < s.next_id
    &&& ids_strictly_increase(s.rows)
}

/// How an insert changes a store: the row is appended, the id counter moves on.
pub open spec fn insert_model(s: StoreV, input: CommentInputV, date: Seq<char>) -> StoreV {
    StoreV {
        next_id: s.next_id + 1,
        rows: s.rows.push(stored_comment(s.next_id, date, input)),
    }
}

/// An in-memory comment store. Rows are immutable once inserted; ids come
/// from a single shared sequence across all pages.
pub struct CommentStore {
    next_id: i64,
    rows: Vec<Comment>,
}

impl View for CommentStore {
    type V = StoreV;

    closed spec fn view(&self) -> StoreV {
        StoreV { next_id: self.next_id as int, rows: views_of(self.rows@) }
    }
}

impl CommentStore {
    /// Well-formedness: `wf_model` of the store's mathematical state.
    pub open spec fn wf(&self) -> bool {
        wf_model(self@)
    }

    /// An empty store, ready to take its first comment at id 1.
    pub fn new() -> (s: CommentStore)
        ensures
            s.wf(),
            s@.rows == Seq::<CommentV>::empty(),
            s@.next_id == 1,
    {
        let s = CommentStore { next_id: 1, rows: Vec::new() };
        proof {
            assert(views_of(s.rows@) =~= Seq::<CommentV>::empty());
        }
        s
    }

    /// Appends one row for `input`, stamped `date`, under a fresh id; returns
    /// the created comment, client fields echoed as given, `email` included.
    pub fn insert(&mut self, input: &CommentInput, date: &String) -> (c: Comment)
        requires
            old(self).wf(),
            old(self)@.next_id < i64::MAX,
        ensures
            final(self).wf(),
            final(self)@ == insert_model(old(self)@, input@, date@),
            c@ == stored_comment(old(self)@.next_id, date@, input@),
            c.id as int == old(self)@.next_id,
    {
        let ghost s0 = self@;
        let id = self.next_id;
        let c = Comment {
            id,
            date: date.clone(),
            page: input.page.clone(),
            user: input.user.clone(),
            text: input.text.clone(),
            email: clone_opt_string(&input.email),
        };
        let echo = Comment {
            id,
            date: date.clone(),
            page: input.page.clone(),
            user: input.user.clone(),
            text: input.text.clone(),
            email: clone_opt_string(&input.email),
        };
        let ghost prev_rows = self.rows@;
        self.next_id = self.next_id + 1;
        self.rows.push(c);
        proof {
            assert(views_of(self.rows@) =~= views_of(prev_rows).push(
                stored_comment(s0.next_id, date@, input@),
            ));
        }
        echo
    }

    /// The id the next insert will be given.
    pub fn next_id(&self) -> (r: i64)
        ensures
            r as int == self@.next_id,
    {
        self.next_id
    }

    /// All comments of `page`, in insertion order, emails withheld; an
    /// unknown page gives an empty result, not an error.
    pub fn list_by_page(&self, page: &String) -> (r: Vec<Comment>)
        ensures
            views_of(r@) == listing(self@.rows, page@),
    {
        let mut out: Vec<Comment> = Vec::new();
        let n = self.rows.len();
        let mut i: usize = 0;
        proof {
            assert(views_of(self.rows@).take(0) =~= Seq::<CommentV>::empty());
            assert(views_of(out@) =~= listing(views_of(self.rows@).take(0), page@));
        }
        while i < n
            invariant
                n == self.rows.len(),
                i <= n,
                views_of(out@) == listing(views_of(self.rows@).take(i as int), page@),
            decreases n - i,
        {
            let row = &self.rows[i];
            proof {
                assert(views_of(self.rows@).take(i as int + 1) =~= views_of(self.rows@).take(
                    i as int,
                ).push(row@));
                lemma_listing_push(views_of(self.rows@).take(i as int), row@, page@);
            }
            if row.page == *page {
                let shown = Comment {
                    id: row.id,
                    date: row.date.clone(),
                    page: row.page.clone(),
                    user: row.user.clone(),
                    text: row.text.clone(),
                    email: None,
                };
                proof {
                    assert(shown@ == strip_email(row@));
                }
                let ghost prev_out = out@;
                out.push(shown);
                proof {
                    assert(views_of(out@) =~= views_of(prev_out).push(shown@));
                }
            }
            i = i + 1;
        }
        proof {
            assert(views_of(self.rows@).take(n as int) =~= views_of(self.rows@));
        }
        out
    }
}

/// Law: a freshly inserted comment appears in a subsequent listing of its
/// page: that listing is the previous one with exactly the new row appended,
/// email withheld, carrying the id just assigned and the date just stamped
/// (a well-formed stamp by `handle_post`'s contract); every other page's
/// listing is untouched.
pub proof fn lemma_insert_then_list(s: StoreV, input: CommentInputV, date: Seq<char>)
    ensures
        ({
            let s2 = insert_model(s, input, date);
            let c = strip_email(stored_comment(s.next_id, date, input));
            &&& listing(s2.rows, input.page) == listing(s.rows, input.page).push(c)
            &&& listing(s2.rows, input.page).len() == listing(s.rows, input.page).len() + 1
            &&& listing(s2.rows, input.page).last() == c
            &&& c.id == s.next_id
            &&& c.date == date
            &&& forall|p: Seq<char>|
                p != input.page ==> #[trigger] listing(s2.rows, p) == listing(s.rows, p)
        }),
{
    let row = stored_comment(s.next_id, date, input);
    lemma_listing_push(s.rows, row, input.page);
    assert forall|p: Seq<char>| p != input.page implies #[trigger] listing(
        insert_model(s, input, date).rows,
        p,
    ) == listing(s.rows, p) by {
        lemma_listing_push(s.rows, row, p);
    };
}

/// Law: ids are assigned strictly increasing: across two sequential inserts,
/// whatever the pages or dates, the second id exceeds the first.
pub proof fn lemma_sequential_ids_increase(
    s: StoreV,
    a: CommentInputV,
    da: Seq<char>,
    b: CommentInputV,
    db: Seq<char>,
)
    ensures
        ({
            let first = stored_comment(s.next_id, da, a);
            let s1 = insert_model(s, a, da);
            let second = stored_comment(s1.next_id, db, b);
            first.id < second.id
        }),
{
}

/// Law: an insert preserves well-formedness; the id it assigns is strictly
/// above every id already stored, so ids stay unique and increasing.
pub proof fn lemma_insert_keeps_ids_fresh(s: StoreV, input: CommentInputV, date: Seq<char>)
    requires
        wf_model(s),
    ensures
        wf_model(insert_model(s, input, date)),
        forall|k: int| 0 <= k < s.rows.len() ==> (#[trigger] s.rows[k]).id < s.next_id,
        forall|i: int, j: int|
            0 <= i < j < insert_model(s, input, date).rows.len() ==> (#[trigger] insert_model(
                s,
                input,
                date,
            ).rows[i]).id != (#[trigger] insert_model(s, input, date).rows[j]).id,
{
}

/// Law: a listing of `page` never holds a comment of another page.
pub proof fn lemma_listing_page_exact(rows: Seq<CommentV>, page: Seq<char>)
    ensures
        forall|i: int|
            0 <= i < listing(rows, page).len() ==> (#[trigger] listing(rows, page)[i]).page
                == page,
{
    let pred = |c: CommentV| on_page(c, page);
    assert forall|i: int| 0 <= i < listing(rows, page).len() implies (#[trigger] listing(
        rows,
        page,
    )[i]).page == page by {
        rows.lemma_filter_pred(pred, i);
        assert(listing(rows, page)[i] == strip_email(rows.filter(pred)[i]));
    };
}

/// Law: listed comments never carry an email, whatever the stored row held.
pub proof fn lemma_listing_no_email(rows: Seq<CommentV>, page: Seq<char>)
    ensures
        forall|i: int|
            0 <= i < listing(rows, page).len() ==> (#[trigger] listing(rows, page)[i]).email
                is None,
{
    let pred = |c: CommentV| on_page(c, page);
    assert forall|i: int| 0 <= i < listing(rows, page).len() implies (#[trigger] listing(
        rows,
        page,
    )[i]).email is None by {
        assert(listing(rows, page)[i] == strip_email(rows.filter(pred)[i]));
    };
}

/// Every id in the filtered rows stays below a bound that every row's id
/// respects.
proof fn lemma_filter_id_upper(rows: Seq<CommentV>, pred: spec_fn(CommentV) -> bool, bound: int)
    requires
        forall|k: int| 0 <= k < rows.len() ==> (#[trigger] rows[k]).id < bound,
    ensures
        forall|k: int|
            0 <= k < rows.filter(pred).len() ==> (#[trigger] rows.filter(pred)[k]).id < bound,
    decreases rows.len(),
{
    reveal(Seq::filter);
    if rows.len() > 0 {
        let dl = rows.drop_last();
        lemma_filter_id_upper(dl, pred, bound);
    }
}

/// Filtering keeps the rows' strict id order.
proof fn lemma_filter_keeps_id_order(rows: Seq<CommentV>, pred: spec_fn(CommentV) -> bool)
    requires
        ids_strictly_increase(rows),
    ensures
        ids_strictly_increase(rows.filter(pred)),
    decreases rows.len(),
{
    reveal(Seq::filter);
    if rows.len() > 0 {
        let dl = rows.drop_last();
        assert(ids_strictly_increase(dl));
        lemma_filter_keeps_id_order(dl, pred);
        if pred(rows.last()) {
            lemma_filter_id_upper(dl, pred, rows.last().id);
            let f = dl.filter(pred).push(rows.last());
            assert forall|i: int, j: int| 0 <= i < j < f.len() implies (#[trigger] f[i]).id < (
            #[trigger] f[j]).id by {
                if j < f.len() - 1 {
                    assert(f[i] == dl.filter(pred)[i] && f[j] == dl.filter(pred)[j]);
                } else {
                    assert(f[j] == rows.last());
                    if i < f.len() - 1 {
                        assert(f[i] == dl.filter(pred)[i]);
                    }
                }
            };
        }
    }
}

/// Law: a listing keeps insertion order: along rows whose ids strictly
/// increase, the listing's ids strictly increase too.
pub proof fn lemma_listing_keeps_order(rows: Seq<CommentV>, page: Seq<char>)
    requires
        ids_strictly_increase(rows),
    ensures
        ids_strictly_increase(listing(rows, page)),
{
    let pred = |c: CommentV| on_page(c, page);
    lemma_filter_keeps_id_order(rows, pred);
    let f = rows.filter(pred);
    assert forall|i: int, j: int| 0 <= i < j < listing(rows, page).len() implies (
    #[trigger] listing(rows, page)[i]).id < (#[trigger] listing(rows, page)[j]).id by {
        assert(listing(rows, page)[i] == strip_email(f[i]));
        assert(listing(rows, page)[j] == strip_email(f[j]));
    };
}

/// Appending a row extends the listing of that row's page by the row itself,
/// email withheld, and leaves every other page's listing unchanged.
pub proof fn lemma_listing_push(rows: Seq<CommentV>, c: CommentV, page: Seq<char>)
    ensures
        on_page(c, page) ==> listing(rows.push(c), page) == listing(rows, page).push(
            strip_email(c),
        ),
        !on_page(c, page) ==> listing(rows.push(c), page) == listing(rows, page),
{
    reveal(Seq::filter);
    let pred = |x: CommentV| on_page(x, page);
    assert(rows.push(c).drop_last() =~= rows);
    assert(rows.push(c).last() == c);
    if on_page(c, page) {
        assert(rows.push(c).filter(pred) =~= rows.filter(pred).push(c));
        assert(listing(rows.push(c), page) =~= listing(rows, page).push(strip_email(c)));
    } else {
        assert(rows.push(c).filter(pred) =~= rows.filter(pred));
        assert(listing(rows.push(c), page) =~= listing(rows, page));
    }
}

} // verus!
