//! The decisions of a walk over a paginated listing. The walk starts
//! without a cursor, asks for the page after each cursor a page hands on,
//! collects every page's records in order, and is exhausted exactly when a
//! page hands on no cursor. Whoever fetches the pages drives it: it asks
//! the walk for the cursor to fetch with and hands the page back.

use vstd::prelude::*;
use crate::error::opt_view;

verus! {

/// The state of a walk, as a mathematical value.
pub enum WalkState<T> {
    /// Pages are still to be fetched, the next one after `cursor` (the first
    /// one where it is `None`).
    Fetching { items: Seq<T>, cursor: Option<Seq<char>> },
    /// A page handed on no cursor: the listing is exhausted.
    Exhausted { items: Seq<T> },
}

/// The state of a walk before any page.
pub open spec fn walk_start<T>() -> WalkState<T> {
    WalkState::Fetching { items: Seq::empty(), cursor: None }
}

/// The state after a page with records `batch` that hands on `next`.
pub open spec fn walk_step<T>(s: WalkState<T>, batch: Seq<T>, next: Option<Seq<char>>) -> WalkState<T> {
    match s {
        WalkState::Fetching { items, cursor } => match next {
            Some(c) => WalkState::Fetching { items: items + batch, cursor: Some(c) },
            None => WalkState::Exhausted { items: items + batch },
        },
        WalkState::Exhausted { items } => s,
    }
}

/// The state after the pages `pages`, each its records and the cursor it
/// hands on, in the order they came.
pub open spec fn walk_run<T>(pages: Seq<(Seq<T>, Option<Seq<char>>)>) -> WalkState<T>
    decreases pages.len(),
{
    if pages.len() == 0 {
        walk_start()
    } else {
        walk_step(walk_run(pages.drop_last()), pages.last().0, pages.last().1)
    }
}

/// The records of `pages`, in order.
pub open spec fn all_records<T>(pages: Seq<(Seq<T>, Option<Seq<char>>)>) -> Seq<T>
    decreases pages.len(),
{
    if pages.len() == 0 {
        Seq::empty()
    } else {
        all_records(pages.drop_last()) + pages.last().0
    }
}

/// A walk whose every page hands on a cursor is never exhausted, however many
/// pages it takes: it has collected the records of all of them, in order, and
/// fetches next after the cursor of the last one.
pub proof fn lemma_walk_goes_on_while_cursor<T>(pages: Seq<(Seq<T>, Option<Seq<char>>)>)
    requires
        forall|i: int| 0 <= i < pages.len() ==> (#[trigger] pages[i]).1 is Some,
    ensures
        walk_run(pages) == (WalkState::Fetching {
            items: all_records(pages),
            cursor: if pages.len() == 0 { None } else { pages.last().1 },
        }),
    decreases pages.len(),
{
    if pages.len() > 0 {
        let rest = pages.drop_last();
        assert forall|i: int| 0 <= i < rest.len() implies (#[trigger] rest[i]).1 is Some by {
            assert(rest[i] == pages[i]);
        }
        lemma_walk_goes_on_while_cursor(rest);
        assert(pages[pages.len() - 1].1 is Some);
    }
}

/// A walk is exhausted by the first page that hands on no cursor: it then
/// holds the records of the pages up to that one, in order, and pages that
/// come after it change nothing.
pub proof fn lemma_walk_ends_at_first_missing_cursor<T>(pages: Seq<(Seq<T>, Option<Seq<char>>)>, k: int)
    requires
        0 <= k < pages.len(),
        pages[k].1 is None,
        forall|i: int| 0 <= i < k ==> (#[trigger] pages[i]).1 is Some,
    ensures
        walk_run(pages) == (WalkState::Exhausted { items: all_records(pages.take(k + 1)) }),
    decreases pages.len(),
{
    if pages.len() == k + 1 {
        let rest = pages.drop_last();
        assert forall|i: int| 0 <= i < rest.len() implies (#[trigger] rest[i]).1 is Some by {
            assert(rest[i] == pages[i]);
        }
        lemma_walk_goes_on_while_cursor(rest);
        assert(pages.take(k + 1) =~= pages);
    } else {
        let rest = pages.drop_last();
        assert(rest[k] == pages[k]);
        assert forall|i: int| 0 <= i < k implies (#[trigger] rest[i]).1 is Some by {
            assert(rest[i] == pages[i]);
        }
        lemma_walk_ends_at_first_missing_cursor(rest, k);
        assert(rest.take(k + 1) =~= pages.take(k + 1));
    }
}

/// A walk over a paginated listing that still has pages to fetch.
pub struct PageWalk<T> {
    items: Vec<T>,
    cursor: Option<String>,
}

/// What a walk does after a page.
pub enum WalkStep<T, E> {
    /// Fetch the next page: the walk goes on.
    Fetch(PageWalk<T>),
    /// The listing is exhausted: all records, in order.
    Done(Vec<T>),
    /// The page failed: the walk ends with the error, and no records.
    Failed(E),
}

impl<T> View for PageWalk<T> {
    type V = WalkState<T>;

    closed spec fn view(&self) -> WalkState<T> {
        WalkState::Fetching { items: self.items@, cursor: opt_view(self.cursor) }
    }
}

impl<T> PageWalk<T> {
    /// A walk that has fetched nothing yet.
    pub fn new() -> (w: PageWalk<T>)
        ensures
            w@ == walk_start::<T>(),
    {
        PageWalk { items: Vec::new(), cursor: None }
    }

    /// The cursor to fetch the next page with; `None` for the first page.
    pub fn cursor(&self) -> (r: Option<String>)
        ensures
            self@ matches WalkState::Fetching { cursor, .. } && opt_view(r) == cursor,
    {
        match &self.cursor {
            Some(c) => Some(c.clone()),
            None => None,
        }
    }

    /// Takes the outcome of fetching the next page: a failure ends the walk
    /// with it; a page's records are collected, and the walk goes on exactly
    /// when the page hands on a cursor.
    pub fn advance<E>(self, page: Result<(Vec<T>, Option<String>), E>) -> (r: WalkStep<T, E>)
        ensures
            match page {
                Err(e) => r == WalkStep::<T, E>::Failed(e),
                Ok((batch, next)) => match walk_step(self@, batch@, opt_view(next)) {
                    WalkState::Fetching { .. } => r matches WalkStep::Fetch(w)
                        && w@ == walk_step(self@, batch@, opt_view(next)),
                    WalkState::Exhausted { items } => r matches WalkStep::Done(all) && all@ == items,
                },
            },
    {
        match page {
            Err(e) => WalkStep::Failed(e),
            Ok((batch, next)) => {
                let mut items = self.items;
                let mut batch = batch;
                items.append(&mut batch);
                match next {
                    Some(c) => WalkStep::Fetch(PageWalk { items, cursor: Some(c) }),
                    None => WalkStep::Done(items),
                }
            },
        }
    }
}

} // verus!
