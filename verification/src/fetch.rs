//! Retrieval of a whole result set, page by page, along the cursors that
//! the pages carry.

use vstd::prelude::*;
use crate::error::UpstreamError;

verus! {

/// One page of a retrieval: its records and, unless it is the last page,
/// the cursor with which the next page is asked for.
#[derive(Debug)]
pub struct Page<T> {
    pub data: Vec<T>,
    pub cursor: Option<String>,
}

/// The mathematical content of a [`Page`].
pub ghost struct PageView<T> {
    pub data: Seq<T>,
    pub cursor: Option<Seq<char>>,
}

impl<T> View for Page<T> {
    type V = PageView<T>;

    open spec fn view(&self) -> PageView<T> {
        PageView {
            data: self.data@,
            cursor: match self.cursor {
                Some(cursor) => Some(cursor@),
                None => None,
            },
        }
    }
}

/// How far a retrieval has come.
#[derive(Debug)]
pub enum Retrieval<T> {
    /// The page at `cursor` is wanted next; the empty cursor asks for the
    /// first page. `pages` pages have been taken in so far.
    Pending { collected: Vec<T>, cursor: String, pages: usize, page_limit: usize },
    /// The last page has been taken in: these are all records, in page order.
    Complete(Vec<T>),
    /// The retrieval was given up and what it had collected thrown away.
    Aborted(UpstreamError),
}

/// The mathematical content of a [`Retrieval`].
pub ghost enum Progress<T> {
    Pending { collected: Seq<T>, cursor: Seq<char>, pages: nat, page_limit: nat },
    Complete(Seq<T>),
    Aborted(UpstreamError),
}

impl<T> View for Retrieval<T> {
    type V = Progress<T>;

    open spec fn view(&self) -> Progress<T> {
        match self {
            Retrieval::Pending { collected, cursor, pages, page_limit } => Progress::Pending {
                collected: collected@,
                cursor: cursor@,
                pages: *pages as nat,
                page_limit: *page_limit as nat,
            },
            Retrieval::Complete(records) => Progress::Complete(records@),
            Retrieval::Aborted(reason) => Progress::Aborted(*reason),
        }
    }
}

/// The outcome of asking for one page, as the retrieval sees it.
pub open spec fn outcome_view<T>(outcome: Result<Page<T>, UpstreamError>) -> Result<
    PageView<T>,
    UpstreamError,
> {
    match outcome {
        Ok(page) => Ok(page@),
        Err(reason) => Err(reason),
    }
}

impl<T> Progress<T> {
    /// A retrieval before its first page.
    pub open spec fn start(page_limit: nat) -> Progress<T> {
        Progress::Pending { collected: Seq::empty(), cursor: Seq::empty(), pages: 0, page_limit }
    }

    /// The retrieval once the outcome of asking for the wanted page is
    /// known. A page adds its records behind those collected. A page
    /// without cursor completes the retrieval; a page with a cursor makes
    /// that cursor the next one wanted, unless the page limit is reached,
    /// which aborts the retrieval. A failure aborts it too. A retrieval
    /// that is complete or aborted stays as it is.
    pub open spec fn advanced(self, outcome: Result<PageView<T>, UpstreamError>) -> Progress<T> {
        match self {
            Progress::Pending { collected, cursor, pages, page_limit } => match outcome {
                Ok(page) => match page.cursor {
                    None => Progress::Complete(collected + page.data),
                    Some(next) => if pages + 1 >= page_limit {
                        Progress::Aborted(UpstreamError::PageLimit)
                    } else {
                        Progress::Pending {
                            collected: collected + page.data,
                            cursor: next,
                            pages: pages + 1,
                            page_limit,
                        }
                    },
                },
                Err(reason) => Progress::Aborted(reason),
            },
            _ => self,
        }
    }

    /// The retrieval after the pages of `pages` have come in, one by one.
    pub open spec fn fed(self, pages: Seq<PageView<T>>) -> Progress<T>
        decreases pages.len(),
    {
        if pages.len() == 0 {
            self
        } else {
            self.advanced(Ok(pages.first())).fed(pages.drop_first())
        }
    }
}

/// The records of all pages, in page order.
pub open spec fn all_records<T>(pages: Seq<PageView<T>>) -> Seq<T>
    decreases pages.len(),
{
    if pages.len() == 0 {
        Seq::empty()
    } else {
        pages.first().data + all_records(pages.drop_first())
    }
}

/// Every page but the last carries a cursor, and the last carries none.
pub open spec fn ends_with_last_page<T>(pages: Seq<PageView<T>>) -> bool {
    &&& pages.len() > 0
    &&& pages.last().cursor is None
    &&& forall|i: int| 0 <= i < pages.len() - 1 ==> (#[trigger] pages[i]).cursor is Some
}

impl<T> Retrieval<T> {
    /// A retrieval before its first page, which will go on for
    /// `page_limit` pages at most, and for one in any case.
    pub fn begin(page_limit: usize) -> (retrieval: Retrieval<T>)
        ensures
            retrieval@ == Progress::<T>::start(page_limit as nat),
    {
        Retrieval::Pending {
            collected: Vec::new(),
            cursor: String::new(),
            pages: 0,
            page_limit,
        }
    }

    /// The cursor of the page that is wanted next, while one is wanted.
    pub fn wanted(&self) -> (cursor: Option<&String>)
        ensures
            match self@ {
                Progress::Pending { cursor: wanted, .. } => cursor matches Some(c) && c@ == wanted,
                _ => cursor is None,
            },
    {
        match self {
            Retrieval::Pending { cursor, .. } => Some(cursor),
            _ => None,
        }
    }

    /// Takes in the outcome of asking for the wanted page.
    pub fn advance(self, outcome: Result<Page<T>, UpstreamError>) -> (next: Retrieval<T>)
        ensures
            next@ == self@.advanced(outcome_view(outcome)),
    {
        match self {
            Retrieval::Pending { collected, cursor, pages, page_limit } => match outcome {
                Ok(page) => {
                    let mut collected = collected;
                    let mut data = page.data;
                    collected.append(&mut data);
                    match page.cursor {
                        None => Retrieval::Complete(collected),
                        Some(next) => {
                            if pages >= page_limit || pages + 1 >= page_limit {
                                Retrieval::Aborted(UpstreamError::PageLimit)
                            } else {
                                Retrieval::Pending {
                                    collected,
                                    cursor: next,
                                    pages: pages + 1,
                                    page_limit,
                                }
                            }
                        },
                    }
                },
                Err(reason) => Retrieval::Aborted(reason),
            },
            Retrieval::Complete(records) => Retrieval::Complete(records),
            Retrieval::Aborted(reason) => Retrieval::Aborted(reason),
        }
    }

    /// How the retrieval ended, once it has: with all records in page
    /// order, or with the reason for which it was given up.
    pub fn outcome(self) -> (ended: Option<Result<Vec<T>, UpstreamError>>)
        ensures
            match self@ {
                Progress::Pending { .. } => ended is None,
                Progress::Complete(records) => ended matches Some(Ok(all)) && all@ == records,
                Progress::Aborted(reason) => ended == Some(
                    Err::<Vec<T>, UpstreamError>(reason),
                ),
            },
    {
        match self {
            Retrieval::Pending { .. } => None,
            Retrieval::Complete(records) => Some(Ok(records)),
            Retrieval::Aborted(reason) => Some(Err(reason)),
        }
    }
}

proof fn lemma_fed_from<T>(
    collected: Seq<T>,
    cursor: Seq<char>,
    taken: nat,
    page_limit: nat,
    pages: Seq<PageView<T>>,
)
    requires
        ends_with_last_page(pages),
        taken + pages.len() <= page_limit || pages.len() == 1,
    ensures
        (Progress::Pending { collected, cursor, pages: taken, page_limit }).fed(pages)
            == Progress::Complete(collected + all_records(pages)),
    decreases pages.len(),
{
    let state = Progress::Pending { collected, cursor, pages: taken, page_limit };
    let rest = pages.drop_first();
    if pages.len() == 1 {
        assert(pages.first() == pages.last());
        assert(rest.len() == 0);
        assert(all_records(rest) == Seq::<T>::empty());
        assert(all_records(pages) =~= pages.first().data);
        assert(state.advanced(Ok(pages.first())).fed(rest) == state.advanced(Ok(pages.first())));
    } else {
        assert(pages[0].cursor is Some);
        assert(rest.last() == pages.last());
        assert forall|i: int| 0 <= i < rest.len() - 1 implies (#[trigger] rest[i]).cursor is Some by {
            assert(rest[i] == pages[i + 1]);
        }
        lemma_fed_from(
            collected + pages.first().data,
            pages.first().cursor->0,
            taken + 1,
            page_limit,
            rest,
        );
        assert(collected + pages.first().data + all_records(rest) =~= collected + all_records(
            pages,
        ));
    }
}

/// A retrieval whose pages come in until the one without cursor ends with
/// exactly the records of all pages, in page order, and wants no further
/// page. The page limit must allow for as many pages.
pub proof fn lemma_retrieval_collects_all_pages<T>(pages: Seq<PageView<T>>, page_limit: nat)
    requires
        ends_with_last_page(pages),
        pages.len() <= page_limit || pages.len() == 1,
    ensures
        Progress::<T>::start(page_limit).fed(pages) == Progress::Complete(all_records(pages)),
{
    lemma_fed_from(Seq::<T>::empty(), Seq::<char>::empty(), 0, page_limit, pages);
    assert(Seq::<T>::empty() + all_records(pages) =~= all_records(pages));
}

proof fn lemma_bounded_from<T>(state: Progress<T>, pages: Seq<PageView<T>>)
    requires
        state matches Progress::Pending { pages: taken, page_limit, .. } ==> taken + pages.len()
            >= page_limit && pages.len() > 0,
    ensures
        !(state.fed(pages) is Pending),
    decreases pages.len(),
{
    if pages.len() > 0 {
        lemma_bounded_from(state.advanced(Ok(pages.first())), pages.drop_first());
    }
}

/// No retrieval goes on beyond its page limit: once as many pages have
/// come in, and one in any case, it wants no further page, whatever
/// cursors the pages carried.
pub proof fn lemma_retrieval_stops_at_limit<T>(pages: Seq<PageView<T>>, page_limit: nat)
    requires
        pages.len() >= page_limit,
        pages.len() > 0,
    ensures
        !(Progress::<T>::start(page_limit).fed(pages) is Pending),
{
    lemma_bounded_from(Progress::<T>::start(page_limit), pages);
}

} // verus!
