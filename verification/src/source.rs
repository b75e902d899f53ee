//! What every backend produces, and the interface they share.

use vstd::prelude::*;
use crate::error::{Error, ErrorView};
use crate::similarity::Similarity;
use crate::transport::{Request, RequestView, Response, ResponseView};

pub mod backend;
pub mod fuzzysearch;
pub mod iqdb;
pub mod ranking;
pub mod saucenao;
pub mod yandex;

verus! {

/// One match.
#[derive(Debug, Clone, PartialEq, Eq)]
pub struct Item {
    /// Address of the page that shows the match; not always of the image itself.
    pub link: String,
    /// How close the match is; -1 where the backend gives no score.
    pub similarity: Similarity,
}

/// The matches found for one image.
#[derive(Debug, Clone, PartialEq, Eq)]
pub struct Output {
    /// The address that was looked up.
    pub original_url: String,
    /// The matches, in the order the backend defines.
    pub items: Vec<Item>,
}

/// Mathematical content of an [`Item`].
pub struct ItemView {
    pub link: Seq<char>,
    pub similarity: Similarity,
}

/// Mathematical content of an [`Output`].
pub struct OutputView {
    pub original_url: Seq<char>,
    pub items: Seq<ItemView>,
}

impl View for Item {
    type V = ItemView;

    open spec fn view(&self) -> ItemView {
        ItemView { link: self.link@, similarity: self.similarity }
    }
}

/// The content of each item of `items`.
pub open spec fn item_views(items: Seq<Item>) -> Seq<ItemView> {
    Seq::new(items.len(), |i: int| items[i]@)
}

impl View for Output {
    type V = OutputView;

    open spec fn view(&self) -> OutputView {
        OutputView { original_url: self.original_url@, items: item_views(self.items@) }
    }
}

/// Adding an item to a list adds its content to the list's content.
pub proof fn lemma_item_views_push(items: Seq<Item>, item: Item)
    ensures
        item_views(items.push(item)) == item_views(items).push(item@),
{
    assert(item_views(items.push(item)) =~= item_views(items).push(item@));
}

/// What one entry of a response yields: an item, nothing, or a failure.
pub type Outcome = Result<Option<ItemView>, ErrorView>;

/// The items that the outcomes hold, in order, or the first failure among
/// them.
pub open spec fn gathered(outcomes: Seq<Outcome>) -> Result<Seq<ItemView>, ErrorView>
    decreases outcomes.len(),
{
    if outcomes.len() == 0 {
        Ok(Seq::empty())
    } else {
        match gathered(outcomes.drop_last()) {
            Err(e) => Err(e),
            Ok(items) => match outcomes.last() {
                Err(e) => Err(e),
                Ok(Some(item)) => Ok(items.push(item)),
                Ok(None) => Ok(items),
            },
        }
    }
}

/// No more items are gathered than there are outcomes.
pub proof fn lemma_gathered_len(outcomes: Seq<Outcome>)
    ensures
        gathered(outcomes) matches Ok(items) ==> items.len() <= outcomes.len(),
    decreases outcomes.len(),
{
    if outcomes.len() > 0 {
        lemma_gathered_len(outcomes.drop_last());
    }
}

/// A failure among the first `n` outcomes is the failure of all of them.
pub proof fn lemma_gathered_failure(outcomes: Seq<Outcome>, n: int)
    requires
        0 <= n <= outcomes.len(),
        gathered(outcomes.take(n)) is Err,
    ensures
        gathered(outcomes) == gathered(outcomes.take(n)),
    decreases outcomes.len() - n,
{
    if n < outcomes.len() {
        assert(outcomes.take(n + 1).drop_last() =~= outcomes.take(n));
        lemma_gathered_failure(outcomes, n + 1);
    } else {
        assert(outcomes.take(n) =~= outcomes);
    }
}

/// The content of two lists laid end to end is their contents laid end to end.
pub proof fn lemma_item_views_add(front: Seq<Item>, back: Seq<Item>)
    ensures
        item_views(front + back) == item_views(front) + item_views(back),
{
    assert(item_views(front + back) =~= item_views(front) + item_views(back));
}

/// The content of a result.
pub open spec fn result_view(r: Result<Output, Error>) -> Result<OutputView, ErrorView> {
    match r {
        Ok(output) => Ok(output@),
        Err(e) => Err(e@),
    }
}

/// The output for the image at `url` with the given items, or the failure
/// in their place.
pub open spec fn output_of(url: Seq<char>, items: Result<Seq<ItemView>, ErrorView>) -> Result<
    OutputView,
    ErrorView,
> {
    match items {
        Ok(items) => Ok(OutputView { original_url: url, items }),
        Err(e) => Err(e),
    }
}

/// Which response a lookup waits for.
#[derive(Debug, Clone, Copy, PartialEq, Eq, Structural)]
pub enum Phase {
    /// The headers of the image's address.
    Gate,
    /// The backend's word on where its results are.
    Bootstrap,
    /// The backend's results.
    Results,
}

/// What a backend makes of a response.
#[derive(Debug, PartialEq, Eq)]
pub enum Reading {
    /// Another request is needed; its response is awaited in the phase.
    Next(Request, Phase),
    /// The lookup is over.
    Done(Result<Output, Error>),
}

/// Mathematical content of a [`Reading`].
pub enum ReadingView {
    Next(RequestView, Phase),
    Done(Result<OutputView, ErrorView>),
}

impl View for Reading {
    type V = ReadingView;

    open spec fn view(&self) -> ReadingView {
        match self {
            Reading::Next(request, phase) => ReadingView::Next(request@, *phase),
            Reading::Done(r) => ReadingView::Done(result_view(*r)),
        }
    }
}

/// What the backends share: each says which request opens a lookup and
/// what the responses mean. Sending is left to the caller.
pub trait Source: Sized {
    /// What a backend is made from.
    type Argument;

    /// The request that opens the search for the image at `url`, and the
    /// phase in which its response is awaited.
    spec fn opening(&self, url: Seq<char>) -> Result<(RequestView, Phase), ErrorView>;

    /// What the backend makes of a response that comes in a phase.
    spec fn reading(&self, url: Seq<char>, phase: Phase, response: ResponseView) -> ReadingView;

    /// Makes a backend.
    fn create(argument: Self::Argument) -> (r: Result<Self, Error>);

    /// The request that opens the search for the image at `url`.
    fn open(&self, url: &str) -> (r: Result<(Request, Phase), Error>)
        ensures
            match self.opening(url@) {
                Ok((request, phase)) => r matches Ok(found) && found.0@ == request && found.1
                    == phase,
                Err(e) => r matches Err(failure) && failure@ == e,
            },
    ;

    /// What the backend makes of a response that comes in a phase.
    fn read(&self, url: &str, phase: Phase, response: &Response) -> (reading: Reading)
        ensures
            reading@ == self.reading(url@, phase, response@),
    ;
}

} // verus!
