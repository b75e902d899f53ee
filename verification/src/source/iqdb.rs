//! The backend at `iqdb.org`, which answers with a page of tables.
//!
//! A page holds a main list of matches and may hold a list of further
//! matches; both are harvested, the main list first. A candidate of either
//! list is a `div` child of the list. The status line of the page (the node
//! whose `id` is `urlstat`) is not read: a page is harvested by its lists
//! alone, whatever the site says of the lookup there.

use vstd::prelude::*;
use crate::dom::{
    Document, NodeView, attribute_of, children, classed_under, first, fits_a_page, html_nodes,
    named_below_class, named_child_of, named_under, positions, read_page, text_of, too_long,
    with_attribute,
};
use crate::error::{Error, ErrorView};
use crate::similarity::{Similarity, hundredth_of, no_score, parsed};
use crate::source::{
    Item, ItemView, Outcome, Output, OutputView, Phase, Reading, ReadingView, Source, gathered,
    item_views, lemma_gathered_failure, lemma_item_views_add, lemma_item_views_push, output_of,
};
use crate::text::{before, find_char, str_starts_with, to_chars};
use crate::transport::{Method, Request, RequestView, Response, ResponseView, pair};

verus! {

/// The backend at `iqdb.org`. It needs no key.
#[derive(Debug, Clone, Copy, PartialEq, Eq)]
pub struct Iqdb;

/// Another spelling of [`Iqdb`].
pub type IQDB = Iqdb;

/// A link as it is handed out: one that starts with `//` gets `https:` in front.
pub open spec fn normalized_link(link: Seq<char>) -> Seq<char> {
    if "//"@.is_prefix_of(link) {
        "https:"@ + link
    } else {
        link
    }
}

/// The score that a cell's text holds: the numeral before the first `%`,
/// divided by a hundred.
pub open spec fn score_of(text: Seq<char>) -> Option<Similarity> {
    match parsed(before(text, '%')) {
        Some(s) => hundredth_of(s),
        None => None,
    }
}

/// The table rows of a candidate, in document order.
pub open spec fn rows_of(doc: Seq<NodeView>, candidate: usize) -> Seq<usize> {
    positions(doc.len(), named_under(doc, candidate, "tr"@))
}

/// The `div` elements that are children of `parent`, in document order.
pub open spec fn div_children(doc: Seq<NodeView>, parent: usize) -> Seq<usize> {
    positions(doc.len(), named_child_of(doc, parent, "div"@))
}

/// The link of a candidate: the `href` of the first anchor that lies below
/// a node of class `image`, which is the candidate or lies below it.
pub open spec fn image_link(doc: Seq<NodeView>, candidate: usize) -> Option<Seq<char>> {
    match first(positions(doc.len(), named_below_class(doc, candidate, "image"@, "a"@))) {
        Some(anchor) => attribute_of(doc[anchor as int], "href"@),
        None => None,
    }
}

/// An item with the given link, made ready to hand out.
pub open spec fn item_of(link: Seq<char>, similarity: Similarity) -> ItemView {
    ItemView { link: normalized_link(link), similarity }
}

/// The reason given when the list of further matches is not laid out as expected.
pub open spec fn layout_failure() -> ErrorView {
    ErrorView::UnableToRetrieve("failed to parse page"@)
}

/// What one candidate of the main list yields.
///
/// A candidate without a link is passed over. Its score stands in the first
/// cell of the last of five rows; a table of another size yields the marker
/// for "no score".
pub open spec fn page_harvest(doc: Seq<NodeView>, candidate: usize) -> Outcome {
    let rows = rows_of(doc, candidate);
    match image_link(doc, candidate) {
        None => Ok(None),
        Some(link) => if link.len() == 0 {
            Ok(None)
        } else if rows.len() != 5 {
            Ok(Some(item_of(link, no_score())))
        } else {
            match first(children(doc, rows[4])) {
                None => Ok(Some(item_of(link, no_score()))),
                Some(cell) => match score_of(text_of(doc, cell)) {
                    Some(score) => Ok(Some(item_of(link, score))),
                    None => Err(ErrorView::UnableToConvertToFloat),
                },
            }
        },
    }
}

/// What one candidate of the list of further matches yields.
///
/// Its link is the `href` of the first node in the first cell of row 0, its
/// score stands in the first cell of row 3. A candidate without rows or with
/// an empty link is passed over; a missing cell, anchor, `href` or row 3 is a
/// failure.
pub open spec fn expansion_harvest(doc: Seq<NodeView>, candidate: usize) -> Outcome {
    let rows = rows_of(doc, candidate);
    if rows.len() == 0 {
        Ok(None)
    } else {
        match first(children(doc, rows[0])) {
            None => Err(layout_failure()),
            Some(cell) => match first(children(doc, cell)) {
                None => Err(layout_failure()),
                Some(anchor) => match attribute_of(doc[anchor as int], "href"@) {
                    None => Err(layout_failure()),
                    Some(link) => if rows.len() < 4 {
                        Err(layout_failure())
                    } else {
                        match first(children(doc, rows[3])) {
                            None => Err(layout_failure()),
                            Some(score_cell) => match score_of(text_of(doc, score_cell)) {
                                None => Err(ErrorView::UnableToConvertToFloat),
                                Some(score) => if link.len() == 0 {
                                    Ok(None)
                                } else {
                                    Ok(Some(item_of(link, score)))
                                },
                            },
                        }
                    },
                },
            },
        }
    }
}

/// The two lists of a result page.
#[derive(Debug, Clone, Copy, PartialEq, Eq, Structural)]
pub enum Stage {
    /// The main list of matches.
    Main,
    /// The list of further matches.
    Expansion,
}

/// What one candidate of the given list yields.
pub open spec fn candidate_harvest(stage: Stage, doc: Seq<NodeView>, candidate: usize) -> Outcome {
    match stage {
        Stage::Main => page_harvest(doc, candidate),
        Stage::Expansion => expansion_harvest(doc, candidate),
    }
}

/// What each candidate of the given list yields.
pub open spec fn candidate_outcomes(
    stage: Stage,
    doc: Seq<NodeView>,
    candidates: Seq<usize>,
) -> Seq<Outcome> {
    Seq::new(candidates.len(), |i: int| candidate_harvest(stage, doc, candidates[i]))
}

/// The items of the candidates in order, or the failure of the first
/// candidate that fails.
pub open spec fn gather(stage: Stage, doc: Seq<NodeView>, candidates: Seq<usize>) -> Result<
    Seq<ItemView>,
    ErrorView,
> {
    gathered(candidate_outcomes(stage, doc, candidates))
}

/// The candidates of the main list: the `div` children of the container but
/// the first, which shows the image that was asked about.
pub open spec fn stage_one_candidates(doc: Seq<NodeView>, pages: usize) -> Seq<usize> {
    let all = div_children(doc, pages);
    if all.len() > 0 {
        all.skip(1)
    } else {
        all
    }
}

/// What the main list yields; nothing where the page has no such list.
pub open spec fn stage_one(doc: Seq<NodeView>, pages: Option<usize>) -> Result<
    Seq<ItemView>,
    ErrorView,
> {
    match pages {
        None => Ok(Seq::empty()),
        Some(container) => gather(Stage::Main, doc, stage_one_candidates(doc, container)),
    }
}

/// What the list of further matches yields; nothing where the page has no
/// such block, and a failure where the block holds no list.
pub open spec fn stage_two(doc: Seq<NodeView>, more: Option<usize>) -> Result<
    Seq<ItemView>,
    ErrorView,
> {
    match more {
        None => Ok(Seq::empty()),
        Some(block) => match first(positions(doc.len(), classed_under(doc, block, "pages"@))) {
            None => Err(layout_failure()),
            Some(list) => gather(Stage::Expansion, doc, div_children(doc, list)),
        },
    }
}

/// The main list of a page: the first node whose `id` is `pages`.
pub open spec fn main_list(doc: Seq<NodeView>) -> Option<usize> {
    first(positions(doc.len(), with_attribute(doc, "id"@, "pages"@)))
}

/// The block of further matches of a page: the first node whose `id` is `more1`.
pub open spec fn expansion_block(doc: Seq<NodeView>) -> Option<usize> {
    first(positions(doc.len(), with_attribute(doc, "id"@, "more1"@)))
}

/// All the items of a page: those of the main list, then those of the list
/// of further matches, neither merged nor reordered.
pub open spec fn page_items(doc: Seq<NodeView>) -> Result<Seq<ItemView>, ErrorView> {
    match stage_one(doc, main_list(doc)) {
        Err(e) => Err(e),
        Ok(main) => match stage_two(doc, expansion_block(doc)) {
            Err(e) => Err(e),
            Ok(further) => Ok(main + further),
        },
    }
}

/// The items of the page that a body writes; a failure where the body is
/// too long to be read.
pub open spec fn body_items(body: Seq<char>) -> Result<Seq<ItemView>, ErrorView> {
    if fits_a_page(body) {
        page_items(html_nodes(body))
    } else {
        Err(too_long())
    }
}

/// The content of what a candidate yields.
pub open spec fn harvest_view(r: Result<Option<Item>, Error>) -> Outcome {
    match r {
        Ok(Some(item)) => Ok(Some(item@)),
        Ok(None) => Ok(None),
        Err(e) => Err(e@),
    }
}

/// A link that starts with `//` comes out behind `https://`, and every other
/// link comes out as it went in.
pub proof fn lemma_normalized_link(link: Seq<char>)
    ensures
        "//"@.is_prefix_of(link) ==> "https://"@.is_prefix_of(normalized_link(link))
            && normalized_link(link) == "https:"@ + link,
        !"//"@.is_prefix_of(link) ==> normalized_link(link) == link,
{
    reveal_strlit("//");
    reveal_strlit("https:");
    reveal_strlit("https://");
    if "//"@.is_prefix_of(link) {
        let out = "https:"@ + link;
        assert(link[0] == '/' && link[1] == '/') by {
            assert(link.subrange(0, 2)[0] == '/');
            assert(link.subrange(0, 2)[1] == '/');
        }
        assert(out.subrange(0, 8) =~= "https://"@);
    }
}

/// A candidate of the main list whose table does not have five rows yields
/// no failure, and where it yields an item, the item carries the marker
/// for "no score".
pub proof fn lemma_odd_table_has_no_score(doc: Seq<NodeView>, candidate: usize)
    requires
        rows_of(doc, candidate).len() != 5,
    ensures
        page_harvest(doc, candidate) is Ok,
        page_harvest(doc, candidate) matches Ok(Some(item)) ==> item.similarity == no_score(),
{
}

/// No link that a candidate yields starts with `//`: such a link has come
/// out behind `https:`.
pub proof fn lemma_harvested_link_is_absolute(stage: Stage, doc: Seq<NodeView>, candidate: usize)
    ensures
        candidate_harvest(stage, doc, candidate) matches Ok(Some(item)) ==> !"//"@.is_prefix_of(
            item.link,
        ),
{
    reveal_strlit("//");
    reveal_strlit("https:");
    match candidate_harvest(stage, doc, candidate) {
        Ok(Some(item)) => {
            let link = choose|link: Seq<char>| item.link == normalized_link(link);
            assert(exists|link: Seq<char>| item.link == normalized_link(link)) by {
                match stage {
                    Stage::Main => {
                        assert(item.link == normalized_link(image_link(doc, candidate)->0));
                    },
                    Stage::Expansion => {
                        let rows = rows_of(doc, candidate);
                        let cell = first(children(doc, rows[0]))->0;
                        let anchor = first(children(doc, cell))->0;
                        assert(item.link == normalized_link(
                            attribute_of(doc[anchor as int], "href"@)->0,
                        ));
                    },
                }
            }
            if "//"@.is_prefix_of(link) {
                assert(item.link[0] == 'h');
                if "//"@.is_prefix_of(item.link) {
                    assert(item.link.subrange(0, 2)[0] == '/');
                }
            }
        },
        _ => {},
    }
}

/// No link among the items of a list starts with `//`.
pub proof fn lemma_gathered_links_are_absolute(
    stage: Stage,
    doc: Seq<NodeView>,
    candidates: Seq<usize>,
)
    ensures
        gather(stage, doc, candidates) matches Ok(items) ==> forall|i: int|
            0 <= i < items.len() ==> !"//"@.is_prefix_of((#[trigger] items[i]).link),
    decreases candidates.len(),
{
    if candidates.len() > 0 {
        assert(candidate_outcomes(stage, doc, candidates).drop_last() =~= candidate_outcomes(
            stage,
            doc,
            candidates.drop_last(),
        ));
        lemma_harvested_link_is_absolute(stage, doc, candidates.last());
        lemma_gathered_links_are_absolute(stage, doc, candidates.drop_last());
    }
}

/// No link among the items of a page starts with `//`, in either list.
pub proof fn lemma_page_links_are_absolute(doc: Seq<NodeView>)
    ensures
        page_items(doc) matches Ok(items) ==> forall|i: int|
            0 <= i < items.len() ==> !"//"@.is_prefix_of((#[trigger] items[i]).link),
{
    match main_list(doc) {
        Some(container) => {
            lemma_gathered_links_are_absolute(
                Stage::Main,
                doc,
                stage_one_candidates(doc, container),
            );
        },
        None => {},
    }
    match expansion_block(doc) {
        Some(block) => {
            match first(positions(doc.len(), classed_under(doc, block, "pages"@))) {
                Some(list) => {
                    lemma_gathered_links_are_absolute(
                        Stage::Expansion,
                        doc,
                        div_children(doc, list),
                    );
                },
                None => {},
            }
        },
        None => {},
    }
}

/// Makes a link ready to hand out: see [`normalized_link`].
pub fn normalize_link(link: String) -> (out: String)
    ensures
        out@ == normalized_link(link@),
{
    if str_starts_with(link.as_str(), "//") {
        String::from_str("https:").concat(link.as_str())
    } else {
        link
    }
}

/// Reads the score in a cell's text: see [`score_of`].
pub fn read_score(text: &str) -> (score: Option<Similarity>)
    ensures
        score == score_of(text@),
{
    let chars = to_chars(text);
    let end = find_char(&chars, '%');
    let numeral = text.substring_char(0, end);
    assert(numeral@ =~= before(text@, '%'));
    match Similarity::parse(numeral) {
        Ok(s) => s.hundredth(),
        Err(_) => None,
    }
}

/// The content of a gathered list, or of the failure in its place.
pub open spec fn gathered_view(r: Result<Vec<Item>, Error>) -> Result<Seq<ItemView>, ErrorView> {
    match r {
        Ok(items) => Ok(item_views(items@)),
        Err(e) => Err(e@),
    }
}

/// The request for the result page for the image at `url`. It gives up
/// after ten seconds.
pub open spec fn search_request_for(url: Seq<char>) -> RequestView {
    RequestView {
        method: Method::Get,
        url: "https://iqdb.org/"@,
        query: seq![("url"@, url)],
        headers: Seq::empty(),
        timeout_seconds: Some(10u64),
        image: None,
    }
}

impl Source for Iqdb {
    type Argument = ();

    open spec fn opening(&self, url: Seq<char>) -> Result<(RequestView, Phase), ErrorView> {
        Ok((search_request_for(url), Phase::Results))
    }

    open spec fn reading(
        &self,
        url: Seq<char>,
        phase: Phase,
        response: ResponseView,
    ) -> ReadingView {
        ReadingView::Done(output_of(url, body_items(response.body)))
    }

    /// The backend; there is nothing to configure.
    fn create(argument: ()) -> (r: Result<Iqdb, Error>)
        ensures
            r == Ok::<Iqdb, Error>(Iqdb),
    {
        Ok(Iqdb)
    }

    fn open(&self, url: &str) -> (r: Result<(Request, Phase), Error>) {
        let mut query: Vec<(String, String)> = Vec::new();
        query.push(pair("url", url));
        assert(query.deep_view() =~= seq![("url"@, url@)]);
        let headers: Vec<(String, String)> = Vec::new();
        assert(headers.deep_view() =~= Seq::<(Seq<char>, Seq<char>)>::empty());
        Ok(
            (
                Request {
                    method: Method::Get,
                    url: String::from_str("https://iqdb.org/"),
                    query,
                    headers,
                    timeout_seconds: Some(10),
                    image: None,
                },
                Phase::Results,
            ),
        )
    }

    fn read(&self, url: &str, phase: Phase, response: &Response) -> (reading: Reading) {
        Reading::Done(Iqdb::harvest(url, response.body.as_str()))
    }
}

impl Iqdb {
    /// The address of the result page for the image at `url`.
    pub fn build_url(&self, url: &str) -> (r: Result<String, Error>)
        ensures
            r matches Ok(address) && address@ == "https://iqdb.org/?url="@ + url@,
    {
        Ok(String::from_str("https://iqdb.org/?url=").concat(url))
    }

    /// What one candidate of the main list yields: see [`page_harvest`].
    pub fn harvest_page(document: &Document, candidate: usize) -> (r: Result<Option<Item>, Error>)
        ensures
            harvest_view(r) == page_harvest(document@, candidate),
    {
        let anchors = document.elements_below_class(candidate, "image", "a");
        if anchors.len() == 0 {
            return Ok(None);
        }
        let link = match document.nodes[anchors[0]].attribute("href") {
            Some(link) => link,
            None => {
                return Ok(None);
            },
        };
        if link.as_str().is_empty() {
            return Ok(None);
        }
        let rows = document.elements_under(candidate, "tr");
        if rows.len() != 5 {
            return Ok(Some(Item { link: normalize_link(link), similarity: Similarity::unknown() }));
        }
        match document.first_child(rows[4]) {
            None => Ok(
                Some(Item { link: normalize_link(link), similarity: Similarity::unknown() }),
            ),
            Some(cell) => {
                let text = document.text(cell);
                match read_score(text.as_str()) {
                    Some(similarity) => Ok(Some(Item { link: normalize_link(link), similarity })),
                    None => Err(Error::UnableToConvertToFloat),
                }
            },
        }
    }

    /// What one candidate of the list of further matches yields: see
    /// [`expansion_harvest`].
    pub fn harvest_expansion(document: &Document, candidate: usize) -> (r: Result<
        Option<Item>,
        Error,
    >)
        ensures
            harvest_view(r) == expansion_harvest(document@, candidate),
    {
        let ghost doc = document@;
        let rows = document.elements_under(candidate, "tr");
        if rows.len() == 0 {
            return Ok(None);
        }
        let cell = match document.first_child(rows[0]) {
            Some(cell) => cell,
            None => {
                return Err(Error::UnableToRetrieve(String::from_str("failed to parse page")));
            },
        };
        let anchor = match document.first_child(cell) {
            Some(anchor) => anchor,
            None => {
                return Err(Error::UnableToRetrieve(String::from_str("failed to parse page")));
            },
        };
        let link = match document.nodes[anchor].attribute("href") {
            Some(link) => link,
            None => {
                return Err(Error::UnableToRetrieve(String::from_str("failed to parse page")));
            },
        };
        let empty = link.as_str().is_empty();
        if rows.len() < 4 {
            return Err(Error::UnableToRetrieve(String::from_str("failed to parse page")));
        }
        let score_cell = match document.first_child(rows[3]) {
            Some(cell) => cell,
            None => {
                return Err(Error::UnableToRetrieve(String::from_str("failed to parse page")));
            },
        };
        let text = document.text(score_cell);
        match read_score(text.as_str()) {
            None => Err(Error::UnableToConvertToFloat),
            Some(similarity) => if empty {
                Ok(None)
            } else {
                Ok(Some(Item { link: normalize_link(link), similarity }))
            },
        }
    }

    /// Gathers what the candidates from `start` on yield: see [`gather`].
    fn gather_from(stage: Stage, document: &Document, candidates: &Vec<usize>, start: usize) -> (r:
        Result<Vec<Item>, Error>)
        requires
            start <= candidates.len(),
        ensures
            gathered_view(r) == gather(stage, document@, candidates@.skip(start as int)),
    {
        let ghost outcomes = candidate_outcomes(stage, document@, candidates@.skip(start as int));
        let mut found: Vec<Item> = Vec::new();
        let mut k: usize = start;
        assert(outcomes.take(0) =~= Seq::<Outcome>::empty());
        assert(item_views(found@) =~= Seq::<ItemView>::empty());
        while k < candidates.len()
            invariant
                start <= k <= candidates.len(),
                outcomes == candidate_outcomes(stage, document@, candidates@.skip(start as int)),
                gathered(outcomes.take(k - start)) == Ok::<Seq<ItemView>, ErrorView>(
                    item_views(found@),
                ),
            decreases candidates.len() - k,
        {
            assert(outcomes.take(k - start + 1).drop_last() =~= outcomes.take(k - start));
            assert(outcomes.take(k - start + 1).last() == candidate_harvest(
                stage,
                document@,
                candidates@[k as int],
            ));
            let yielded = match stage {
                Stage::Main => Self::harvest_page(document, candidates[k]),
                Stage::Expansion => Self::harvest_expansion(document, candidates[k]),
            };
            match yielded {
                Err(e) => {
                    proof {
                        lemma_gathered_failure(outcomes, k - start + 1);
                    }
                    return Err(e);
                },
                Ok(None) => {},
                Ok(Some(item)) => {
                    proof {
                        lemma_item_views_push(found@, item);
                    }
                    found.push(item);
                },
            }
            k += 1;
        }
        assert(outcomes.take(outcomes.len() as int) =~= outcomes);
        Ok(found)
    }

    /// Adds the items of the main list to `res`: see [`stage_one`].
    ///
    /// `pages` is the list's container. On a failure `res` stays as it was.
    pub fn harvest_stage_one(document: &Document, pages: Option<usize>, res: &mut Output) -> (r:
        Result<(), Error>)
        ensures
            match stage_one(document@, pages) {
                Ok(items) => r is Ok && final(res)@ == (OutputView {
                    original_url: old(res)@.original_url,
                    items: old(res)@.items + items,
                }),
                Err(e) => r matches Err(failure) && failure@ == e && *final(res) == *old(res),
            },
    {
        match pages {
            None => {
                assert(old(res)@.items + Seq::<ItemView>::empty() =~= old(res)@.items);
                Ok(())
            },
            Some(container) => {
                let candidates = document.children_named(container, "div");
                let start: usize = if candidates.len() > 0 {
                    1
                } else {
                    0
                };
                assert(candidates@.skip(start as int) =~= stage_one_candidates(
                    document@,
                    container,
                ));
                match Self::gather_from(Stage::Main, document, &candidates, start) {
                    Err(e) => Err(e),
                    Ok(mut found) => {
                        proof {
                            lemma_item_views_add(res.items@, found@);
                        }
                        res.items.append(&mut found);
                        Ok(())
                    },
                }
            },
        }
    }

    /// Adds the items of the list of further matches to `res`: see
    /// [`stage_two`].
    ///
    /// `more` is the block that holds the list. On a failure `res` stays as
    /// it was.
    pub fn harvest_stage_two(document: &Document, more: Option<usize>, res: &mut Output) -> (r:
        Result<(), Error>)
        ensures
            match stage_two(document@, more) {
                Ok(items) => r is Ok && final(res)@ == (OutputView {
                    original_url: old(res)@.original_url,
                    items: old(res)@.items + items,
                }),
                Err(e) => r matches Err(failure) && failure@ == e && *final(res) == *old(res),
            },
    {
        match more {
            None => {
                assert(old(res)@.items + Seq::<ItemView>::empty() =~= old(res)@.items);
                Ok(())
            },
            Some(block) => {
                let lists = document.classed_under(block, "pages");
                if lists.len() == 0 {
                    return Err(Error::UnableToRetrieve(String::from_str("failed to parse page")));
                }
                let candidates = document.children_named(lists[0], "div");
                assert(candidates@.skip(0) =~= candidates@);
                match Self::gather_from(Stage::Expansion, document, &candidates, 0) {
                    Err(e) => Err(e),
                    Ok(mut found) => {
                        proof {
                            lemma_item_views_add(res.items@, found@);
                        }
                        res.items.append(&mut found);
                        Ok(())
                    },
                }
            },
        }
    }

    /// The matches on a parsed result page, for the image at `url`: see
    /// [`page_items`].
    pub fn harvest_document(url: &str, document: &Document) -> (r: Result<Output, Error>)
        ensures
            match page_items(document@) {
                Ok(items) => r matches Ok(output) && output@ == (OutputView {
                    original_url: url@,
                    items,
                }),
                Err(e) => r matches Err(failure) && failure@ == e,
            },
    {
        let mut output = Output { original_url: String::from_str(url), items: Vec::new() };
        assert(output@.items =~= Seq::<ItemView>::empty());
        let lists = document.with_attribute("id", "pages");
        let pages = if lists.len() > 0 {
            Some(lists[0])
        } else {
            None
        };
        match Self::harvest_stage_one(document, pages, &mut output) {
            Err(e) => {
                return Err(e);
            },
            Ok(()) => {},
        }
        let blocks = document.with_attribute("id", "more1");
        let more = if blocks.len() > 0 {
            Some(blocks[0])
        } else {
            None
        };
        match Self::harvest_stage_two(document, more, &mut output) {
            Err(e) => {
                return Err(e);
            },
            Ok(()) => {},
        }
        proof {
            let main = stage_one(document@, pages)->Ok_0;
            assert(Seq::<ItemView>::empty() + main =~= main);
        }
        Ok(output)
    }

    /// The matches on the result page `body`, for the image at `url`: see
    /// [`body_items`].
    pub fn harvest(url: &str, body: &str) -> (r: Result<Output, Error>)
        ensures
            match body_items(body@) {
                Ok(items) => r matches Ok(output) && output@ == (OutputView {
                    original_url: url@,
                    items,
                }),
                Err(e) => r matches Err(failure) && failure@ == e,
            },
    {
        match read_page(body) {
            Ok(document) => Self::harvest_document(url, &document),
            Err(e) => Err(e),
        }
    }
}

} // verus!
