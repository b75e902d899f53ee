//! The backend at `yandex.com`, which is asked twice: once for the address
//! of the result page, once for the page.

use vstd::prelude::*;
use crate::dom::{
    Document, NodeView, attribute_of, child_of_class, fits_a_page, html_nodes, positions,
    read_page, too_long, with_class,
};
use crate::error::{
    Error, ErrorView, YandexCaptcha, YandexCaptchaUrl, YandexCaptchaUrlView, YandexCaptchaView,
};
use crate::json::{
    Json, JsonView, every, item_list_of, json_of, lemma_every_failure, member_of, text_member,
    text_of,
};
use crate::similarity::{Similarity, no_score};
use crate::source::{
    Item, ItemView, Output, OutputView, Phase, Reading, ReadingView, Source, item_views,
    lemma_item_views_push, output_of,
};
use crate::text::{contains, str_contains};
use crate::transport::{Method, Request, RequestView, Response, ResponseView, pair, plain_request};

verus! {

/// The backend at `yandex.com`. It needs no key.
#[derive(Debug, Clone, Copy, PartialEq, Eq)]
pub struct Yandex;

/// Where searches go.
pub open spec fn endpoint() -> Seq<char> {
    "https://yandex.com/images/search"@
}

/// What a body holds that is a challenge and no answer.
pub open spec fn captcha_marker() -> Seq<char> {
    "captcha"@
}

/// The part of the page that the first request asks for.
pub open spec fn wanted_block() -> Seq<char> {
    "{\"blocks\":[{\"block\":\"b-page_type_search-by-image__link\"}]}"@
}

/// The request that asks where the result page for the image at `url` is.
pub open spec fn bootstrap_request_for(url: Seq<char>) -> RequestView {
    RequestView {
        method: Method::Get,
        url: endpoint(),
        query: seq![
            ("url"@, url),
            ("rpt"@, "imageview"@),
            ("format"@, "json"@),
            ("request"@, wanted_block()),
        ],
        headers: Seq::empty(),
        timeout_seconds: None,
        image: None,
    }
}

/// The text that a member holds under its name or under its other name,
/// where it stands under one of the two.
pub open spec fn aliased_text(json: JsonView, name: Seq<char>, alias: Seq<char>) -> Option<
    Seq<char>,
> {
    match (member_of(json, name), member_of(json, alias)) {
        (Some(member), None) => text_of(member),
        (None, Some(member)) => text_of(member),
        _ => None,
    }
}

/// The challenge that a document is: an object with the text `type` and
/// the object `captcha`, which holds the four texts of a challenge.
pub open spec fn captcha_of(json: JsonView) -> Option<YandexCaptchaUrlView> {
    match (text_member(json, "type"@), member_of(json, "captcha"@)) {
        (Some(kind), Some(captcha)) => match (
            aliased_text(captcha, "img_url"@, "img-url"@),
            text_member(captcha, "key"@),
            text_member(captcha, "status"@),
            aliased_text(captcha, "captcha_page"@, "captcha-page"@),
        ) {
            (Some(img_url), Some(key), Some(status), Some(captcha_page)) => Some(
                YandexCaptchaUrlView {
                    kind,
                    captcha: YandexCaptchaView { img_url, key, status, captcha_page },
                },
            ),
            _ => None,
        },
        _ => None,
    }
}

/// The query that a block points to: the text `url` of its object `params`.
pub open spec fn block_query(block: JsonView) -> Option<Seq<char>> {
    match member_of(block, "params"@) {
        Some(params) => text_member(params, "url"@),
        None => None,
    }
}

/// Reads a block's query.
pub open spec fn block_reader() -> spec_fn(JsonView) -> Option<Seq<char>> {
    |block: JsonView| block_query(block)
}

/// The query of the result page that a document names: that of the first
/// of its `blocks`, each of which has to point to a query.
pub open spec fn bootstrap_of(json: JsonView) -> Option<Seq<char>> {
    match member_of(json, "blocks"@) {
        Some(blocks) => match item_list_of(blocks) {
            Some(list) => match every(list, block_reader()) {
                Some(queries) => if queries.len() > 0 {
                    Some(queries[0])
                } else {
                    None
                },
                None => None,
            },
            None => None,
        },
        None => None,
    }
}

/// What the body of the first response means: a challenge where it holds
/// the marker, which is looked for before the body is read as JSON; else
/// the address of the result page.
pub open spec fn bootstrap_outcome(body: Seq<char>) -> Result<Seq<char>, ErrorView> {
    if contains(body, captcha_marker()) {
        match json_of(body) {
            Some(json) => match captcha_of(json) {
                Some(challenge) => Err(ErrorView::CaptchaChallenge(challenge)),
                None => Err(ErrorView::FailedToParseIntoJson),
            },
            None => Err(ErrorView::FailedToParseIntoJson),
        }
    } else {
        match json_of(body) {
            Some(json) => match bootstrap_of(json) {
                Some(query) => Ok(endpoint() + "?"@ + query),
                None => Err(ErrorView::FailedToParseIntoJson),
            },
            None => Err(ErrorView::FailedToParseIntoJson),
        }
    }
}

/// A body that holds the marker and reads as a challenge is reported as
/// that challenge, with its four texts, and a body that holds the marker is
/// never taken for an answer.
pub proof fn lemma_captcha_is_reported(body: Seq<char>)
    requires
        contains(body, captcha_marker()),
    ensures
        bootstrap_outcome(body) is Err,
        json_of(body) matches Some(json) && captcha_of(json) is Some ==> bootstrap_outcome(body)
            == Err::<Seq<char>, ErrorView>(
            ErrorView::CaptchaChallenge(captcha_of(json_of(body)->0)->0),
        ),
{
}

/// What a node yields: its `href` with the marker for "no score", unless
/// it has none or its `href` points to `i.ytimg.com`.
pub open spec fn link_item(node: NodeView) -> Option<ItemView> {
    match attribute_of(node, "href"@) {
        Some(link) => if contains(link, "i.ytimg.com"@) {
            None
        } else {
            Some(ItemView { link, similarity: no_score() })
        },
        None => None,
    }
}

/// What the nodes yield, in order.
pub open spec fn picked(doc: Seq<NodeView>, nodes: Seq<usize>) -> Seq<ItemView>
    decreases nodes.len(),
{
    if nodes.len() == 0 {
        Seq::empty()
    } else {
        let front = picked(doc, nodes.drop_last());
        match link_item(doc[nodes.last() as int]) {
            Some(item) => front.push(item),
            None => front,
        }
    }
}

/// The matches on a result page: what the children of the blocks of class
/// `Tags-Wrapper` yield, in document order; a failure where the page has no
/// such block.
pub open spec fn page_items(doc: Seq<NodeView>) -> Result<Seq<ItemView>, ErrorView> {
    if positions(doc.len(), with_class(doc, "Tags-Wrapper"@)).len() == 0 {
        Err(ErrorView::UnableToRetrieve("no similar images"@))
    } else {
        Ok(picked(doc, positions(doc.len(), child_of_class(doc, "Tags-Wrapper"@))))
    }
}

/// The matches on the page that a body writes; a failure where the body is
/// too long to be read.
pub open spec fn body_items(body: Seq<char>) -> Result<Seq<ItemView>, ErrorView> {
    if fits_a_page(body) {
        page_items(html_nodes(body))
    } else {
        Err(too_long())
    }
}

fn aliased(json: &Json, name: &str, alias: &str) -> (text: Option<String>)
    ensures
        text.deep_view() == aliased_text(json@, name@, alias@),
{
    match (json.member(name), json.member(alias)) {
        (Some(member), None) => member.as_text(),
        (None, Some(member)) => member.as_text(),
        _ => None,
    }
}

/// The request for the result page at `address`.
pub open spec fn result_request_for(address: Seq<char>) -> RequestView {
    RequestView {
        method: Method::Get,
        url: address,
        query: Seq::empty(),
        headers: Seq::empty(),
        timeout_seconds: None,
        image: None,
    }
}

impl Source for Yandex {
    type Argument = ();

    open spec fn opening(&self, url: Seq<char>) -> Result<(RequestView, Phase), ErrorView> {
        Ok((bootstrap_request_for(url), Phase::Bootstrap))
    }

    open spec fn reading(
        &self,
        url: Seq<char>,
        phase: Phase,
        response: ResponseView,
    ) -> ReadingView {
        if phase == Phase::Bootstrap {
            match bootstrap_outcome(response.body) {
                Ok(address) => ReadingView::Next(result_request_for(address), Phase::Results),
                Err(e) => ReadingView::Done(Err(e)),
            }
        } else {
            ReadingView::Done(output_of(url, body_items(response.body)))
        }
    }

    /// The backend; there is nothing to configure.
    fn create(argument: ()) -> (r: Result<Yandex, Error>)
        ensures
            r == Ok::<Yandex, Error>(Yandex),
    {
        Ok(Yandex)
    }

    fn open(&self, url: &str) -> (r: Result<(Request, Phase), Error>) {
        Ok((self.bootstrap_request(url), Phase::Bootstrap))
    }

    fn read(&self, url: &str, phase: Phase, response: &Response) -> (reading: Reading) {
        match phase {
            Phase::Bootstrap => match Yandex::resolve_bootstrap(response.body.as_str()) {
                Ok(address) => Reading::Next(Yandex::result_request(address), Phase::Results),
                Err(e) => Reading::Done(Err(e)),
            },
            _ => Reading::Done(Yandex::harvest(url, response.body.as_str())),
        }
    }
}

impl Yandex {
    /// The request that asks where the result page for the image at `url`
    /// is.
    pub fn bootstrap_request(&self, url: &str) -> (request: Request)
        ensures
            request@ == bootstrap_request_for(url@),
    {
        let mut query: Vec<(String, String)> = Vec::new();
        query.push(pair("url", url));
        query.push(pair("rpt", "imageview"));
        query.push(pair("format", "json"));
        query.push(
            pair("request", "{\"blocks\":[{\"block\":\"b-page_type_search-by-image__link\"}]}"),
        );
        assert(query.deep_view() =~= bootstrap_request_for(url@).query);
        let headers: Vec<(String, String)> = Vec::new();
        assert(headers.deep_view() =~= Seq::<(Seq<char>, Seq<char>)>::empty());
        Request {
            method: Method::Get,
            url: String::from_str("https://yandex.com/images/search"),
            query,
            headers,
            timeout_seconds: None,
            image: None,
        }
    }

    /// The challenge that a document is: see [`captcha_of`].
    pub fn decode_captcha(json: &Json) -> (challenge: Option<YandexCaptchaUrl>)
        ensures
            match challenge {
                Some(challenge) => captcha_of(json@) == Some(challenge@),
                None => captcha_of(json@) is None,
            },
    {
        let kind = match json.text_member("type") {
            Some(kind) => kind,
            None => {
                return None;
            },
        };
        let captcha = match json.member("captcha") {
            Some(captcha) => captcha,
            None => {
                return None;
            },
        };
        let img_url = match aliased(captcha, "img_url", "img-url") {
            Some(text) => text,
            None => {
                return None;
            },
        };
        let key = match captcha.text_member("key") {
            Some(text) => text,
            None => {
                return None;
            },
        };
        let status = match captcha.text_member("status") {
            Some(text) => text,
            None => {
                return None;
            },
        };
        let captcha_page = match aliased(captcha, "captcha_page", "captcha-page") {
            Some(text) => text,
            None => {
                return None;
            },
        };
        let captcha = YandexCaptcha { img_url, key, status, captcha_page };
        Some(YandexCaptchaUrl { kind, captcha })
    }

    /// The query of the result page that a document names: see
    /// [`bootstrap_of`].
    pub fn decode_bootstrap(json: &Json) -> (query: Option<String>)
        ensures
            query.deep_view() == bootstrap_of(json@),
    {
        let blocks = match json.member("blocks") {
            Some(blocks) => blocks,
            None => {
                return None;
            },
        };
        let list = match blocks.as_items() {
            Some(list) => list,
            None => {
                return None;
            },
        };
        let ghost all = item_list_of(blocks@)->0;
        let mut queries: Vec<String> = Vec::new();
        let mut k: usize = 0;
        assert(all.take(0) =~= Seq::<JsonView>::empty());
        assert(queries.deep_view() =~= Seq::<Seq<char>>::empty());
        while k < list.len()
            invariant
                k <= list.len(),
                all.len() == list@.len(),
                bootstrap_of(json@) == match every(all, block_reader()) {
                    Some(found) => if found.len() > 0 {
                        Some(found[0])
                    } else {
                        None
                    },
                    None => None,
                },
                forall|i: int| 0 <= i < all.len() ==> all[i] == list@[i]@,
                every(all.take(k as int), block_reader()) == Some(queries.deep_view()),
            decreases list.len() - k,
        {
            assert(all.take(k + 1).drop_last() =~= all.take(k as int));
            let found = match list[k].member("params") {
                Some(params) => params.text_member("url"),
                None => None,
            };
            match found {
                Some(query) => {
                    let ghost before = queries.deep_view();
                    queries.push(query);
                    assert(queries.deep_view() =~= before.push(query@));
                },
                None => {
                    proof {
                        lemma_every_failure(all, block_reader(), k + 1);
                    }
                    return None;
                },
            }
            k += 1;
        }
        assert(all.take(all.len() as int) =~= all);
        if queries.len() > 0 {
            Some(queries[0].clone())
        } else {
            None
        }
    }

    /// What the body of the first response means: see
    /// [`bootstrap_outcome`].
    pub fn resolve_bootstrap(body: &str) -> (r: Result<String, Error>)
        ensures
            match bootstrap_outcome(body@) {
                Ok(address) => r matches Ok(found) && found@ == address,
                Err(e) => r matches Err(failure) && failure@ == e,
            },
    {
        let challenged = str_contains(body, "captcha");
        let json = match Json::parse(body) {
            Some(json) => json,
            None => {
                return Err(Error::FailedToParseIntoJson);
            },
        };
        if challenged {
            match Self::decode_captcha(&json) {
                Some(challenge) => Err(Error::CaptchaChallenge(challenge)),
                None => Err(Error::FailedToParseIntoJson),
            }
        } else {
            match Self::decode_bootstrap(&json) {
                Some(query) => Ok(
                    String::from_str("https://yandex.com/images/search").concat("?").concat(
                        query.as_str(),
                    ),
                ),
                None => Err(Error::FailedToParseIntoJson),
            }
        }
    }

    /// The request for the result page at `address`.
    pub fn result_request(address: String) -> (request: Request)
        ensures
            request@ == result_request_for(address@),
    {
        plain_request(Method::Get, address)
    }

    /// The matches on a parsed result page, for the image at `url`: see
    /// [`page_items`].
    pub fn harvest_document(url: &str, document: &Document) -> (r: Result<Output, Error>)
        ensures
            match page_items(document@) {
                Ok(items) => r matches Ok(output) && output@ == (OutputView {
                    original_url: url@,
                    items,
                }),
                Err(e) => r matches Err(failure) && failure@ == e,
            },
    {
        let blocks = document.with_class("Tags-Wrapper");
        if blocks.len() == 0 {
            return Err(Error::UnableToRetrieve(String::from_str("no similar images")));
        }
        let nodes = document.children_of_class("Tags-Wrapper");
        let mut items: Vec<Item> = Vec::new();
        let mut k: usize = 0;
        assert(nodes@.take(0) =~= Seq::<usize>::empty());
        assert(item_views(items@) =~= Seq::<ItemView>::empty());
        while k < nodes.len()
            invariant
                k <= nodes.len(),
                forall|i: int| 0 <= i < nodes.len() ==> nodes[i] < document.nodes.len(),
                item_views(items@) == picked(document@, nodes@.take(k as int)),
            decreases nodes.len() - k,
        {
            assert(nodes@.take(k + 1).drop_last() =~= nodes@.take(k as int));
            match document.nodes[nodes[k]].attribute("href") {
                Some(link) => {
                    if !str_contains(link.as_str(), "i.ytimg.com") {
                        let item = Item { link, similarity: Similarity::unknown() };
                        proof {
                            lemma_item_views_push(items@, item);
                        }
                        items.push(item);
                    }
                },
                None => {},
            }
            k += 1;
        }
        assert(nodes@.take(nodes@.len() as int) =~= nodes@);
        Ok(Output { original_url: String::from_str(url), items })
    }

    /// The matches on the result page `body`, for the image at `url`: see
    /// [`body_items`].
    pub fn harvest(url: &str, body: &str) -> (r: Result<Output, Error>)
        ensures
            match body_items(body@) {
                Ok(items) => r matches Ok(output) && output@ == (OutputView {
                    original_url: url@,
                    items,
                }),
                Err(e) => r matches Err(failure) && failure@ == e,
            },
    {
        match read_page(body) {
            Ok(document) => Self::harvest_document(url, &document),
            Err(e) => Err(e),
        }
    }
}

} // verus!
