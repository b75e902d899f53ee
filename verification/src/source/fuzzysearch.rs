//! The backend at `fuzzysearch.net`, a typed interface that finds images by
//! hash.

use vstd::prelude::*;
use crate::error::{Error, ErrorView};
use crate::json::{Json, json_of};
use crate::similarity::{Similarity, distance_score, percent_key_of};
use crate::source::{
    Item, ItemView, Outcome, Output, OutputView, Phase, Reading, ReadingView, Source, gathered,
    item_views, lemma_gathered_failure, lemma_gathered_len, lemma_item_views_push, output_of,
};
use crate::source::fuzzysearch::decode::{decode_details, decode_files, details_of, files_of};
use crate::source::fuzzysearch::types::{
    File, FileView, FurAffinityFileDetail, FurAffinityFileDetailView, detail_views, file_views,
    site_failure, source_page,
};
use crate::source::ranking::{lemma_ranking_ranks, lemma_ranking_rises, rank, ranking};
use crate::text::{append_decimal, decimal, signed_decimal, signed_to_string};
use crate::transport::{Method, Request, RequestView, Response, ResponseView, pair};

pub mod decode;
pub mod opt_hex_u8;
pub mod types;

verus! {

/// The backend at `fuzzysearch.net`.
#[derive(Debug, Clone, PartialEq, Eq)]
pub struct FuzzySearch {
    endpoint: String,
    api_key: String,
}

/// How closely an image has to match.
#[derive(Debug, Clone, Copy, PartialEq, Eq, Structural)]
pub enum MatchType {
    /// Start by looking at only exact items, then expand if no results.
    Close,
    /// Only look at exact items.
    Exact,
    /// Force matching expanded set of results.
    Force,
}

/// What a backend is made from.
#[derive(Debug, Clone, PartialEq, Eq)]
pub struct FuzzySearchOpts {
    /// Where the interface is served; the usual place where `None`.
    pub endpoint: Option<String>,
    /// The key that the interface asks for.
    pub api_key: String,
}

/// Mathematical content of a [`FuzzySearch`].
pub struct FuzzySearchView {
    pub endpoint: Seq<char>,
    pub api_key: Seq<char>,
}

impl View for FuzzySearch {
    type V = FuzzySearchView;

    closed spec fn view(&self) -> FuzzySearchView {
        FuzzySearchView { endpoint: self.endpoint@, api_key: self.api_key@ }
    }
}

/// Where the interface is usually served.
pub open spec fn usual_endpoint() -> Seq<char> {
    "https://api-next.fuzzysearch.net/v1"@
}

/// The word that the interface has for a way of matching.
pub open spec fn match_word(exact: MatchType) -> Seq<char> {
    match exact {
        MatchType::Exact => "exact"@,
        MatchType::Force => "force"@,
        MatchType::Close => "close"@,
    }
}

/// The numbers with commas between them.
pub open spec fn comma_list(numbers: Seq<i64>) -> Seq<char>
    decreases numbers.len(),
{
    if numbers.len() == 0 {
        Seq::empty()
    } else if numbers.len() == 1 {
        signed_decimal(numbers[0] as int)
    } else {
        comma_list(numbers.drop_last()) + seq![','] + signed_decimal(numbers.last() as int)
    }
}

/// A query with the pair for a distance at its end, where one is given.
pub open spec fn with_distance(
    query: Seq<(Seq<char>, Seq<char>)>,
    distance: Option<i64>,
) -> Seq<(Seq<char>, Seq<char>)> {
    match distance {
        Some(d) => query.push(("distance"@, signed_decimal(d as int))),
        None => query,
    }
}

/// A request to the interface at `path`, with the key in its header.
pub open spec fn keyed_request(
    source: FuzzySearchView,
    method: Method,
    path: Seq<char>,
    query: Seq<(Seq<char>, Seq<char>)>,
    image: Option<Seq<u8>>,
) -> RequestView {
    RequestView {
        method,
        url: source.endpoint + path,
        query,
        headers: seq![("x-api-key"@, source.api_key)],
        timeout_seconds: None,
        image,
    }
}

/// The failure that a status other than success stands for.
pub open spec fn status_failure(status: u16) -> ErrorView {
    if status == 400 {
        ErrorView::Generic("URL invalid or too large"@)
    } else if status == 401 {
        ErrorView::Generic("API key invalid or missing"@)
    } else if status == 429 {
        ErrorView::Generic("Rate limit exhausted"@)
    } else {
        ErrorView::Generic("Unexpected status code: "@ + decimal(status as nat))
    }
}

/// What one record yields: a link to the page of the submission, with the
/// score `100 / ((distance + 1) * 100)`, where no distance counts as 0; a
/// failure where no link can be made.
pub open spec fn record_outcome(file: FileView) -> Outcome {
    match source_page(file) {
        Some(link) => Ok(
            Some(
                ItemView {
                    link,
                    similarity: distance_score(
                        match file.distance {
                            Some(d) => d,
                            None => 0,
                        },
                    ),
                },
            ),
        ),
        None => Err(site_failure()),
    }
}

/// What each record yields.
pub open spec fn record_outcomes(files: Seq<FileView>) -> Seq<Outcome> {
    Seq::new(files.len(), |i: int| record_outcome(files[i]))
}

/// The matches that the records stand for, ranked by score.
pub open spec fn ranked_items(files: Seq<FileView>) -> Result<Seq<ItemView>, ErrorView> {
    match gathered(record_outcomes(files)) {
        Ok(items) => Ok(ranking(items)),
        Err(e) => Err(e),
    }
}

/// The matches that a response body holds, ranked by score.
pub open spec fn body_matches(body: Seq<char>) -> Result<Seq<ItemView>, ErrorView> {
    match json_of(body) {
        Some(json) => match files_of(json) {
            Some(files) => ranked_items(files),
            None => Err(ErrorView::FailedToParseIntoJson),
        },
        None => Err(ErrorView::FailedToParseIntoJson),
    }
}

/// The matches that records stand for come in rising order of a hundred
/// times their score as a whole number.
pub proof fn lemma_ranked_items_rise(files: Seq<FileView>)
    requires
        files.len() <= usize::MAX,
    ensures
        ranked_items(files) matches Ok(items) ==> forall|a: int, b: int|
            0 <= a < b < items.len() ==> percent_key_of(items[a].similarity) <= percent_key_of(
                items[b].similarity,
            ),
{
    match gathered(record_outcomes(files)) {
        Ok(found) => {
            lemma_gathered_len(record_outcomes(files));
            lemma_ranking_ranks(found);
            lemma_ranking_rises(found, ranking(found));
        },
        Err(_) => {},
    }
}

/// The records that a response holds: those that its body lists where its
/// status tells of success, else the failure that the status stands for.
pub open spec fn response_files(response: ResponseView) -> Result<Seq<FileView>, ErrorView> {
    if is_success(response.status) {
        match json_of(response.body) {
            Some(json) => match files_of(json) {
                Some(files) => Ok(files),
                None => Err(ErrorView::FailedToParseIntoJson),
            },
            None => Err(ErrorView::FailedToParseIntoJson),
        }
    } else {
        Err(status_failure(response.status))
    }
}

/// The detailed records that a response holds: those that its body lists
/// where its status tells of success, else the failure that the status
/// stands for.
pub open spec fn response_details(response: ResponseView) -> Result<
    Seq<FurAffinityFileDetailView>,
    ErrorView,
> {
    if is_success(response.status) {
        match json_of(response.body) {
            Some(json) => match details_of(json) {
                Some(details) => Ok(details),
                None => Err(ErrorView::FailedToParseIntoJson),
            },
            None => Err(ErrorView::FailedToParseIntoJson),
        }
    } else {
        Err(status_failure(response.status))
    }
}

/// The status tells of success.
pub open spec fn is_success(status: u16) -> bool {
    200 <= status < 300
}

impl Source for FuzzySearch {
    type Argument = String;

    open spec fn opening(&self, url: Seq<char>) -> Result<(RequestView, Phase), ErrorView> {
        Ok(
            (
                keyed_request(self@, Method::Get, "/url"@, seq![("url"@, url)], None),
                Phase::Results,
            ),
        )
    }

    open spec fn reading(
        &self,
        url: Seq<char>,
        phase: Phase,
        response: ResponseView,
    ) -> ReadingView {
        ReadingView::Done(
            if is_success(response.status) {
                output_of(url, body_matches(response.body))
            } else {
                Err(status_failure(response.status))
            },
        )
    }

    /// The backend that lookups go to, with the key `state`.
    fn create(state: String) -> (r: Result<FuzzySearch, Error>)
        ensures
            r matches Ok(source) && source@ == (FuzzySearchView {
                endpoint: "https://api.fuzzysearch.net"@,
                api_key: state@,
            }),
    {
        Ok(
            FuzzySearch::new_with_opts(
                FuzzySearchOpts {
                    api_key: state,
                    endpoint: Some(String::from_str("https://api.fuzzysearch.net")),
                },
            ),
        )
    }

    fn open(&self, url: &str) -> (r: Result<(Request, Phase), Error>) {
        Ok((self.lookup_url(url), Phase::Results))
    }

    fn read(&self, url: &str, phase: Phase, response: &Response) -> (reading: Reading) {
        if 200 <= response.status && response.status < 300 {
            Reading::Done(FuzzySearch::harvest_body(url, response.body.as_str()))
        } else {
            Reading::Done(Err(FuzzySearch::classify(response.status)))
        }
    }
}

impl FuzzySearch {
    /// A backend at the usual place, with the key `api_key`.
    pub fn new(api_key: String) -> (source: FuzzySearch)
        ensures
            source@ == (FuzzySearchView { endpoint: usual_endpoint(), api_key: api_key@ }),
    {
        FuzzySearch {
            api_key,
            endpoint: String::from_str("https://api-next.fuzzysearch.net/v1"),
        }
    }

    /// A backend made from `opts`.
    pub fn new_with_opts(opts: FuzzySearchOpts) -> (source: FuzzySearch)
        ensures
            source@ == (FuzzySearchView {
                endpoint: match opts.endpoint {
                    Some(endpoint) => endpoint@,
                    None => usual_endpoint(),
                },
                api_key: opts.api_key@,
            }),
    {
        FuzzySearch {
            api_key: opts.api_key,
            endpoint: match opts.endpoint {
                Some(endpoint) => endpoint,
                None => String::from_str("https://api-next.fuzzysearch.net/v1"),
            },
        }
    }

    /// A request to the interface at `path`, with the key in its header.
    fn make_request(
        &self,
        method: Method,
        path: &str,
        query: Vec<(String, String)>,
        image: Option<Vec<u8>>,
    ) -> (request: Request)
        ensures
            request@ == keyed_request(
                self@,
                method,
                path@,
                query.deep_view(),
                image.deep_view(),
            ),
    {
        let mut headers: Vec<(String, String)> = Vec::new();
        headers.push(pair("x-api-key", self.api_key.as_str()));
        assert(headers.deep_view() =~= seq![("x-api-key"@, self.api_key@)]);
        Request {
            method,
            url: self.endpoint.clone().concat(path),
            query,
            headers,
            timeout_seconds: None,
            image,
        }
    }

    /// The request that looks up several hashes, within `distance` where
    /// one is given.
    pub fn lookup_hashes(&self, hashes: &[i64], distance: Option<i64>) -> (request: Request)
        ensures
            request@ == keyed_request(
                self@,
                Method::Get,
                "/hashes"@,
                with_distance(seq![("hash"@, comma_list(hashes@))], distance),
                None,
            ),
    {
        let mut list = String::new();
        let mut i: usize = 0;
        assert(hashes@.take(0) =~= Seq::<i64>::empty());
        while i < hashes.len()
            invariant
                i <= hashes.len(),
                list@ == comma_list(hashes@.take(i as int)),
            decreases hashes.len() - i,
        {
            let ghost seen = hashes@.take(i as int);
            assert(hashes@.take(i + 1).drop_last() =~= seen);
            if i > 0 {
                list.append(",");
                proof {
                    reveal_strlit(",");
                }
            }
            let number = signed_to_string(hashes[i]);
            list.append(number.as_str());
            proof {
                if i > 0 {
                    assert(list@ =~= comma_list(seen) + seq![','] + signed_decimal(
                        hashes@[i as int] as int,
                    ));
                } else {
                    assert(list@ =~= signed_decimal(hashes@[0] as int));
                }
            }
            i += 1;
        }
        assert(hashes@.take(hashes@.len() as int) =~= hashes@);
        let mut query: Vec<(String, String)> = Vec::new();
        query.push((String::from_str("hash"), list));
        assert(query.deep_view() =~= seq![("hash"@, comma_list(hashes@))]);
        let query = Self::add_distance(query, distance);
        self.make_request(Method::Get, "/hashes", query, None)
    }

    /// `query` with the pair for a distance at its end, where one is given.
    fn add_distance(query: Vec<(String, String)>, distance: Option<i64>) -> (out: Vec<
        (String, String),
    >)
        ensures
            out.deep_view() == with_distance(query.deep_view(), distance),
    {
        let mut out = query;
        match distance {
            Some(d) => {
                let ghost before = out.deep_view();
                out.push((String::from_str("distance"), signed_to_string(d)));
                assert(out.deep_view() =~= before.push(("distance"@, signed_decimal(d as int))));
            },
            None => {},
        }
        out
    }

    /// The request that searches by the address of an image.
    pub fn lookup_url(&self, url: &str) -> (request: Request)
        ensures
            request@ == keyed_request(self@, Method::Get, "/url"@, seq![("url"@, url@)], None),
    {
        let mut query: Vec<(String, String)> = Vec::new();
        query.push(pair("url", url));
        assert(query.deep_view() =~= seq![("url"@, url@)]);
        self.make_request(Method::Get, "/url", query, None)
    }

    /// The request that searches by the bytes of an image, within
    /// `distance` where one is given.
    ///
    /// Asking for an exact match is faster, but may leave out results.
    pub fn image_search(&self, data: &[u8], exact: MatchType, distance: Option<i64>) -> (request:
        Request)
        ensures
            request@ == keyed_request(
                self@,
                Method::Post,
                "/image"@,
                with_distance(seq![("type"@, match_word(exact))], distance),
                Some(data@),
            ),
    {
        let word = match exact {
            MatchType::Exact => "exact",
            MatchType::Force => "force",
            MatchType::Close => "close",
        };
        let mut query: Vec<(String, String)> = Vec::new();
        query.push(pair("type", word));
        assert(query.deep_view() =~= seq![("type"@, match_word(exact))]);
        let query = Self::add_distance(query, distance);
        let image = vstd::slice::slice_to_vec(data);
        assert(image.deep_view() =~= data@);
        self.make_request(Method::Post, "/image", query, Some(image))
    }

    /// The request that asks what is known of a file on `FurAffinity`.
    pub fn lookup_furaffinity_file(&self, url: &str) -> (request: Request)
        ensures
            request@ == keyed_request(
                self@,
                Method::Get,
                "/file/furaffinity"@,
                seq![("search"@, url@)],
                None,
            ),
    {
        let mut query: Vec<(String, String)> = Vec::new();
        query.push(pair("search", url));
        assert(query.deep_view() =~= seq![("search"@, url@)]);
        self.make_request(Method::Get, "/file/furaffinity", query, None)
    }

    /// The failure that a status other than success stands for: see
    /// [`status_failure`].
    pub fn classify(status: u16) -> (failure: Error)
        ensures
            failure@ == status_failure(status),
    {
        if status == 400 {
            Error::Generic(String::from_str("URL invalid or too large"))
        } else if status == 401 {
            Error::Generic(String::from_str("API key invalid or missing"))
        } else if status == 429 {
            Error::Generic(String::from_str("Rate limit exhausted"))
        } else {
            let mut text = String::from_str("Unexpected status code: ");
            append_decimal(&mut text, status as u128);
            Error::Generic(text)
        }
    }

    /// The matches that the records stand for, ranked by score.
    ///
    /// Unlike the other backends, whose order is that of the response, this
    /// one hands its matches out in rising order of a hundred times the
    /// score as a whole number, matches with the same key in the order of
    /// the response.
    pub fn harvest(url: &str, files: &Vec<File>) -> (r: Result<Output, Error>)
        ensures
            match ranked_items(file_views(files@)) {
                Ok(items) => r matches Ok(output) && output@ == (OutputView {
                    original_url: url@,
                    items,
                }),
                Err(e) => r matches Err(failure) && failure@ == e,
            },
    {
        let ghost outcomes = record_outcomes(file_views(files@));
        let mut items: Vec<Item> = Vec::new();
        let mut i: usize = 0;
        assert(outcomes.take(0) =~= Seq::<Outcome>::empty());
        assert(item_views(items@) =~= Seq::<ItemView>::empty());
        while i < files.len()
            invariant
                i <= files.len(),
                outcomes == record_outcomes(file_views(files@)),
                gathered(outcomes.take(i as int)) == Ok::<Seq<ItemView>, ErrorView>(
                    item_views(items@),
                ),
            decreases files.len() - i,
        {
            assert(outcomes.take(i + 1).drop_last() =~= outcomes.take(i as int));
            assert(outcomes.take(i + 1).last() == record_outcome(files@[i as int]@));
            let file = &files[i];
            let link = match file.url() {
                Ok(link) => link,
                Err(e) => {
                    proof {
                        lemma_gathered_failure(outcomes, i + 1);
                    }
                    return Err(e);
                },
            };
            let distance = match file.distance {
                Some(d) => d,
                None => 0,
            };
            let item = Item { link, similarity: Similarity::from_distance(distance) };
            proof {
                lemma_item_views_push(items@, item);
            }
            items.push(item);
            i += 1;
        }
        assert(outcomes.take(outcomes.len() as int) =~= outcomes);
        let ranked = rank(&items);
        Ok(Output { original_url: String::from_str(url), items: ranked })
    }

    /// The records that the response to a lookup by hash, address or image
    /// holds: see [`response_files`].
    pub fn read_files(response: &Response) -> (r: Result<Vec<File>, Error>)
        ensures
            match response_files(response@) {
                Ok(files) => r matches Ok(found) && file_views(found@) == files,
                Err(e) => r matches Err(failure) && failure@ == e,
            },
    {
        if !(200 <= response.status && response.status < 300) {
            return Err(FuzzySearch::classify(response.status));
        }
        let json = match Json::parse(response.body.as_str()) {
            Some(json) => json,
            None => {
                return Err(Error::FailedToParseIntoJson);
            },
        };
        match decode_files(&json) {
            Some(files) => Ok(files),
            None => Err(Error::FailedToParseIntoJson),
        }
    }

    /// The detailed records that the response to a lookup of a file on
    /// `FurAffinity` holds: see [`response_details`].
    pub fn read_details(response: &Response) -> (r: Result<Vec<FurAffinityFileDetail>, Error>)
        ensures
            match response_details(response@) {
                Ok(details) => r matches Ok(found) && detail_views(found@) == details,
                Err(e) => r matches Err(failure) && failure@ == e,
            },
    {
        if !(200 <= response.status && response.status < 300) {
            return Err(FuzzySearch::classify(response.status));
        }
        let json = match Json::parse(response.body.as_str()) {
            Some(json) => json,
            None => {
                return Err(Error::FailedToParseIntoJson);
            },
        };
        match decode_details(&json) {
            Some(details) => Ok(details),
            None => Err(Error::FailedToParseIntoJson),
        }
    }

    /// The matches that a response body holds, for the image at `url`,
    /// ranked by score: see [`body_matches`].
    pub fn harvest_body(url: &str, body: &str) -> (r: Result<Output, Error>)
        ensures
            match body_matches(body@) {
                Ok(items) => r matches Ok(output) && output@ == (OutputView {
                    original_url: url@,
                    items,
                }),
                Err(e) => r matches Err(failure) && failure@ == e,
            },
    {
        let json = match Json::parse(body) {
            Some(json) => json,
            None => {
                return Err(Error::FailedToParseIntoJson);
            },
        };
        match decode_files(&json) {
            Some(files) => Self::harvest(url, &files),
            None => Err(Error::FailedToParseIntoJson),
        }
    }
}

} // verus!
