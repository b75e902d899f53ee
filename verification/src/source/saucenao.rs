//! The backend at `saucenao.com`, a JSON interface that asks for a key.

use vstd::prelude::*;
use vstd::string::StringSliceAdditionalSpecFns;
use crate::error::{Error, ErrorView};
use crate::json::{
    Json, JsonView, every, item_list_of, json_of, lemma_every_failure, member_of, optional,
    text_list_of, text_member,
};
use crate::similarity::{Similarity, parsed};
use crate::source::{
    Item, ItemView, Outcome, Output, OutputView, Phase, Reading, ReadingView, Source, gathered,
    item_views, lemma_gathered_failure, lemma_item_views_push, output_of,
};
use crate::source::fuzzysearch::opt_hex_u8::hex_value;
use crate::text::{append_decimal, before, decimal, lemma_position_is, unsigned_to_string};
use crate::transport::{Method, Request, RequestView, Response, ResponseView, pair};

verus! {

/// The backend at `saucenao.com`, with the key that it asks for.
///
/// A backend without a key can be made; it fails when an address is built.
#[derive(Debug, Clone, PartialEq, Eq)]
pub struct SauceNao {
    api_key: Option<String>,
}

/// The parameters of a search besides its header.
#[derive(Debug, Clone, PartialEq, Eq)]
pub struct Query {
    url: String,
    api_key: String,
    db: u16,
    output_type: u8,
    test_mode: u8,
    num_res: u8,
}

/// Mathematical content of a [`Query`].
pub struct QueryView {
    pub url: Seq<char>,
    pub api_key: Seq<char>,
    pub db: u16,
    pub output_type: u8,
    pub test_mode: u8,
    pub num_res: u8,
}

impl View for Query {
    type V = QueryView;

    closed spec fn view(&self) -> QueryView {
        QueryView {
            url: self.url@,
            api_key: self.api_key@,
            db: self.db,
            output_type: self.output_type,
            test_mode: self.test_mode,
            num_res: self.num_res,
        }
    }
}

impl View for SauceNao {
    type V = Option<Seq<char>>;

    closed spec fn view(&self) -> Option<Seq<char>> {
        self.api_key.deep_view()
    }
}

/// The template of a search address.
pub open spec fn address_template() -> Seq<char> {
    "https://saucenao.com/search.php?url={url}&api_key={api_key}"@
}

/// The byte stands for itself in an encoded address: a letter, a digit, or
/// one of `-`, `.`, `_` and `~`.
pub open spec fn is_unreserved(b: u8) -> bool {
    ||| 48 <= b <= 57
    ||| 65 <= b <= 90
    ||| 97 <= b <= 122
    ||| b == 45
    ||| b == 46
    ||| b == 95
    ||| b == 126
}

/// The upper-case hexadecimal digit for `d`.
pub open spec fn upper_hex(d: int) -> char {
    if d < 10 {
        (48 + d) as u8 as char
    } else {
        (55 + d) as u8 as char
    }
}

/// One byte, percent-encoded.
pub open spec fn encoded_byte(b: u8) -> Seq<char> {
    if is_unreserved(b) {
        seq![b as char]
    } else {
        seq!['%', upper_hex(b as int / 16), upper_hex(b as int % 16)]
    }
}

/// The bytes, each percent-encoded.
pub open spec fn percent_encoded(bytes: Seq<u8>) -> Seq<char>
    decreases bytes.len(),
{
    if bytes.len() == 0 {
        Seq::empty()
    } else {
        percent_encoded(bytes.drop_last()) + encoded_byte(bytes.last())
    }
}

/// The address template with its two variables filled in.
pub open spec fn filled_address(url: Seq<char>, api_key: Seq<char>) -> Seq<char> {
    "https://saucenao.com/search.php?url="@ + url + "&api_key="@ + api_key
}

/// Makes `strfmt::FmtError` known to the verifier. Nothing is claimed of it.
#[verifier::external_type_specification]
#[verifier::external_body]
pub struct ExFmtError(strfmt::FmtError);

fn unreserved(b: u8) -> (plain: bool)
    ensures
        plain == is_unreserved(b),
{
    (48 <= b && b <= 57) || (65 <= b && b <= 90) || (97 <= b && b <= 122) || b == 45 || b == 46
        || b == 95 || b == 126
}

fn upper_hex_char(d: u8) -> (c: char)
    requires
        d < 16,
    ensures
        c == upper_hex(d as int),
{
    if d < 10 {
        (48 + d) as char
    } else {
        (55 + d) as char
    }
}

/// Percent-encodes the bytes of `text`: see [`percent_encoded`].
pub fn percent_encode(text: &str) -> (encoded: String)
    ensures
        encoded@ == percent_encoded(text.spec_bytes()),
{
    let bytes = text.as_bytes();
    let mut encoded = String::new();
    let mut i: usize = 0;
    assert(bytes@.take(0) =~= Seq::<u8>::empty());
    while i < bytes.len()
        invariant
            i <= bytes.len(),
            bytes@ == text.spec_bytes(),
            encoded@ == percent_encoded(bytes@.take(i as int)),
        decreases bytes.len() - i,
    {
        let b = bytes[i];
        let ghost so_far = encoded@;
        assert(bytes@.take(i + 1).drop_last() =~= bytes@.take(i as int));
        if unreserved(b) {
            encoded.push(b as char);
            assert(encoded@ =~= so_far + encoded_byte(b));
        } else {
            encoded.push('%');
            encoded.push(upper_hex_char(b / 16));
            encoded.push(upper_hex_char(b % 16));
            assert(encoded@ =~= so_far + encoded_byte(b));
        }
        i += 1;
    }
    assert(bytes@.take(bytes@.len() as int) =~= bytes@);
    encoded
}

/// Fills the address template with `strfmt::strfmt`.
///
/// Not verified. Only the address template is admitted, with a value for
/// each of its two variables. The contract claims what `strfmt` documents
/// for such a template: it succeeds, and its result is the template with
/// each variable in braces replaced by the variable's value, as it is.
#[verifier::external_body]
fn fill_template(template: &str, names: (&str, &str), url: &str, api_key: &str) -> (filled: Result<
    String,
    strfmt::FmtError,
>)
    requires
        template@ == address_template(),
        names.0@ == "url"@,
        names.1@ == "api_key"@,
    ensures
        filled is Ok,
        filled->Ok_0@ == filled_address(url@, api_key@),
{
    let mut table: std::collections::HashMap<String, String> = std::collections::HashMap::new();
    table.insert(names.0.to_string(), url.to_string());
    table.insert(names.1.to_string(), api_key.to_string());
    strfmt::strfmt(template, &table)
}

/// The bytes that an encoded text stands for: a `%` with two hexadecimal
/// digits behind it is the byte that they write, and any other character of
/// ASCII is its own byte. `None` where the text is no encoded text.
pub open spec fn percent_decoded(text: Seq<char>) -> Option<Seq<u8>>
    decreases text.len(),
{
    if text.len() == 0 {
        Some(Seq::empty())
    } else if text[0] == '%' {
        if text.len() >= 3 {
            match (hex_value(text[1]), hex_value(text[2]), percent_decoded(text.skip(3))) {
                (Some(high), Some(low), Some(rest)) => Some(
                    seq![(high * 16 + low) as u8] + rest,
                ),
                _ => None,
            }
        } else {
            None
        }
    } else if (text[0] as u32) < 128 {
        match percent_decoded(text.skip(1)) {
            Some(rest) => Some(seq![text[0] as u8] + rest),
            None => None,
        }
    } else {
        None
    }
}

/// The character may stand in an encoded text: a letter, a digit, one of
/// `-`, `.`, `_` and `~`, or the `%` that begins an encoded byte. None of
/// `:`, `/`, `?`, `&`, `=`, `#` and the space is among them.
pub open spec fn is_encoded_char(c: char) -> bool {
    let code = c as u32;
    code < 128 && (is_unreserved(code as u8) || c == '%')
}

/// Encoding bytes laid end to end gives their encodings laid end to end.
pub proof fn lemma_percent_encoded_add(front: Seq<u8>, back: Seq<u8>)
    ensures
        percent_encoded(front + back) == percent_encoded(front) + percent_encoded(back),
    decreases back.len(),
{
    if back.len() == 0 {
        assert(front + back =~= front);
        assert(percent_encoded(front) + percent_encoded(back) =~= percent_encoded(front));
    } else {
        lemma_percent_encoded_add(front, back.drop_last());
        assert((front + back).drop_last() =~= front + back.drop_last());
        assert(percent_encoded(front) + (percent_encoded(back.drop_last()) + encoded_byte(
            back.last(),
        )) =~= (percent_encoded(front) + percent_encoded(back.drop_last())) + encoded_byte(
            back.last(),
        ));
    }
}

/// An encoded text decodes to the bytes it was made from, byte for byte.
pub proof fn lemma_percent_round_trip(bytes: Seq<u8>)
    ensures
        percent_decoded(percent_encoded(bytes)) == Some(bytes),
    decreases bytes.len(),
{
    if bytes.len() > 0 {
        let first = bytes[0];
        let rest = bytes.drop_first();
        assert(bytes =~= seq![first] + rest);
        lemma_percent_encoded_add(seq![first], rest);
        lemma_percent_round_trip(rest);
        assert(seq![first].drop_last() =~= Seq::<u8>::empty());
        assert(percent_encoded(seq![first]) =~= encoded_byte(first)) by {
            assert(percent_encoded(Seq::<u8>::empty()) + encoded_byte(first) =~= encoded_byte(
                first,
            ));
        }
        let text = percent_encoded(bytes);
        assert(text == encoded_byte(first) + percent_encoded(rest));
        if is_unreserved(first) {
            assert(text[0] == first as char);
            assert(text.skip(1) =~= percent_encoded(rest));
            assert(seq![text[0] as u8] + rest =~= bytes);
        } else {
            let high = first as int / 16;
            let low = first as int % 16;
            assert(text[0] == '%');
            assert(text[1] == upper_hex(high));
            assert(text[2] == upper_hex(low));
            assert(hex_value(upper_hex(high)) == Some(high));
            assert(hex_value(upper_hex(low)) == Some(low));
            assert(text.skip(3) =~= percent_encoded(rest));
            assert(seq![(high * 16 + low) as u8] + rest =~= bytes);
        }
    }
}

/// An encoded text holds none of `:`, `/`, `?`, `&`, `=`, `#` and the space,
/// nor anything else but letters, digits, `-`, `.`, `_`, `~` and `%`.
pub proof fn lemma_percent_encoded_is_plain(bytes: Seq<u8>)
    ensures
        forall|i: int|
            0 <= i < percent_encoded(bytes).len() ==> is_encoded_char(
                #[trigger] percent_encoded(bytes)[i],
            ),
        forall|i: int|
            0 <= i < percent_encoded(bytes).len() ==> {
                let c = #[trigger] percent_encoded(bytes)[i];
                c != ':' && c != '/' && c != '?' && c != '&' && c != '=' && c != '#' && c != ' '
            },
    decreases bytes.len(),
{
    if bytes.len() > 0 {
        lemma_percent_encoded_is_plain(bytes.drop_last());
        let front = percent_encoded(bytes.drop_last());
        let unit = encoded_byte(bytes.last());
        assert forall|i: int| 0 <= i < unit.len() implies is_encoded_char(#[trigger] unit[i]) by {
            let high = bytes.last() as int / 16;
            let low = bytes.last() as int % 16;
            assert(is_encoded_char(upper_hex(high)));
            assert(is_encoded_char(upper_hex(low)));
        }
        assert forall|i: int| 0 <= i < percent_encoded(bytes).len() implies is_encoded_char(
            #[trigger] percent_encoded(bytes)[i],
        ) by {
            if i >= front.len() {
                assert(percent_encoded(bytes)[i] == unit[i - front.len()]);
            } else {
                assert(percent_encoded(bytes)[i] == front[i]);
            }
        }
    }
}

/// In the address of a search, what stands behind `url=` up to the next
/// `&` is the encoded address of the image, and it decodes to that address
/// byte for byte.
pub proof fn lemma_address_carries_url(api_key: Seq<char>, url: Seq<u8>)
    ensures
        search_address(Some(api_key), url) matches Ok(address) && ({
            let head = "https://saucenao.com/search.php?url="@;
            &&& head.is_prefix_of(address)
            &&& before(address.skip(head.len() as int), '&') == percent_encoded(url)
            &&& percent_decoded(before(address.skip(head.len() as int), '&')) == Some(url)
        }),
{
    let head = "https://saucenao.com/search.php?url="@;
    let encoded = percent_encoded(url);
    let address = search_address(Some(api_key), url)->Ok_0;
    let tail = address.skip(head.len() as int);
    reveal_strlit("&api_key=");
    lemma_percent_encoded_is_plain(url);
    lemma_percent_round_trip(url);
    assert(address.subrange(0, head.len() as int) =~= head);
    assert(tail =~= encoded + ("&api_key="@ + api_key
        + "&db=999&output_type=2&testmode=1&numres=16"@));
    assert(tail[encoded.len() as int] == '&');
    assert forall|i: int| 0 <= i < encoded.len() implies tail[i] != '&' by {
        assert(tail[i] == encoded[i]);
    }
    lemma_position_is(tail, '&', encoded.len() as int);
    assert(tail.take(encoded.len() as int) =~= encoded);
}

/// The parameters that every search carries, as they stand in an address.
pub open spec fn fixed_parameters(query: QueryView) -> Seq<char> {
    "&db="@ + decimal(query.db as nat) + "&output_type="@ + decimal(query.output_type as nat)
        + "&testmode="@ + decimal(query.test_mode as nat) + "&numres="@ + decimal(
        query.num_res as nat,
    )
}

/// The parameters of a search as pairs of name and value, in the order in
/// which a request carries them.
pub open spec fn query_pairs(query: QueryView) -> Seq<(Seq<char>, Seq<char>)> {
    seq![
        ("url"@, query.url),
        ("api_key"@, query.api_key),
        ("db"@, decimal(query.db as nat)),
        ("output_type"@, decimal(query.output_type as nat)),
        ("testmode"@, decimal(query.test_mode as nat)),
        ("numres"@, decimal(query.num_res as nat)),
    ]
}

/// The parameters of a search that is not yet aimed at an image.
pub open spec fn default_query() -> QueryView {
    QueryView {
        url: Seq::empty(),
        api_key: Seq::empty(),
        db: 999,
        output_type: 2,
        test_mode: 1,
        num_res: 16,
    }
}

/// The fixed parameters of a search are `db=999`, `output_type=2`,
/// `testmode=1` and `numres=16`, in this order.
pub proof fn lemma_fixed_parameters()
    ensures
        fixed_parameters(default_query()) == "&db=999&output_type=2&testmode=1&numres=16"@,
{
    reveal_strlit("&db=");
    reveal_strlit("&output_type=");
    reveal_strlit("&testmode=");
    reveal_strlit("&numres=");
    reveal_strlit("&db=999&output_type=2&testmode=1&numres=16");
    reveal_with_fuel(decimal, 4);
    assert(decimal(999) =~= seq!['9', '9', '9']);
    assert(decimal(2) =~= seq!['2']);
    assert(decimal(1) =~= seq!['1']);
    assert(decimal(16) =~= seq!['1', '6']);
    assert(fixed_parameters(default_query()) =~= "&db=999&output_type=2&testmode=1&numres=16"@);
}

impl Default for SauceNao {
    /// A backend without a key.
    fn default() -> (source: SauceNao)
        ensures
            source@ is None,
    {
        SauceNao::new()
    }
}

impl Default for Query {
    /// The parameters of a search that is not yet aimed at an image.
    fn default() -> (query: Query)
        ensures
            query@ == default_query(),
    {
        Query {
            url: String::new(),
            api_key: String::new(),
            db: 999,
            output_type: 2,
            test_mode: 1,
            num_res: 16,
        }
    }
}

impl Query {
    /// The same parameters, aimed at the image at `url`.
    pub fn url(self, url: &str) -> (query: Query)
        ensures
            query@ == (QueryView { url: url@, ..self@ }),
    {
        Query {
            url: String::from_str(url),
            api_key: self.api_key,
            db: self.db,
            output_type: self.output_type,
            test_mode: self.test_mode,
            num_res: self.num_res,
        }
    }

    /// The same parameters, with the key `api_key`.
    pub fn api_key(self, api_key: &str) -> (query: Query)
        ensures
            query@ == (QueryView { api_key: api_key@, ..self@ }),
    {
        Query {
            url: self.url,
            api_key: String::from_str(api_key),
            db: self.db,
            output_type: self.output_type,
            test_mode: self.test_mode,
            num_res: self.num_res,
        }
    }

    /// The parameters as pairs of name and value: see [`query_pairs`].
    pub fn pairs(&self) -> (pairs: Vec<(String, String)>)
        ensures
            pairs.deep_view() == query_pairs(self@),
    {
        let mut pairs: Vec<(String, String)> = Vec::new();
        pairs.push((String::from_str("url"), self.url.clone()));
        pairs.push((String::from_str("api_key"), self.api_key.clone()));
        pairs.push((String::from_str("db"), unsigned_to_string(self.db as u64)));
        pairs.push(
            (String::from_str("output_type"), unsigned_to_string(self.output_type as u64)),
        );
        pairs.push((String::from_str("testmode"), unsigned_to_string(self.test_mode as u64)));
        pairs.push((String::from_str("numres"), unsigned_to_string(self.num_res as u64)));
        assert(pairs.deep_view() =~= query_pairs(self@));
        pairs
    }

    /// The parameters that every search carries, as they stand in an
    /// address: see [`fixed_parameters`].
    pub fn fixed_parameters(&self) -> (text: String)
        ensures
            text@ == fixed_parameters(self@),
    {
        let mut text = String::from_str("&db=");
        append_decimal(&mut text, self.db as u128);
        text.append("&output_type=");
        append_decimal(&mut text, self.output_type as u128);
        text.append("&testmode=");
        append_decimal(&mut text, self.test_mode as u128);
        text.append("&numres=");
        append_decimal(&mut text, self.num_res as u128);
        text
    }
}

/// The address that a search for `url` with the key `api_key` goes to: the
/// filled template with the fixed parameters behind it. Without a key there
/// is no address.
pub open spec fn search_address(api_key: Option<Seq<char>>, url: Seq<u8>) -> Result<
    Seq<char>,
    ErrorView,
> {
    match api_key {
        None => Err(ErrorView::Generic("API key missing"@)),
        Some(key) => Ok(
            filled_address(percent_encoded(url), key)
                + "&db=999&output_type=2&testmode=1&numres=16"@,
        ),
    }
}

impl SauceNao {
    /// A backend without a key.
    pub fn new() -> (source: SauceNao)
        ensures
            source@ is None,
    {
        SauceNao { api_key: None }
    }

    /// Sets the key.
    pub fn set_api_key(&mut self, api_key: String)
        ensures
            final(self)@ == Some(api_key@),
    {
        self.api_key = Some(api_key);
    }

    /// The key, if one is set.
    pub fn get_api_key(&self) -> (api_key: &Option<String>)
        ensures
            api_key.deep_view() == self@,
    {
        &self.api_key
    }

    /// The address that a search for the image at `url` goes to: see
    /// [`search_address`].
    pub fn build_url(&self, url: &str) -> (r: Result<String, Error>)
        ensures
            match search_address(self@, url.spec_bytes()) {
                Ok(address) => r matches Ok(built) && built@ == address,
                Err(e) => r matches Err(failure) && failure@ == e,
            },
    {
        let api_key = match &self.api_key {
            Some(key) => key,
            None => {
                return Err(Error::Generic(String::from_str("API key missing")));
            },
        };
        let encoded = percent_encode(url);
        match fill_template(
            "https://saucenao.com/search.php?url={url}&api_key={api_key}",
            ("url", "api_key"),
            encoded.as_str(),
            api_key.as_str(),
        ) {
            Ok(address) => {
                let fixed = Query::default().fixed_parameters();
                proof {
                    lemma_fixed_parameters();
                }
                Ok(address.concat(fixed.as_str()))
            },
            Err(_) => Err(Error::UnableToFormat),
        }
    }
}

/// One entry of a response.
#[derive(Debug, Clone, PartialEq, Eq)]
pub struct ApiItem {
    /// The score, as the entry's header writes it.
    pub similarity: String,
    /// The pages that show the match, where the entry's data names any.
    pub ext_urls: Option<Vec<String>>,
}

/// Mathematical content of an [`ApiItem`].
pub struct ApiItemView {
    pub similarity: Seq<char>,
    pub ext_urls: Option<Seq<Seq<char>>>,
}

impl View for ApiItem {
    type V = ApiItemView;

    open spec fn view(&self) -> ApiItemView {
        ApiItemView { similarity: self.similarity@, ext_urls: self.ext_urls.deep_view() }
    }
}

/// The content of each entry of `entries`.
pub open spec fn entry_views(entries: Seq<ApiItem>) -> Seq<ApiItemView> {
    Seq::new(entries.len(), |i: int| entries[i]@)
}

/// The entry that a member of `results` is: an object whose `header` holds
/// the text `similarity` and whose `data` is an object that may hold the
/// list of texts `ext_urls`.
pub open spec fn entry_of(json: JsonView) -> Option<ApiItemView> {
    match (member_of(json, "header"@), member_of(json, "data"@)) {
        (Some(header), Some(data)) => match (
            text_member(header, "similarity"@),
            optional(member_of(data, "ext_urls"@), |list: JsonView| text_list_of(list)),
        ) {
            (Some(similarity), Some(ext_urls)) => if data is Object {
                Some(ApiItemView { similarity, ext_urls })
            } else {
                None
            },
            _ => None,
        },
        _ => None,
    }
}

/// Reads an entry.
pub open spec fn entry_reader() -> spec_fn(JsonView) -> Option<ApiItemView> {
    |json: JsonView| entry_of(json)
}

/// The entries of a response: the members of its list `results`.
pub open spec fn response_of(json: JsonView) -> Option<Seq<ApiItemView>> {
    match member_of(json, "results"@) {
        Some(results) => match item_list_of(results) {
            Some(list) => every(list, entry_reader()),
            None => None,
        },
        None => None,
    }
}

/// What one entry yields: nothing unless it names a page; else its first
/// page with its score, or a failure where the score is no numeral.
pub open spec fn entry_outcome(entry: ApiItemView) -> Outcome {
    match entry.ext_urls {
        Some(links) => if links.len() > 0 {
            match parsed(entry.similarity) {
                Some(similarity) => Ok(Some(ItemView { link: links[0], similarity })),
                None => Err(ErrorView::UnableToConvertToFloat),
            }
        } else {
            Ok(None)
        },
        None => Ok(None),
    }
}

/// What each entry yields.
pub open spec fn entry_outcomes(entries: Seq<ApiItemView>) -> Seq<Outcome> {
    Seq::new(entries.len(), |i: int| entry_outcome(entries[i]))
}

/// The matches that a response body holds, in the order of the response.
pub open spec fn body_items(body: Seq<char>) -> Result<Seq<ItemView>, ErrorView> {
    match json_of(body) {
        Some(json) => match response_of(json) {
            Some(entries) => gathered(entry_outcomes(entries)),
            None => Err(ErrorView::FailedToParseIntoJson),
        },
        None => Err(ErrorView::FailedToParseIntoJson),
    }
}

impl SauceNao {
    /// The entry that a member of `results` is: see [`entry_of`].
    pub fn decode_entry(json: &Json) -> (entry: Option<ApiItem>)
        ensures
            match entry {
                Some(entry) => entry_of(json@) == Some(entry@),
                None => entry_of(json@) is None,
            },
    {
        let header = match json.member("header") {
            Some(header) => header,
            None => {
                return None;
            },
        };
        let data = match json.member("data") {
            Some(data) => data,
            None => {
                return None;
            },
        };
        let similarity = match header.text_member("similarity") {
            Some(similarity) => similarity,
            None => {
                return None;
            },
        };
        let ext_urls = match data.member("ext_urls") {
            None => None,
            Some(Json::Null) => None,
            Some(list) => match list.as_text_list() {
                Some(links) => Some(links),
                None => {
                    return None;
                },
            },
        };
        match data {
            Json::Object(_) => Some(ApiItem { similarity, ext_urls }),
            _ => None,
        }
    }

    /// The entries of a response: see [`response_of`].
    pub fn decode_response(json: &Json) -> (entries: Option<Vec<ApiItem>>)
        ensures
            match entries {
                Some(entries) => response_of(json@) == Some(entry_views(entries@)),
                None => response_of(json@) is None,
            },
    {
        let results = match json.member("results") {
            Some(results) => results,
            None => {
                return None;
            },
        };
        let list = match results.as_items() {
            Some(list) => list,
            None => {
                return None;
            },
        };
        let ghost all = item_list_of(results@)->0;
        let mut entries: Vec<ApiItem> = Vec::new();
        let mut k: usize = 0;
        assert(all.take(0) =~= Seq::<JsonView>::empty());
        assert(entry_views(entries@) =~= Seq::<ApiItemView>::empty());
        while k < list.len()
            invariant
                k <= list.len(),
                all.len() == list@.len(),
                response_of(json@) == every(all, entry_reader()),
                forall|i: int| 0 <= i < all.len() ==> all[i] == list@[i]@,
                every(all.take(k as int), entry_reader()) == Some(entry_views(entries@)),
            decreases list.len() - k,
        {
            assert(all.take(k + 1).drop_last() =~= all.take(k as int));
            match Self::decode_entry(&list[k]) {
                Some(entry) => {
                    let ghost before = entry_views(entries@);
                    entries.push(entry);
                    assert(entry_views(entries@) =~= before.push(entry@));
                },
                None => {
                    proof {
                        lemma_every_failure(all, entry_reader(), k + 1);
                    }
                    return None;
                },
            }
            k += 1;
        }
        assert(all.take(all.len() as int) =~= all);
        Some(entries)
    }

    /// The matches that the entries stand for, in the order of the
    /// response: see [`entry_outcome`].
    pub fn harvest_entries(url: &str, entries: &Vec<ApiItem>) -> (r: Result<Output, Error>)
        ensures
            match gathered(entry_outcomes(entry_views(entries@))) {
                Ok(items) => r matches Ok(output) && output@ == (OutputView {
                    original_url: url@,
                    items,
                }),
                Err(e) => r matches Err(failure) && failure@ == e,
            },
    {
        let ghost outcomes = entry_outcomes(entry_views(entries@));
        let mut items: Vec<Item> = Vec::new();
        let mut k: usize = 0;
        assert(outcomes.take(0) =~= Seq::<Outcome>::empty());
        assert(item_views(items@) =~= Seq::<ItemView>::empty());
        while k < entries.len()
            invariant
                k <= entries.len(),
                outcomes == entry_outcomes(entry_views(entries@)),
                gathered(outcomes.take(k as int)) == Ok::<Seq<ItemView>, ErrorView>(
                    item_views(items@),
                ),
            decreases entries.len() - k,
        {
            assert(outcomes.take(k + 1).drop_last() =~= outcomes.take(k as int));
            assert(outcomes.take(k + 1).last() == entry_outcome(entries@[k as int]@));
            let entry = &entries[k];
            match &entry.ext_urls {
                Some(links) => {
                    if links.len() > 0 {
                        match Similarity::parse(entry.similarity.as_str()) {
                            Ok(similarity) => {
                                let item = Item { link: links[0].clone(), similarity };
                                proof {
                                    lemma_item_views_push(items@, item);
                                }
                                items.push(item);
                            },
                            Err(e) => {
                                proof {
                                    lemma_gathered_failure(outcomes, k + 1);
                                }
                                return Err(e);
                            },
                        }
                    }
                },
                None => {},
            }
            k += 1;
        }
        assert(outcomes.take(outcomes.len() as int) =~= outcomes);
        Ok(Output { original_url: String::from_str(url), items })
    }

    /// The matches that a response body holds, for the image at `url`: see
    /// [`body_items`].
    pub fn harvest(url: &str, body: &str) -> (r: Result<Output, Error>)
        ensures
            match body_items(body@) {
                Ok(items) => r matches Ok(output) && output@ == (OutputView {
                    original_url: url@,
                    items,
                }),
                Err(e) => r matches Err(failure) && failure@ == e,
            },
    {
        let json = match Json::parse(body) {
            Some(json) => json,
            None => {
                return Err(Error::FailedToParseIntoJson);
            },
        };
        match Self::decode_response(&json) {
            Some(entries) => Self::harvest_entries(url, &entries),
            None => Err(Error::FailedToParseIntoJson),
        }
    }
}

/// The request that searches at `address`.
pub open spec fn search_request_at(address: Seq<char>) -> RequestView {
    RequestView {
        method: Method::Get,
        url: address,
        query: Seq::empty(),
        headers: seq![("Accept-Encoding"@, "utf-8"@)],
        timeout_seconds: None,
        image: None,
    }
}

impl Source for SauceNao {
    type Argument = Option<String>;

    open spec fn opening(&self, url: Seq<char>) -> Result<(RequestView, Phase), ErrorView> {
        match search_address(self@, vstd::utf8::encode_utf8(url)) {
            Ok(address) => Ok((search_request_at(address), Phase::Results)),
            Err(e) => Err(e),
        }
    }

    open spec fn reading(
        &self,
        url: Seq<char>,
        phase: Phase,
        response: ResponseView,
    ) -> ReadingView {
        ReadingView::Done(output_of(url, body_items(response.body)))
    }

    /// A backend with the key `argument`, or without one.
    fn create(argument: Option<String>) -> (r: Result<SauceNao, Error>)
        ensures
            r matches Ok(source) && source@ == argument.deep_view(),
    {
        Ok(SauceNao { api_key: argument })
    }

    fn open(&self, url: &str) -> (r: Result<(Request, Phase), Error>) {
        match self.build_url(url) {
            Ok(address) => {
                let query: Vec<(String, String)> = Vec::new();
                assert(query.deep_view() =~= Seq::<(Seq<char>, Seq<char>)>::empty());
                let mut headers: Vec<(String, String)> = Vec::new();
                headers.push(pair("Accept-Encoding", "utf-8"));
                assert(headers.deep_view() =~= seq![("Accept-Encoding"@, "utf-8"@)]);
                Ok(
                    (
                        Request {
                            method: Method::Get,
                            url: address,
                            query,
                            headers,
                            timeout_seconds: None,
                            image: None,
                        },
                        Phase::Results,
                    ),
                )
            },
            Err(e) => Err(e),
        }
    }

    fn read(&self, url: &str, phase: Phase, response: &Response) -> (reading: Reading) {
        Reading::Done(SauceNao::harvest(url, response.body.as_str()))
    }
}

} // verus!
