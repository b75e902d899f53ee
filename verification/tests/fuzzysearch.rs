use sauce_api::error::Error;
use sauce_api::json::Json;
use sauce_api::similarity::Similarity;
use sauce_api::source::{Item, Output, Phase, Reading, Source};
use sauce_api::source::fuzzysearch::{FuzzySearch, FuzzySearchOpts, MatchType};
use sauce_api::source::fuzzysearch::decode::{
    decode_detail, decode_details, decode_file, decode_files, decode_matches, decode_moment,
    decode_rating, decode_site, decode_small,
};
use sauce_api::source::fuzzysearch::opt_hex_u8::{
    deserialize, hex_decode, hex_encode, serialize,
};
use sauce_api::source::fuzzysearch::types::{
    E621File, File, FurAffinityFile, FurAffinityFileDetail, Matches, Rating, SiteInfo, Timestamp,
};
use sauce_api::source::ranking::{copy_item, rank};
use sauce_api::transport::{Method, Response};

fn score(numerator: i64, denominator: u128) -> Similarity {
    Similarity { numerator, denominator }
}

fn item(link: &str, similarity: Similarity) -> Item {
    Item { link: link.to_string(), similarity }
}

fn file(site_id: i64, site_info: Option<SiteInfo>, distance: Option<u64>) -> File {
    File {
        site_id,
        url: "https://cdn.example/image.png".to_string(),
        filename: "image.png".to_string(),
        artists: Some(vec!["someone".to_string(), "other".to_string()]),
        rating: None,
        posted_at: None,
        tags: None,
        sha256: None,
        hash: None,
        distance,
        site_info,
        searched_hash: None,
    }
}

fn pairs(list: &[(&str, &str)]) -> Vec<(String, String)> {
    list.iter().map(|(n, v)| (n.to_string(), v.to_string())).collect()
}

#[test]
fn pages_are_routed_by_site() {
    let fa = file(123, Some(SiteInfo::FurAffinity(FurAffinityFile { file_id: 9 })), None);
    assert_eq!(fa.url(), Ok("https://www.furaffinity.net/view/123/".to_string()));
    assert_eq!(fa.site_name(), "FurAffinity");
    assert_eq!(fa.id(), "FurAffinity-123");
    let e621 = file(-5, Some(SiteInfo::E621(E621File { sources: None })), None);
    assert_eq!(e621.url(), Ok("https://e621.net/posts/-5".to_string()));
    assert_eq!(e621.site_name(), "e621");
    assert_eq!(e621.id(), "e621--5");
    let twitter = file(1234567890123456789, Some(SiteInfo::Twitter), None);
    assert_eq!(
        twitter.url(),
        Ok("https://twitter.com/someone/status/1234567890123456789".to_string())
    );
    assert_eq!(twitter.site_name(), "Twitter");
    assert_eq!(twitter.id(), "Twitter-1234567890123456789");
    let weasyl = file(0, Some(SiteInfo::Weasyl), None);
    assert_eq!(weasyl.url(), Ok("https://www.weasyl.com/view/0/".to_string()));
    assert_eq!(weasyl.site_name(), "Weasyl");
    assert_eq!(weasyl.id(), "Weasyl-0");
}

#[test]
fn no_link_without_a_site_or_without_an_artist_on_twitter() {
    let failure = Err(Error::Generic("Search result was missing SiteInfo".to_string()));
    assert_eq!(file(1, None, None).url(), failure);
    let mut twitter = file(1, Some(SiteInfo::Twitter), None);
    twitter.artists = None;
    assert_eq!(twitter.url(), failure);
    twitter.artists = Some(vec![]);
    assert_eq!(twitter.url(), failure);
    let mut fa = file(1, Some(SiteInfo::FurAffinity(FurAffinityFile { file_id: 9 })), None);
    fa.artists = None;
    assert_eq!(fa.url(), Ok("https://www.furaffinity.net/view/1/".to_string()));
}

#[test]
fn requests_carry_the_key_and_go_to_the_endpoint() {
    let source = FuzzySearch::new("secret".to_string());
    let request = source.lookup_url("https://a.example/x.png");
    assert_eq!(request.method, Method::Get);
    assert_eq!(request.url, "https://api-next.fuzzysearch.net/v1/url");
    assert_eq!(request.query, pairs(&[("url", "https://a.example/x.png")]));
    assert_eq!(request.headers, pairs(&[("x-api-key", "secret")]));
    assert_eq!(request.timeout_seconds, None);
    assert_eq!(request.image, None);

    let request = source.lookup_furaffinity_file("https://d.furaffinity.net/art/x.png");
    assert_eq!(request.method, Method::Get);
    assert_eq!(request.url, "https://api-next.fuzzysearch.net/v1/file/furaffinity");
    assert_eq!(request.query, pairs(&[("search", "https://d.furaffinity.net/art/x.png")]));
    assert_eq!(request.headers, pairs(&[("x-api-key", "secret")]));
}

#[test]
fn hashes_are_listed_with_commas() {
    let source = FuzzySearch::new("k".to_string());
    let request = source.lookup_hashes(&[1, -2, 9223372036854775807, i64::MIN], Some(3));
    assert_eq!(request.method, Method::Get);
    assert_eq!(request.url, "https://api-next.fuzzysearch.net/v1/hashes");
    assert_eq!(
        request.query,
        pairs(&[
            ("hash", "1,-2,9223372036854775807,-9223372036854775808"),
            ("distance", "3")
        ])
    );
    assert_eq!(source.lookup_hashes(&[7], None).query, pairs(&[("hash", "7")]));
    assert_eq!(source.lookup_hashes(&[], None).query, pairs(&[("hash", "")]));
    assert_eq!(
        source.lookup_hashes(&[], Some(-1)).query,
        pairs(&[("hash", ""), ("distance", "-1")])
    );
}

#[test]
fn an_image_is_posted_with_the_way_of_matching() {
    let source = FuzzySearch::new_with_opts(FuzzySearchOpts {
        endpoint: Some("http://localhost:8080".to_string()),
        api_key: "k".to_string(),
    });
    let request = source.image_search(&[1, 2, 3], MatchType::Exact, None);
    assert_eq!(request.method, Method::Post);
    assert_eq!(request.url, "http://localhost:8080/image");
    assert_eq!(request.query, pairs(&[("type", "exact")]));
    assert_eq!(request.headers, pairs(&[("x-api-key", "k")]));
    assert_eq!(request.image, Some(vec![1, 2, 3]));
    let request = source.image_search(&[], MatchType::Force, Some(10));
    assert_eq!(request.query, pairs(&[("type", "force"), ("distance", "10")]));
    assert_eq!(request.image, Some(vec![]));
    let request = source.image_search(&[0], MatchType::Close, Some(0));
    assert_eq!(request.query, pairs(&[("type", "close"), ("distance", "0")]));
}

#[test]
fn the_endpoint_is_the_usual_one_unless_another_is_given() {
    let usual = FuzzySearch::new_with_opts(FuzzySearchOpts {
        endpoint: None,
        api_key: "k".to_string(),
    });
    assert_eq!(usual, FuzzySearch::new("k".to_string()));
    assert_eq!(usual.lookup_url("u").url, "https://api-next.fuzzysearch.net/v1/url");
    let created = FuzzySearch::create("k".to_string()).unwrap();
    assert_eq!(created.lookup_url("u").url, "https://api.fuzzysearch.net/url");
    assert_eq!(created.lookup_url("u").headers, pairs(&[("x-api-key", "k")]));
}

#[test]
fn statuses_are_sorted_into_four_causes() {
    assert_eq!(
        FuzzySearch::classify(400),
        Error::Generic("URL invalid or too large".to_string())
    );
    assert_eq!(
        FuzzySearch::classify(401),
        Error::Generic("API key invalid or missing".to_string())
    );
    assert_eq!(
        FuzzySearch::classify(429),
        Error::Generic("Rate limit exhausted".to_string())
    );
    assert_eq!(
        FuzzySearch::classify(500),
        Error::Generic("Unexpected status code: 500".to_string())
    );
    assert_eq!(
        FuzzySearch::classify(0),
        Error::Generic("Unexpected status code: 0".to_string())
    );
    assert_eq!(
        FuzzySearch::classify(65535),
        Error::Generic("Unexpected status code: 65535".to_string())
    );
}

#[test]
fn records_become_items_in_rising_order_of_their_key() {
    let fa = |id: i64, distance: Option<u64>| {
        file(id, Some(SiteInfo::FurAffinity(FurAffinityFile { file_id: 1 })), distance)
    };
    let files = vec![fa(1, None), fa(2, Some(3)), fa(3, Some(0)), fa(4, Some(1)), fa(5, Some(3))];
    let out = FuzzySearch::harvest("u", &files).unwrap();
    assert_eq!(out.original_url, "u");
    assert_eq!(
        out.items,
        vec![
            item("https://www.furaffinity.net/view/2/", score(100, 400)),
            item("https://www.furaffinity.net/view/5/", score(100, 400)),
            item("https://www.furaffinity.net/view/4/", score(100, 200)),
            item("https://www.furaffinity.net/view/1/", score(100, 100)),
            item("https://www.furaffinity.net/view/3/", score(100, 100)),
        ]
    );
    let keys: Vec<i32> = out.items.iter().map(|i| i.similarity.percent_key()).collect();
    assert_eq!(keys, vec![25, 25, 50, 100, 100]);
    assert_eq!(
        FuzzySearch::harvest("u", &vec![]),
        Ok(Output { original_url: "u".to_string(), items: vec![] })
    );
}

#[test]
fn distances_with_the_same_key_keep_the_order_of_the_response() {
    let fa = |id: i64, distance: u64| {
        file(id, Some(SiteInfo::FurAffinity(FurAffinityFile { file_id: 1 })), Some(distance))
    };
    // 100 / (d + 1) truncates to 1 for d in 50..=99 and to 0 from 100 on
    let files = vec![fa(1, 99), fa(2, 150), fa(3, 50), fa(4, 100), fa(5, 75)];
    let out = FuzzySearch::harvest("u", &files).unwrap();
    let links: Vec<&str> = out.items.iter().map(|i| i.link.as_str()).collect();
    assert_eq!(
        links,
        vec![
            "https://www.furaffinity.net/view/2/",
            "https://www.furaffinity.net/view/4/",
            "https://www.furaffinity.net/view/1/",
            "https://www.furaffinity.net/view/3/",
            "https://www.furaffinity.net/view/5/",
        ]
    );
}

#[test]
fn a_record_without_its_site_fails_the_harvest() {
    let failure = Err(Error::Generic("Search result was missing SiteInfo".to_string()));
    let good = file(1, Some(SiteInfo::Weasyl), None);
    assert_eq!(FuzzySearch::harvest("u", &vec![good.clone(), file(2, None, None)]), failure);
    assert_eq!(
        FuzzySearch::harvest("u", &vec![file(2, None, None), good.clone(), good.clone()]),
        failure
    );
    let mut twitter = file(3, Some(SiteInfo::Twitter), None);
    twitter.artists = None;
    assert_eq!(FuzzySearch::harvest("u", &vec![good, twitter]), failure);
}

#[test]
fn rank_is_stable_and_leaves_its_input() {
    let items = vec![
        item("a", score(1, 2)),
        item("b", score(-1, 1)),
        item("c", score(505, 1000)),
        item("d", score(1, 3)),
        item("e", score(-1, 1)),
        item("f", score(509, 1000)),
        item("g", score(1, 0)),
        item("h", score(-1, 0)),
    ];
    let ranked = rank(&items);
    let links: Vec<&str> = ranked.iter().map(|i| i.link.as_str()).collect();
    assert_eq!(links, vec!["h", "b", "e", "d", "a", "c", "f", "g"]);
    assert_eq!(items.len(), 8);
    assert_eq!(rank(&vec![]), vec![]);
    assert_eq!(rank(&vec![item("x", score(0, 1))]), vec![item("x", score(0, 1))]);
    assert_eq!(copy_item(&items[2]), items[2]);
}

#[test]
fn bytes_are_written_as_lower_case_hexadecimal() {
    assert_eq!(serialize(&None), None);
    assert_eq!(serialize(&Some(vec![])), Some("".to_string()));
    assert_eq!(
        serialize(&Some(vec![0, 1, 15, 16, 171, 255])),
        Some("00010f10abff".to_string())
    );
    assert_eq!(deserialize(None), Ok(None));
    assert_eq!(deserialize(Some("".to_string())), Ok(Some(vec![])));
    assert_eq!(
        deserialize(Some("00010f10abff".to_string())),
        Ok(Some(vec![0, 1, 15, 16, 171, 255]))
    );
    assert_eq!(deserialize(Some("ABcdEF".to_string())), Ok(Some(vec![171, 205, 239])));
    for text in ["0", "abc", "0g", "g0", " 00", "00 ", "0x00", "\u{e9}"] {
        assert_eq!(
            deserialize(Some(text.to_string())),
            Err(Error::FailedToParseIntoJson),
            "{:?}",
            text
        );
    }
    let bytes: Vec<u8> = (0..=255).collect();
    let mut expected = String::new();
    for b in &bytes {
        expected.push_str(&format!("{:02x}", b));
    }
    assert_eq!(serialize(&Some(bytes.clone())), Some(expected));
    assert_eq!(deserialize(serialize(&Some(bytes.clone()))), Ok(Some(bytes)));
}

const RECORD: &str = r#"{
    "site_id": 31549776,
    "url": "https://d.furaffinity.net/art/a/1/1.png",
    "filename": "1.png",
    "artists": ["a"],
    "rating": "general",
    "posted_at": "2019-05-23T18:25:43.511Z",
    "tags": ["x", "y"],
    "sha256": "00ff",
    "hash": -4660628210372154566,
    "distance": 2,
    "site": "FurAffinity",
    "site_info": {"file_id": 1558632327},
    "searched_hash": 5,
    "extra": [1, 2]
}"#;

#[test]
fn a_record_is_read_member_by_member() {
    let json = Json::parse(RECORD).unwrap();
    assert_eq!(
        decode_file(&json),
        Some(File {
            site_id: 31549776,
            url: "https://d.furaffinity.net/art/a/1/1.png".to_string(),
            filename: "1.png".to_string(),
            artists: Some(vec!["a".to_string()]),
            rating: Some(Rating::General),
            posted_at: Some(Timestamp { seconds: 1558635943, nanoseconds: 511000000 }),
            tags: Some(vec!["x".to_string(), "y".to_string()]),
            sha256: Some(vec![0, 255]),
            hash: Some(-4660628210372154566),
            distance: Some(2),
            site_info: Some(SiteInfo::FurAffinity(FurAffinityFile { file_id: 1558632327 })),
            searched_hash: Some(5),
        })
    );
}

#[test]
fn members_may_be_left_out_but_for_four() {
    let least = r#"{"site_id": 1, "url": "u", "filename": "f", "sha256": null}"#;
    assert_eq!(
        decode_file(&Json::parse(least).unwrap()),
        Some(File {
            site_id: 1,
            url: "u".to_string(),
            filename: "f".to_string(),
            artists: None,
            rating: None,
            posted_at: None,
            tags: None,
            sha256: None,
            hash: None,
            distance: None,
            site_info: None,
            searched_hash: None,
        })
    );
    let nulls = r#"{"site_id": 1, "url": "u", "filename": "f", "sha256": null, "artists": null, "rating": null, "posted_at": null, "tags": null, "hash": null, "distance": null, "searched_hash": null, "site": null}"#;
    assert_eq!(
        decode_file(&Json::parse(nulls).unwrap()),
        decode_file(&Json::parse(least).unwrap())
    );
    for lacking in [
        r#"{"url": "u", "filename": "f", "sha256": null}"#,
        r#"{"site_id": 1, "filename": "f", "sha256": null}"#,
        r#"{"site_id": 1, "url": "u", "sha256": null}"#,
        r#"{"site_id": 1, "url": "u", "filename": "f"}"#,
        r#"{"site_id": "1", "url": "u", "filename": "f", "sha256": null}"#,
        r#"{"site_id": 1.5, "url": "u", "filename": "f", "sha256": null}"#,
        r#"{"site_id": 9223372036854775808, "url": "u", "filename": "f", "sha256": null}"#,
        r#"{"site_id": 1, "url": "u", "filename": "f", "sha256": "0"}"#,
        r#"{"site_id": 1, "url": "u", "filename": "f", "sha256": 7}"#,
        r#"{"site_id": 1, "url": "u", "filename": "f", "sha256": null, "artists": "a"}"#,
        r#"{"site_id": 1, "url": "u", "filename": "f", "sha256": null, "rating": "safe"}"#,
        r#"{"site_id": 1, "url": "u", "filename": "f", "sha256": null, "posted_at": "yesterday"}"#,
        r#"{"site_id": 1, "url": "u", "filename": "f", "sha256": null, "tags": [1]}"#,
        r#"{"site_id": 1, "url": "u", "filename": "f", "sha256": null, "hash": "1"}"#,
        r#"{"site_id": 1, "url": "u", "filename": "f", "sha256": null, "distance": -1}"#,
        r#"{"site_id": 1, "url": "u", "filename": "f", "sha256": null, "searched_hash": 0.5}"#,
        r#"[1, "u", "f", null]"#,
        r#""text""#,
    ] {
        assert_eq!(decode_file(&Json::parse(lacking).unwrap()), None, "{}", lacking);
    }
}

#[test]
fn a_site_that_cannot_be_read_counts_as_no_site() {
    let site = |text: &str| decode_site(&Json::parse(text).unwrap());
    assert_eq!(
        site(r#"{"site": "FurAffinity", "site_info": {"file_id": 7}}"#),
        Some(SiteInfo::FurAffinity(FurAffinityFile { file_id: 7 }))
    );
    assert_eq!(
        site(r#"{"site": "e621", "site_info": {"sources": ["a", "b"]}}"#),
        Some(SiteInfo::E621(E621File { sources: Some(vec!["a".to_string(), "b".to_string()]) }))
    );
    assert_eq!(
        site(r#"{"site": "e621", "site_info": {}}"#),
        Some(SiteInfo::E621(E621File { sources: None }))
    );
    assert_eq!(site(r#"{"site": "Twitter"}"#), Some(SiteInfo::Twitter));
    assert_eq!(site(r#"{"site": "Twitter", "site_info": null}"#), Some(SiteInfo::Twitter));
    assert_eq!(site(r#"{"site": "Weasyl"}"#), Some(SiteInfo::Weasyl));
    for unreadable in [
        r#"{}"#,
        r#"{"site": "twitter"}"#,
        r#"{"site": "E621", "site_info": {}}"#,
        r#"{"site": "FurAffinity"}"#,
        r#"{"site": "FurAffinity", "site_info": {}}"#,
        r#"{"site": "FurAffinity", "site_info": {"file_id": 2147483648}}"#,
        r#"{"site": "FurAffinity", "site_info": {"file_id": "7"}}"#,
        r#"{"site": "e621"}"#,
        r#"{"site": "e621", "site_info": []}"#,
        r#"{"site": "e621", "site_info": {"sources": "a"}}"#,
        r#"{"site": "Twitter", "site_info": {"x": 1}}"#,
        r#"{"site": "Weasyl", "site_info": 1}"#,
        r#"{"site": 1}"#,
    ] {
        assert_eq!(site(unreadable), None, "{}", unreadable);
    }
    let record = r#"{"site_id": 1, "url": "u", "filename": "f", "sha256": null, "site": "Nowhere"}"#;
    assert_eq!(decode_file(&Json::parse(record).unwrap()).unwrap().site_info, None);
}

#[test]
fn ratings_and_moments() {
    let text = |s: &str| Json::Text(s.to_string());
    assert_eq!(decode_rating(&text("general")), Some(Rating::General));
    assert_eq!(decode_rating(&text("mature")), Some(Rating::Mature));
    assert_eq!(decode_rating(&text("adult")), Some(Rating::Adult));
    assert_eq!(decode_rating(&text("Adult")), None);
    assert_eq!(decode_rating(&Json::Null), None);
    assert_eq!(
        decode_moment(&text("1970-01-01T00:00:00Z")),
        Some(Timestamp { seconds: 0, nanoseconds: 0 })
    );
    assert_eq!(
        decode_moment(&text("2000-01-01T01:00:00.5+01:00")),
        Some(Timestamp { seconds: 946684800, nanoseconds: 500000000 })
    );
    assert_eq!(
        decode_moment(&text("1969-12-31T23:59:59Z")),
        Some(Timestamp { seconds: -1, nanoseconds: 0 })
    );
    assert_eq!(decode_moment(&text("2000-01-01")), None);
    assert_eq!(decode_moment(&text("")), None);
    assert_eq!(decode_moment(&Json::Bool(true)), None);
}

#[test]
fn a_body_is_read_decoded_and_ranked() {
    let body = format!(
        r#"[{}, {{"site_id": 7, "url": "u", "filename": "f", "sha256": null, "site": "Weasyl", "distance": 9}}, {{"site_id": 8, "url": "u", "filename": "f", "sha256": null, "site": "e621", "site_info": {{"sources": []}}}}]"#,
        RECORD
    );
    assert_eq!(
        decode_files(&Json::parse(&body).unwrap()).map(|files| files.len()),
        Some(3)
    );
    assert_eq!(
        FuzzySearch::harvest_body("u", &body),
        Ok(Output {
            original_url: "u".to_string(),
            items: vec![
                item("https://www.weasyl.com/view/7/", score(100, 1000)),
                item("https://www.furaffinity.net/view/31549776/", score(100, 300)),
                item("https://e621.net/posts/8", score(100, 100)),
            ],
        })
    );
    let refused = Err(Error::FailedToParseIntoJson);
    assert_eq!(FuzzySearch::harvest_body("u", ""), refused);
    assert_eq!(FuzzySearch::harvest_body("u", "{}"), refused);
    assert_eq!(FuzzySearch::harvest_body("u", "[{}]"), refused);
    assert_eq!(
        FuzzySearch::harvest_body("u", "[]"),
        Ok(Output { original_url: "u".to_string(), items: vec![] })
    );
    assert_eq!(
        FuzzySearch::harvest_body(
            "u",
            r#"[{"site_id": 1, "url": "u", "filename": "f", "sha256": null}]"#
        ),
        Err(Error::Generic("Search result was missing SiteInfo".to_string()))
    );
}

#[test]
fn a_status_other_than_success_ends_the_lookup() {
    let source = FuzzySearch::create("k".to_string()).unwrap();
    let (request, phase) = source.open("https://a/x.png").unwrap();
    assert_eq!(phase, Phase::Results);
    assert_eq!(request, source.lookup_url("https://a/x.png"));
    let answer = |status: u16, body: &str| Response {
        status,
        content_type: None,
        body: body.to_string(),
    };
    assert_eq!(
        source.read("u", Phase::Results, &answer(429, "[]")),
        Reading::Done(Err(Error::Generic("Rate limit exhausted".to_string())))
    );
    assert_eq!(
        source.read("u", Phase::Results, &answer(199, "[]")),
        Reading::Done(Err(Error::Generic("Unexpected status code: 199".to_string())))
    );
    assert_eq!(
        source.read("u", Phase::Results, &answer(300, "[]")),
        Reading::Done(Err(Error::Generic("Unexpected status code: 300".to_string())))
    );
    assert_eq!(
        source.read("u", Phase::Results, &answer(200, "[]")),
        Reading::Done(Ok(Output { original_url: "u".to_string(), items: vec![] }))
    );
    assert_eq!(
        source.read("u", Phase::Results, &answer(299, "oops")),
        Reading::Done(Err(Error::FailedToParseIntoJson))
    );
}

#[test]
fn the_other_records_hold_what_they_are_given() {
    let detail = FurAffinityFileDetail {
        artist: Some("a".to_string()),
        deleted: false,
        file_id: Some(1),
        file_size: None,
        filename: None,
        hash: None,
        hash_str: None,
        id: 7,
        posted_at: Some(Timestamp { seconds: 1, nanoseconds: 2 }),
        rating: Some(Rating::Adult),
        sha256: None,
        tags: vec![],
        updated_at: None,
        url: None,
    };
    assert_eq!(detail.clone(), detail);
    let matches = Matches { hash: 5, matches: vec![file(1, None, None)] };
    assert_eq!(matches.matches[0].site_id, 1);
    assert_ne!(MatchType::Close, MatchType::Exact);
}

#[test]
fn a_detailed_record_is_read_member_by_member() {
    let full = r#"{
        "artist": "a", "deleted": true, "file_id": 1, "file_size": 2048, "filename": "f.png",
        "hash": -3, "hash_str": "-3", "id": 7, "posted_at": "2020-02-02T02:02:02Z",
        "rating": "mature", "sha256": "ab", "tags": ["t"], "updated_at": null, "url": "u"
    }"#;
    assert_eq!(
        decode_detail(&Json::parse(full).unwrap()),
        Some(FurAffinityFileDetail {
            artist: Some("a".to_string()),
            deleted: true,
            file_id: Some(1),
            file_size: Some(2048),
            filename: Some("f.png".to_string()),
            hash: Some(-3),
            hash_str: Some("-3".to_string()),
            id: 7,
            posted_at: Some(Timestamp { seconds: 1580608922, nanoseconds: 0 }),
            rating: Some(Rating::Mature),
            sha256: Some(vec![171]),
            tags: vec!["t".to_string()],
            updated_at: None,
            url: Some("u".to_string()),
        })
    );
    let least = r#"{"deleted": false, "id": -1, "sha256": null, "tags": []}"#;
    let detail = decode_detail(&Json::parse(least).unwrap()).unwrap();
    assert_eq!(detail.id, -1);
    assert_eq!(detail.artist, None);
    assert_eq!(detail.tags, Vec::<String>::new());
    for lacking in [
        r#"{"id": -1, "sha256": null, "tags": []}"#,
        r#"{"deleted": false, "sha256": null, "tags": []}"#,
        r#"{"deleted": false, "id": -1, "tags": []}"#,
        r#"{"deleted": false, "id": -1, "sha256": null}"#,
        r#"{"deleted": 0, "id": -1, "sha256": null, "tags": []}"#,
        r#"{"deleted": false, "id": 2147483648, "sha256": null, "tags": []}"#,
        r#"{"deleted": false, "id": -1, "sha256": null, "tags": null}"#,
        r#"{"deleted": false, "id": -1, "sha256": null, "tags": [], "file_size": "big"}"#,
        r#"{"deleted": false, "id": -1, "sha256": null, "tags": [], "url": 1}"#,
    ] {
        assert_eq!(decode_detail(&Json::parse(lacking).unwrap()), None, "{}", lacking);
    }
    let list = format!("[{}, {}]", least, full);
    assert_eq!(
        decode_details(&Json::parse(&list).unwrap()).map(|d| d.len()),
        Some(2)
    );
    assert_eq!(decode_details(&Json::parse("[1]").unwrap()), None);
    assert_eq!(decode_details(&Json::parse("{}").unwrap()), None);
    assert_eq!(decode_details(&Json::parse("[]").unwrap()), Some(vec![]));
}

#[test]
fn matches_hold_a_hash_and_records() {
    let body = r#"{"hash": 42, "matches": [{"site_id": 1, "url": "u", "filename": "f", "sha256": null}]}"#;
    let found = decode_matches(&Json::parse(body).unwrap()).unwrap();
    assert_eq!(found.hash, 42);
    assert_eq!(found.matches.len(), 1);
    assert_eq!(found.matches[0].site_id, 1);
    for lacking in [
        r#"{"matches": []}"#,
        r#"{"hash": 42}"#,
        r#"{"hash": "42", "matches": []}"#,
        r#"{"hash": 42, "matches": [{}]}"#,
        r#"{"hash": 42, "matches": {}}"#,
    ] {
        assert_eq!(decode_matches(&Json::parse(lacking).unwrap()), None, "{}", lacking);
    }
}

#[test]
fn small_numbers_fit_32_bits() {
    let number = |text: &str| decode_small(&Json::parse(text).unwrap());
    assert_eq!(number("0"), Some(0));
    assert_eq!(number("2147483647"), Some(i32::MAX));
    assert_eq!(number("-2147483648"), Some(i32::MIN));
    assert_eq!(number("2147483648"), None);
    assert_eq!(number("-2147483649"), None);
    assert_eq!(number("1.0"), None);
    assert_eq!(number("\"1\""), None);
}

#[test]
fn hexadecimal_agrees_with_hex() {
    let mut samples: Vec<Vec<u8>> = vec![vec![], vec![0], vec![255], (0..=255).collect()];
    for seed in 0..64u32 {
        let bytes: Vec<u8> = (0..seed).map(|i| (i.wrapping_mul(2654435761) >> 7) as u8).collect();
        samples.push(bytes);
    }
    for bytes in &samples {
        assert_eq!(hex_encode(bytes), hex::encode(bytes));
        assert_eq!(hex_decode(&hex::encode(bytes)), Some(bytes.clone()));
        assert_eq!(hex_decode(&hex::encode_upper(bytes)), Some(bytes.clone()));
    }
    let mut texts: Vec<String> = vec![
        "".to_string(),
        "0".to_string(),
        "00".to_string(),
        "aBcD".to_string(),
        "0g".to_string(),
        "g0".to_string(),
        "00 ".to_string(),
        "\u{e9}\u{e9}".to_string(),
        "\u{e9}0".to_string(),
        "0\u{1f600}".to_string(),
    ];
    for a in 0..0x80u32 {
        for b in [0x30u32, 0x41, 0x66, 0x67, 0x2f, 0x3a, 0x40, 0x47, 0x60] {
            let mut text = String::new();
            text.push(char::from_u32(a).unwrap());
            text.push(char::from_u32(b).unwrap());
            texts.push(text.clone());
            texts.push(text.chars().rev().collect());
        }
    }
    for text in &texts {
        assert_eq!(hex_decode(text), hex::decode(text).ok(), "{:?}", text);
    }
}

#[test]
fn responses_to_lookups_are_read_by_status_and_body() {
    let answer = |status: u16, body: &str| Response {
        status,
        content_type: None,
        body: body.to_string(),
    };
    let record = r#"[{"site_id": 7, "url": "u", "filename": "f", "sha256": null, "site": "Weasyl"}]"#;
    let files = FuzzySearch::read_files(&answer(200, record)).unwrap();
    assert_eq!(files.len(), 1);
    assert_eq!(files[0].url(), Ok("https://www.weasyl.com/view/7/".to_string()));
    assert_eq!(FuzzySearch::read_files(&answer(204, "[]")), Ok(vec![]));
    assert_eq!(
        FuzzySearch::read_files(&answer(401, record)),
        Err(Error::Generic("API key invalid or missing".to_string()))
    );
    assert_eq!(
        FuzzySearch::read_files(&answer(200, "{}")),
        Err(Error::FailedToParseIntoJson)
    );
    let detail = r#"[{"deleted": false, "id": 3, "sha256": "ff", "tags": ["a"]}]"#;
    let details = FuzzySearch::read_details(&answer(200, detail)).unwrap();
    assert_eq!(details.len(), 1);
    assert_eq!(details[0].id, 3);
    assert_eq!(details[0].sha256, Some(vec![255]));
    assert_eq!(
        FuzzySearch::read_details(&answer(400, detail)),
        Err(Error::Generic("URL invalid or too large".to_string()))
    );
    assert_eq!(
        FuzzySearch::read_details(&answer(200, record)),
        Err(Error::FailedToParseIntoJson)
    );
}
