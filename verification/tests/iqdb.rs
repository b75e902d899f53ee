use sauce_api::dom::{Document, Node, NodeData};
use sauce_api::error::Error;
use sauce_api::similarity::Similarity;
use sauce_api::source::{Item, Output, Phase, Reading, Source};
use sauce_api::source::iqdb::{IQDB, Iqdb, normalize_link, read_score};
use sauce_api::transport::{Method, Response};

const TEST_URL: &str = "https://i.imgur.com/vRsNUMS.jpg";

fn score(numerator: i64, denominator: u128) -> Similarity {
    Similarity { numerator, denominator }
}

fn item(link: &str, similarity: Similarity) -> Item {
    Item { link: link.to_string(), similarity }
}

fn candidate(kind: &str, link: &str, site: &str, score: &str) -> String {
    format!(
        "<div><table><tr><th>{}</th></tr><tr><td class='image'><a href=\"{}\"><img src='/t.jpg' alt='t'></a></td></tr><tr><td><img alt='icon' src='/i.ico'> {}</td></tr><tr><td>600×800 [Safe]</td></tr><tr><td>{}</td></tr></table></div>",
        kind, link, site, score
    )
}

fn further(link: &str, score: &str) -> String {
    format!(
        "<div><table><tr><td class='image'><a href=\"{}\"><img src='/t.jpg'></a></td></tr><tr><td>site</td></tr><tr><td>600×800 [Safe]</td></tr><tr><td>{}</td></tr></table></div>",
        link, score
    )
}

fn page(main: &[String], more: Option<&[String]>) -> String {
    let mut body = String::from(
        "<!DOCTYPE html><html><head><title>t</title></head><body><div id='pages' class='pages'>\
<div><table><tr><th>Your image</th></tr><tr><td class='image'><img src='/thu/x.jpg'></td></tr><tr><td>x.jpg</td></tr><tr><td>600×800</td></tr><tr><td>53 KB</td></tr></table></div>",
    );
    for c in main {
        body.push_str(c);
    }
    body.push_str("</div>");
    if let Some(more) = more {
        body.push_str("<div id='more1'><div class='pages'>");
        for c in more {
            body.push_str(c);
        }
        body.push_str("</div></div>");
    }
    body.push_str("</body></html>");
    body
}

#[test]
fn iqdb_build_url_test() {
    let src: IQDB = Iqdb;
    let res = src.build_url(TEST_URL);
    assert!(res.is_ok());
    let res = res.unwrap();
    assert_eq!(
        res.as_str(),
        "https://iqdb.org/?url=https://i.imgur.com/vRsNUMS.jpg"
    );
}

#[test]
fn iqdb_find_results() {
    let body = page(
        &[
            candidate(
                "Best match",
                "https://anime-pictures.net/pictures/view_post/262043?lang=en",
                "Anime-Pictures",
                "44% similarity",
            ),
            candidate(
                "Additional match",
                "http://e-shuushuu.net/image/770593/",
                "e-shuushuu",
                "43% similarity",
            ),
            candidate(
                "Possible match",
                "//yande.re/post/show/331667",
                "yande.re",
                "43% similarity",
            ),
        ],
        None,
    );
    let res = Iqdb::harvest(TEST_URL, &body);
    assert!(res.is_ok());
    let res = res.unwrap();
    assert_eq!(res.original_url.as_str(), TEST_URL);
    assert_eq!(
        res.items,
        vec![
            item(
                "https://anime-pictures.net/pictures/view_post/262043?lang=en",
                score(44, 100)
            ),
            item("http://e-shuushuu.net/image/770593/", score(43, 100)),
            item("https://yande.re/post/show/331667", score(43, 100)),
        ]
    );
}

#[test]
fn the_first_candidate_is_the_image_that_was_asked_about() {
    let body = "<div id=pages><div><table><tr><th>Your image</th></tr><tr><td class=image><a href='/self'>x</a></td></tr><tr><td>a</td></tr><tr><td>b</td></tr><tr><td>50% similarity</td></tr></table></div></div>";
    let out = Iqdb::harvest("u", body).unwrap();
    assert_eq!(out.items, vec![]);
}

#[test]
fn a_table_that_has_not_five_rows_gives_no_score() {
    let four = "<div><table><tr><th>Best match</th></tr><tr><td class='image'><a href='//a.example/1'>x</a></td></tr><tr><td>site</td></tr><tr><td>96% similarity</td></tr></table></div>".to_string();
    let six = "<div><table><tr><th>Best match</th></tr><tr><td class='image'><a href='https://a.example/2'>x</a></td></tr><tr><td>site</td></tr><tr><td>size</td></tr><tr><td>96% similarity</td></tr><tr><td>more</td></tr></table></div>".to_string();
    let broken = "<div><table><tr><th>Best match</th></tr><tr><td class='image'><a href='https://a.example/3'>x</a></td></tr><tr><td>not a number</td></tr></table></div>".to_string();
    let out = Iqdb::harvest("u", &page(&[four, six, broken], None)).unwrap();
    assert_eq!(
        out.items,
        vec![
            item("https://a.example/1", Similarity::unknown()),
            item("https://a.example/2", Similarity::unknown()),
            item("https://a.example/3", Similarity::unknown()),
        ]
    );
    assert!(out.items.iter().all(|i| i.similarity == score(-1, 1)));
}

#[test]
fn a_score_that_is_no_number_fails_in_a_table_of_five_rows() {
    let good = candidate("Best match", "https://a/1", "a", "96% similarity");
    let bad = candidate("Additional match", "https://a/2", "a", "high similarity");
    let res = Iqdb::harvest("u", &page(&[good.clone(), bad.clone(), good.clone()], None));
    assert_eq!(res, Err(Error::UnableToConvertToFloat));
    let spaced = candidate("Additional match", "https://a/2", "a", " 96% similarity");
    assert_eq!(
        Iqdb::harvest("u", &page(&[spaced], None)),
        Err(Error::UnableToConvertToFloat)
    );
}

#[test]
fn candidates_without_a_link_are_passed_over() {
    let no_match = "<div class='nomatch'><table><tr><th>No relevant matches</th></tr><tr><td class='image'>none</td></tr><tr><td>a</td></tr><tr><td>b</td></tr><tr><td>c</td></tr></table></div>".to_string();
    let no_href = "<div><table><tr><th>Best match</th></tr><tr><td class='image'><a name='x'>x</a></td></tr><tr><td>a</td></tr><tr><td>b</td></tr><tr><td>oops</td></tr></table></div>".to_string();
    let empty = candidate("Best match", "", "a", "oops");
    let no_image = "<div><table><tr><th>Best match</th></tr><tr><td><a href='https://a/9'>x</a></td></tr><tr><td>a</td></tr><tr><td>b</td></tr><tr><td>oops</td></tr></table></div>".to_string();
    let good = candidate("Best match", "https://a/1", "a", "12.5% similarity");
    let out = Iqdb::harvest("u", &page(&[no_match, no_href, empty, no_image, good], None)).unwrap();
    assert_eq!(out.items, vec![item("https://a/1", score(125, 1000))]);
}

#[test]
fn further_matches_follow_the_main_list() {
    let body = page(
        &[
            candidate("Best match", "https://a/1", "a", "90% similarity"),
            candidate("Additional match", "//a/2", "a", "80% similarity"),
        ],
        Some(&[
            further("//b/1", "95% similarity"),
            further("https://a/1", "90% similarity"),
        ]),
    );
    let out = Iqdb::harvest("u", &body).unwrap();
    assert_eq!(
        out.items,
        vec![
            item("https://a/1", score(90, 100)),
            item("https://a/2", score(80, 100)),
            item("https://b/1", score(95, 100)),
            item("https://a/1", score(90, 100)),
        ]
    );
    assert!(out.items.iter().all(|i| !i.link.starts_with("//")));
}

#[test]
fn further_matches_fail_on_a_layout_that_is_not_expected() {
    let failure = Err(Error::UnableToRetrieve("failed to parse page".to_string()));
    let main = [candidate("Best match", "https://a/1", "a", "90% similarity")];
    let no_list = format!(
        "<html><body><div id='pages'><div></div>{}</div><div id='more1'><p>nothing</p></div></body></html>",
        main[0]
    );
    assert_eq!(Iqdb::harvest("u", &no_list), failure);
    let no_cell = "<div><table><tr></tr><tr><td>a</td></tr><tr><td>b</td></tr><tr><td>50%</td></tr></table></div>".to_string();
    assert_eq!(Iqdb::harvest("u", &page(&main, Some(&[no_cell]))), failure);
    let no_anchor = "<div><table><tr><td></td></tr><tr><td>a</td></tr><tr><td>b</td></tr><tr><td>50%</td></tr></table></div>".to_string();
    assert_eq!(Iqdb::harvest("u", &page(&main, Some(&[no_anchor]))), failure);
    let no_href = "<div><table><tr><td><a>x</a></td></tr><tr><td>a</td></tr><tr><td>b</td></tr><tr><td>50%</td></tr></table></div>".to_string();
    assert_eq!(Iqdb::harvest("u", &page(&main, Some(&[no_href]))), failure);
    let no_score_cell = "<div><table><tr><td><a href='x'>x</a></td></tr><tr><td>a</td></tr><tr><td>b</td></tr><tr></tr></table></div>".to_string();
    assert_eq!(Iqdb::harvest("u", &page(&main, Some(&[no_score_cell]))), failure);
    let bad_score = further("https://b/1", "n/a");
    assert_eq!(
        Iqdb::harvest("u", &page(&main, Some(&[bad_score]))),
        Err(Error::UnableToConvertToFloat)
    );
}

#[test]
fn further_matches_pass_over_candidates_without_rows_or_link() {
    let no_rows = "<div><p>text</p></div>".to_string();
    let empty_link = further("", "50% similarity");
    let good = further("//c/1", "50% similarity");
    let out = Iqdb::harvest("u", &page(&[], Some(&[no_rows, empty_link, good]))).unwrap();
    assert_eq!(out.items, vec![item("https://c/1", score(50, 100))]);
}

#[test]
fn further_matches_fail_without_the_row_of_the_score() {
    let failure = Err(Error::UnableToRetrieve("failed to parse page".to_string()));
    for rows in [
        "<tr><td><a href='//c/1'>x</a></td></tr>",
        "<tr><td><a href='//c/1'>x</a></td></tr><tr><td>a</td></tr>",
        "<tr><td><a href='//c/1'>x</a></td></tr><tr><td>a</td></tr><tr><td>b</td></tr>",
        "<tr><td><a href=''>x</a></td></tr><tr><td>a</td></tr>",
    ] {
        let short = format!("<div><table>{}</table></div>", rows);
        assert_eq!(Iqdb::harvest("u", &page(&[], Some(&[short]))), failure, "{}", rows);
    }
}

#[test]
fn the_link_is_the_first_anchor_below_any_image_cell() {
    let later = "<div><table><tr><th>Best match</th></tr><tr><td class='image'>no anchor</td><td><a href='https://a/outside'>o</a></td><td class='image'><span><a href='https://a/inside'>i</a></span><a href='https://a/second'>s</a></td></tr><tr><td>a</td></tr><tr><td>b</td></tr><tr><td>70% similarity</td></tr></table></div>".to_string();
    let out = Iqdb::harvest("u", &page(&[later], None)).unwrap();
    assert_eq!(out.items, vec![item("https://a/inside", score(70, 100))]);
    let nested = "<div class='image'><table><tr><th>Best match</th></tr><tr><td><a href='https://a/own'>o</a></td></tr><tr><td>a</td></tr><tr><td>b</td></tr><tr><td>60% similarity</td></tr></table></div>".to_string();
    let out = Iqdb::harvest("u", &page(&[nested], None)).unwrap();
    assert_eq!(out.items, vec![item("https://a/own", score(60, 100))]);
}

#[test]
fn a_long_page_is_harvested_like_a_short_one() {
    let mut body = page(&[candidate("Best match", "https://a/1", "a", "90% similarity")], None);
    let expected = Iqdb::harvest("u", &body);
    assert_eq!(
        expected,
        Ok(Output { original_url: "u".to_string(), items: vec![item("https://a/1", score(90, 100))] })
    );
    while body.len() < 3 * 1024 * 1024 {
        body.push_str("          ");
    }
    assert_eq!(Iqdb::harvest("u", &body), expected);
}

#[test]
fn deeply_nested_tables_and_marks_are_read() {
    let mut tables = String::new();
    for _ in 0..500 {
        tables.push_str("<table><td>");
    }
    assert_eq!(Iqdb::harvest("u", &tables).unwrap().items, vec![]);
    let mut marks = String::new();
    for i in 0..2000 {
        marks.push_str(&format!("<b a={}>", i));
    }
    marks.push_str("<p>x<p>y");
    assert_eq!(Iqdb::harvest("u", &marks).unwrap().items, vec![]);
}

#[test]
fn a_deeply_nested_page_is_read() {
    let mut body = String::new();
    for _ in 0..3000 {
        body.push_str("<div>");
    }
    body.push_str("<div id='pages'><div>asked</div>");
    body.push_str(&candidate("Best match", "https://a/1", "a", "90% similarity"));
    let out = Iqdb::harvest("u", &body).unwrap();
    assert_eq!(out.items, vec![item("https://a/1", score(90, 100))]);
}

#[test]
fn a_page_without_lists_has_no_items() {
    let out = Iqdb::harvest("u", "<html><body><p>Nothing here</p></body></html>").unwrap();
    assert_eq!(out, Output { original_url: "u".to_string(), items: vec![] });
    let out = Iqdb::harvest("u", "").unwrap();
    assert_eq!(out.items, vec![]);
}

#[test]
fn links_that_start_with_two_slashes_get_a_scheme() {
    assert_eq!(normalize_link("//a.example/x".to_string()), "https://a.example/x");
    assert_eq!(normalize_link("//".to_string()), "https://");
    assert_eq!(normalize_link("/a".to_string()), "/a");
    assert_eq!(normalize_link("http://a".to_string()), "http://a");
    assert_eq!(normalize_link("https://a//b".to_string()), "https://a//b");
    assert_eq!(normalize_link("".to_string()), "");
    assert_eq!(normalize_link(" //a".to_string()), " //a");
}

#[test]
fn scores_are_read_up_to_the_percent_sign() {
    assert_eq!(read_score("96% similarity"), Some(score(96, 100)));
    assert_eq!(read_score("12.5%"), Some(score(125, 1000)));
    assert_eq!(read_score("44"), Some(score(44, 100)));
    assert_eq!(read_score("-1%"), Some(score(-1, 100)));
    assert_eq!(read_score("4%4%"), Some(score(4, 100)));
    assert_eq!(read_score("% 5"), None);
    assert_eq!(read_score(""), None);
    assert_eq!(read_score("96 %"), None);
}

fn element(parent: Option<usize>, name: &str, attributes: &[(&str, &str)]) -> Node {
    Node {
        parent,
        data: NodeData::Element {
            name: name.to_string(),
            attributes: attributes
                .iter()
                .map(|(n, v)| (n.to_string(), v.to_string()))
                .collect(),
        },
    }
}

fn text(parent: Option<usize>, content: &str) -> Node {
    Node { parent, data: NodeData::Text(content.to_string()) }
}

// 0 div#pages
//   1 div            (the image asked about)
//   2 div            (candidate)
//     3 tr
//     4 tr
//       5 td.image
//         6 a[href]
//     7 tr
//     8 tr
//     9 tr
//       10 td
//         11 "87.5% similarity"
//   12 span          (no candidate: not a div)
fn built() -> Document {
    Document {
        nodes: vec![
            element(None, "div", &[("id", "pages")]),
            element(Some(0), "div", &[]),
            element(Some(0), "div", &[]),
            element(Some(2), "tr", &[]),
            element(Some(2), "tr", &[]),
            element(Some(4), "td", &[("class", "image")]),
            element(Some(5), "a", &[("href", "//x.example/1")]),
            element(Some(2), "tr", &[]),
            element(Some(2), "tr", &[]),
            element(Some(2), "tr", &[]),
            element(Some(9), "td", &[]),
            text(Some(10), "87.5% similarity"),
            element(Some(0), "span", &[]),
        ],
    }
}

#[test]
fn stages_work_on_a_document_that_was_built_by_hand() {
    let doc = built();
    assert_eq!(
        Iqdb::harvest_page(&doc, 2),
        Ok(Some(item("https://x.example/1", score(875, 1000))))
    );
    assert_eq!(Iqdb::harvest_page(&doc, 1), Ok(None));
    assert_eq!(Iqdb::harvest_page(&doc, 12), Ok(None));
    assert_eq!(
        Iqdb::harvest_expansion(&doc, 2),
        Err(Error::UnableToRetrieve("failed to parse page".to_string()))
    );
    let mut out = Output {
        original_url: "u".to_string(),
        items: vec![item("kept", Similarity::unknown())],
    };
    assert_eq!(Iqdb::harvest_stage_one(&doc, Some(0), &mut out), Ok(()));
    assert_eq!(
        out.items,
        vec![
            item("kept", Similarity::unknown()),
            item("https://x.example/1", score(875, 1000))
        ]
    );
    assert_eq!(Iqdb::harvest_stage_one(&doc, None, &mut out), Ok(()));
    assert_eq!(out.items.len(), 2);
    assert_eq!(Iqdb::harvest_stage_two(&doc, None, &mut out), Ok(()));
    assert_eq!(out.items.len(), 2);
    assert_eq!(
        Iqdb::harvest_stage_two(&doc, Some(0), &mut out),
        Err(Error::UnableToRetrieve("failed to parse page".to_string()))
    );
    assert_eq!(out.items.len(), 2);
    assert_eq!(
        Iqdb::harvest_document("u", &doc),
        Ok(Output {
            original_url: "u".to_string(),
            items: vec![item("https://x.example/1", score(875, 1000))]
        })
    );
}

#[test]
fn a_failure_leaves_the_output_as_it_was() {
    let mut doc = built();
    doc.nodes[11] = text(Some(10), "unknown");
    let mut out = Output {
        original_url: "u".to_string(),
        items: vec![item("kept", Similarity::unknown())],
    };
    let before = out.clone();
    assert_eq!(
        Iqdb::harvest_stage_one(&doc, Some(0), &mut out),
        Err(Error::UnableToConvertToFloat)
    );
    assert_eq!(out, before);
}

#[test]
fn the_search_goes_to_the_result_page_with_a_limit_of_ten_seconds() {
    let (request, phase) = Iqdb.open(TEST_URL).unwrap();
    assert_eq!(phase, Phase::Results);
    assert_eq!(request.method, Method::Get);
    assert_eq!(request.url, "https://iqdb.org/");
    assert_eq!(request.query, vec![("url".to_string(), TEST_URL.to_string())]);
    assert_eq!(request.headers, vec![]);
    assert_eq!(request.timeout_seconds, Some(10));
    assert_eq!(request.image, None);
    assert_eq!(Iqdb::create(()), Ok(Iqdb));
    let response = Response { status: 200, content_type: None, body: String::new() };
    assert_eq!(
        Iqdb.read("u", Phase::Results, &response),
        Reading::Done(Ok(Output { original_url: "u".to_string(), items: vec![] }))
    );
}
