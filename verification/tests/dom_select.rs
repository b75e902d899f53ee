use sauce_api::dom::{Document, Node, NodeData};
use select::predicate::{Attr, Class, Name};

const PAGES: [&str; 5] = [
    "",
    "plain text",
    "<html><head><title>t</title></head><body><!-- c --><p class='a  b\tc'>one<b>two</b>three</p><p id=x>four</p></body></html>",
    "<div id='pages' class='pages'><div><table><tr><th>Your image</th></tr><tr><td class='image'><img src='/x.jpg'></td></tr></table></div>\
<div><table><tr><th>Best match</th></tr><tr><td class='image'><a href=\"//a.example/1\" href='twice'><img src='/a.jpg'></a></td></tr><tr><td>site <span class='el'>x</span></td></tr><tr><td>600×800</td></tr><tr><td>96% similarity</td></tr></table></div>\n\
<div class='nomatch'><table><tr><th>No relevant matches</th></tr></table></div></div><div id='more1'><div class='pages'><div><table><tr><td class='image big'><a href='https://b.example/2'>x</a></td></tr></table></div></div></div>",
    "<table><tr><td>a<td>b<tr><td>c</table><ul><li>x<li>y<ul><li class=image>z</ul></ul><p>unclosed<div class='Tags-Wrapper'><a href='1'>1</a><a class='Tags-Wrapper' href='2'><b href=3>3</b></a></div>",
];

fn copy(parsed: &select::document::Document) -> Document {
    Document {
        nodes: parsed
            .nodes
            .iter()
            .map(|raw| Node {
                parent: raw.parent,
                data: match &raw.data {
                    select::node::Data::Text(text) => NodeData::Text(text.to_string()),
                    select::node::Data::Comment(text) => NodeData::Comment(text.to_string()),
                    select::node::Data::Element(name, attributes) => NodeData::Element {
                        name: name.local.to_string(),
                        attributes: attributes
                            .iter()
                            .map(|(n, v)| (n.local.to_string(), v.to_string()))
                            .collect(),
                    },
                },
            })
            .collect(),
    }
}

#[test]
fn children_agree_with_the_parser() {
    for page in PAGES {
        let parsed = select::document::Document::from(page);
        let document = copy(&parsed);
        for i in 0..document.nodes.len() {
            let node = parsed.nth(i).unwrap();
            let children: Vec<usize> = node.children().map(|c| c.index()).collect();
            assert_eq!(document.children(i), children, "{} in {:?}", i, page);
            assert_eq!(document.first_child(i), node.first_child().map(|c| c.index()));
            let divs: Vec<usize> = node
                .children()
                .filter(|c| c.is(Name("div")))
                .map(|c| c.index())
                .collect();
            assert_eq!(document.children_named(i, "div"), divs);
        }
    }
}

#[test]
fn descendants_agree_with_the_parser() {
    for page in PAGES {
        let parsed = select::document::Document::from(page);
        let document = copy(&parsed);
        for i in 0..document.nodes.len() {
            let node = parsed.nth(i).unwrap();
            for name in ["tr", "a", "td", "li", "b"] {
                let found: Vec<usize> = node.find(Name(name)).map(|n| n.index()).collect();
                assert_eq!(document.elements_under(i, name), found, "{} {} in {:?}", i, name, page);
            }
            for class in ["image", "pages", "b", "Tags-Wrapper"] {
                let found: Vec<usize> = node.find(Class(class)).map(|n| n.index()).collect();
                assert_eq!(document.classed_under(i, class), found, "{} {} in {:?}", i, class, page);
            }
        }
    }
}

#[test]
fn text_and_attributes_agree_with_the_parser() {
    for page in PAGES {
        let parsed = select::document::Document::from(page);
        let document = copy(&parsed);
        for i in 0..document.nodes.len() {
            let node = parsed.nth(i).unwrap();
            assert_eq!(document.text(i), node.text(), "{} in {:?}", i, page);
            for name in ["href", "class", "id", "src"] {
                assert_eq!(
                    document.nodes[i].attribute(name),
                    node.attr(name).map(|v| v.to_string())
                );
            }
            for name in ["div", "a", "tr", "html"] {
                assert_eq!(document.nodes[i].has_name(name), node.is(Name(name)));
            }
            for class in ["image", "a", "b", "c", "pages", "big", "a  b"] {
                assert_eq!(document.nodes[i].has_class(class), node.is(Class(class)));
            }
        }
    }
}

#[test]
fn searches_over_the_page_agree_with_the_parser() {
    for page in PAGES {
        let parsed = select::document::Document::from(page);
        let document = copy(&parsed);
        for (name, value) in [("id", "pages"), ("id", "more1"), ("id", "x"), ("class", "pages")] {
            let found: Vec<usize> = parsed.find(Attr(name, value)).map(|n| n.index()).collect();
            assert_eq!(document.with_attribute(name, value), found);
        }
        for class in ["image", "pages", "Tags-Wrapper"] {
            let found: Vec<usize> = parsed.find(Class(class)).map(|n| n.index()).collect();
            assert_eq!(document.with_class(class), found);
            let children: Vec<usize> = parsed
                .find(Class(class))
                .into_selection()
                .children()
                .iter()
                .map(|n| n.index())
                .collect();
            assert_eq!(document.children_of_class(class), children);
        }
    }
}
