use exegesis::date::{Date, DateError};
use exegesis::dom::{Attribute, Element, Node};
use exegesis::extractor::{Extraction, Extractor, ExtractorOptions};
use exegesis::harvest::PartError;
use exegesis::part::{Document, Part};
use exegesis::selector::{Query, Selector, SelectorKind};
use kuchiki::traits::TendrilSink;

fn extract_markup(selectors: Vec<Selector>, markup: &str, options: ExtractorOptions) -> Document {
    let mut extractor = Extractor::new(options);
    for selector in selectors {
        extractor.add_selector(selector);
    }
    let root = kuchiki::parse_html().one(markup);
    let mut extraction = extractor.extract(&root).unwrap();
    if let Some(error) = extraction.errors.first() {
        panic!("{:?}", error);
    }
    extraction.documents.pop().unwrap()
}

fn query(source: &str) -> Query {
    Query::compile(source).unwrap()
}

fn text(content: &str) -> Part {
    Part::Text(content.to_string())
}

fn attribute(name: &str, value: &str) -> Attribute {
    Attribute { namespace: String::new(), name: name.to_string(), value: value.to_string() }
}

fn element(name: &str, attributes: Vec<Attribute>, children: Vec<Node>) -> Element {
    Element::new(name.to_string(), attributes, children)
}

fn leaf(content: &str) -> Node {
    Node::Text(content.to_string())
}

fn extract_tree(root: &Element, date_format: Option<&str>) -> (Document, Vec<PartError>) {
    let options = ExtractorOptions { date_format: date_format.map(|format| format.to_string()), root_selector: None };
    Extractor::new(options).extract_document(root)
}

#[test]
fn test_simple() {
    let markup = "\
<DOCTYPE html>
<html>
    <head><title>Hi!</title></head>
    <body>a<span>b </span> c</body>
</html>";
    let document =
        extract_markup(vec![Selector::new(SelectorKind::Title, query("title"))], markup, ExtractorOptions::default());

    assert_eq!(
        document,
        Document {
            title: Some(vec![Part::Text("Hi!".to_string())]),
            publication_date: None,
            content: vec![Part::Text("\n\n    \n    ab  c\n".to_string())],
        }
    );
}

#[test]
fn test_date_parsing() {
    let markup = r#"<DOCTYPE html>
<html>
    <head><title>Hi!</title></head>
    <body><span class="date">blah 2015-10-10 blah</span></body>
</html>"#;
    let document = extract_markup(
        vec![Selector::new(SelectorKind::Date, query(".date"))],
        markup,
        ExtractorOptions { date_format: Some("%Y-%m-%d".to_string()), ..ExtractorOptions::default() },
    );

    assert_eq!(
        document,
        Document {
            title: None,
            publication_date: None,
            content: vec![
                Part::Text("\n\n    Hi!\n    ".to_string()),
                Part::Date(Date::from_ymd(2015, 10, 10)),
                Part::Text("\n".to_string())
            ],
        }
    );
}

#[test]
fn test_publication_date() {
    let markup = r#"<DOCTYPE html>
<html>
    <head><title>Hi!</title></head>
    <body><span class="date">blah 2015-10-10 blah</span></body>
</html>"#;
    let document = extract_markup(
        vec![Selector::new(SelectorKind::PublicationDate, query(".date"))],
        markup,
        ExtractorOptions { date_format: Some("%Y-%m-%d".to_string()), ..ExtractorOptions::default() },
    );

    assert_eq!(
        document,
        Document {
            title: None,
            publication_date: Some(Date::from_ymd(2015, 10, 10)),
            content: vec![Part::Text("\n\n    Hi!\n    \n".to_string())],
        }
    );
}

#[test]
fn selectors_priority() {
    let mut extractor = Extractor::new(ExtractorOptions::default());
    assert_eq!(extractor.selectors().len(), 0);
    extractor.add_selector(Selector::new(SelectorKind::Paragraph, query("a")).priority(1));
    extractor.add_selector(Selector::new(SelectorKind::Emphasis, query("a")).priority(2));
    extractor.add_selector(Selector::new(SelectorKind::Header1, query("a")).priority(3));
    extractor.add_selector(Selector::new(SelectorKind::Header2, query("a")).priority(2));
    extractor.add_selector(Selector::new(SelectorKind::Date, query("a")).priority(0));
    extractor.add_selector(Selector::new(SelectorKind::Header3, query("a")).priority(1));

    assert_eq!(extractor.selectors().len(), 6);

    assert_eq!(extractor.selectors()[0].kind(), SelectorKind::Header1);
    assert_eq!(extractor.selectors()[1].kind(), SelectorKind::Emphasis);
    assert_eq!(extractor.selectors()[2].kind(), SelectorKind::Header2);
    assert_eq!(extractor.selectors()[3].kind(), SelectorKind::Paragraph);
    assert_eq!(extractor.selectors()[4].kind(), SelectorKind::Header3);
    assert_eq!(extractor.selectors()[5].kind(), SelectorKind::Date);
}

#[test]
fn selector_of_higher_priority_gives_the_role() {
    let markup = "<html><body><p class=\"x\">one</p></body></html>";
    let document = extract_markup(
        vec![
            Selector::new(SelectorKind::Paragraph, query("p")),
            Selector::new(SelectorKind::Header1, query(".x")).priority(1),
        ],
        markup,
        ExtractorOptions::default(),
    );
    assert_eq!(document.content, vec![Part::Header1(vec![text("one")])]);
}

#[test]
fn selector_added_first_wins_among_equal_priorities() {
    let markup = "<html><body><p class=\"x\">one</p></body></html>";
    let document = extract_markup(
        vec![Selector::new(SelectorKind::Paragraph, query("p")), Selector::new(SelectorKind::Header1, query(".x"))],
        markup,
        ExtractorOptions::default(),
    );
    assert_eq!(document.content, vec![Part::Paragraph(vec![text("one")])]);
}

#[test]
fn image_without_src_is_given_up_once_and_siblings_stay() {
    let markup = "<html><body><p>one</p><img title=\"t\"><p>two</p></body></html>";
    let mut extractor = Extractor::new(ExtractorOptions::default());
    extractor.add_selector(Selector::new(SelectorKind::Image, query("img")));
    extractor.add_selector(Selector::new(SelectorKind::Paragraph, query("p")));
    let extraction = extractor.extract(&kuchiki::parse_html().one(markup)).unwrap();

    assert_eq!(
        extraction,
        Extraction {
            documents: vec![Document {
                title: None,
                publication_date: None,
                content: vec![Part::Paragraph(vec![text("one")]), Part::Paragraph(vec![text("two")])],
            }],
            errors: vec![PartError::NoSrc],
        }
    );
}

#[test]
fn image_and_link_read_their_attributes() {
    let markup = "<html><body><a href=\"/x\">go <img src=\"/i.png\" width=\"30\" height=\"4px\" title=\"T\"></a></body></html>";
    let document = extract_markup(
        vec![Selector::new(SelectorKind::Image, query("img")), Selector::new(SelectorKind::Link, query("a"))],
        markup,
        ExtractorOptions::default(),
    );
    assert_eq!(
        document.content,
        vec![Part::Link {
            url: "/x".to_string(),
            content: vec![
                text("go "),
                Part::Image { url: "/i.png".to_string(), width: Some(30), height: None, legend: Some("T".to_string()) }
            ],
        }]
    );
}

#[test]
fn text_of_scripts_and_styles_is_left_out() {
    let markup = "<html><head><style>p {}</style><script>var x;</script></head><body>a<STYLE>q {}</STYLE>b</body></html>";
    let document = extract_markup(vec![], markup, ExtractorOptions::default());
    assert_eq!(document.content, vec![text("ab")]);
}

#[test]
fn root_selector_splits_the_page_into_documents() {
    let markup = "<html><body>\
<div class=\"post\"><h1>A</h1><p>one</p><div class=\"post\"><p>inner</p></div></div>\
<p>between</p>\
<section><div class=\"post\"><h1>B</h1><p>two</p></div></section>\
</body></html>";
    let mut extractor =
        Extractor::new(ExtractorOptions { date_format: None, root_selector: Some(query(".post")) });
    extractor.add_selector(Selector::new(SelectorKind::Title, query("h1")));
    extractor.add_selector(Selector::new(SelectorKind::Paragraph, query("p")));
    let extraction = extractor.extract(&kuchiki::parse_html().one(markup)).unwrap();

    assert_eq!(extraction.errors, vec![]);
    assert_eq!(
        extraction.documents,
        vec![
            Document {
                title: Some(vec![text("A")]),
                publication_date: None,
                content: vec![Part::Paragraph(vec![text("one")]), Part::Paragraph(vec![text("inner")])],
            },
            Document {
                title: Some(vec![text("B")]),
                publication_date: None,
                content: vec![Part::Paragraph(vec![text("two")])],
            },
        ]
    );
}

#[test]
fn root_selector_without_a_match_gives_no_document() {
    let markup = "<html><body><p>one</p></body></html>";
    let extractor = Extractor::new(ExtractorOptions { date_format: None, root_selector: Some(query(".post")) });
    let extraction = extractor.extract(&kuchiki::parse_html().one(markup)).unwrap();
    assert_eq!(extraction, Extraction { documents: vec![], errors: vec![] });
}

#[test]
fn snapshot_holds_names_attributes_roles_and_roots() {
    let markup = "<html><body><p id=\"k\">one<br></p></body></html>";
    let mut extractor = Extractor::new(ExtractorOptions { date_format: None, root_selector: Some(query("p")) });
    extractor.add_selector(Selector::new(SelectorKind::Emphasis, query("br")));
    let tree = extractor.snapshot(&kuchiki::parse_html().one(markup)).unwrap();
    let paragraph = Element {
        name: "p".to_string(),
        attributes: vec![attribute("id", "k")],
        role: None,
        root: true,
        children: vec![leaf("one"), Node::Element(element("br", vec![], vec![]).with_role(SelectorKind::Emphasis))],
    };
    assert_eq!(
        tree,
        element(
            "",
            vec![],
            vec![Node::Element(element(
                "html",
                vec![],
                vec![
                    Node::Element(element("head", vec![], vec![])),
                    Node::Element(element("body", vec![], vec![Node::Element(paragraph)])),
                ]
            ))]
        )
    );
    let roots = extractor.roots(&tree);
    assert_eq!(roots.len(), 1);
    assert_eq!(roots[0].name, "p");
}

#[test]
fn tree_by_hand_transparent_element_merges_its_text() {
    let root = element(
        "body",
        vec![],
        vec![leaf("a"), Node::Element(element("span", vec![], vec![leaf("b ")])), leaf(""), leaf(" c")],
    );
    let (document, errors) = extract_tree(&root, None);
    assert_eq!(errors, vec![]);
    assert_eq!(document, Document { title: None, publication_date: None, content: vec![text("ab  c")] });
}

#[test]
fn tree_by_hand_title_leaves_no_part_and_later_title_wins() {
    let root = element(
        "body",
        vec![],
        vec![
            leaf("a"),
            Node::Element(element("h1", vec![], vec![leaf("first")]).with_role(SelectorKind::Title)),
            leaf("b"),
            Node::Element(element("h1", vec![], vec![leaf("second")]).with_role(SelectorKind::Title)),
        ],
    );
    let (document, errors) = extract_tree(&root, None);
    assert_eq!(errors, vec![]);
    assert_eq!(
        document,
        Document { title: Some(vec![text("second")]), publication_date: None, content: vec![text("ab")] }
    );
}

#[test]
fn tree_by_hand_each_container_role_wraps_its_children() {
    let kinds = vec![
        SelectorKind::Emphasis,
        SelectorKind::Header1,
        SelectorKind::Header2,
        SelectorKind::Header3,
        SelectorKind::List,
        SelectorKind::ListItem,
        SelectorKind::Paragraph,
    ];
    let children = kinds
        .iter()
        .map(|kind| Node::Element(element("x", vec![], vec![leaf(kind.name())]).with_role(*kind)))
        .collect();
    let (document, errors) = extract_tree(&element("body", vec![], children), None);
    assert_eq!(errors, vec![]);
    assert_eq!(
        document.content,
        vec![
            Part::Emphasis(vec![text("emphasis")]),
            Part::Header1(vec![text("header1")]),
            Part::Header2(vec![text("header2")]),
            Part::Header3(vec![text("header3")]),
            Part::List(vec![text("list")]),
            Part::ListItem(vec![text("list-item")]),
            Part::Paragraph(vec![text("paragraph")]),
        ]
    );
}

#[test]
fn tree_by_hand_errors_come_in_document_order_and_drop_the_subtree() {
    let root = element(
        "body",
        vec![],
        vec![
            leaf("a"),
            Node::Element(
                element(
                    "a",
                    vec![attribute("name", "x")],
                    vec![
                        leaf("lost"),
                        Node::Element(element("img", vec![], vec![]).with_role(SelectorKind::Image)),
                        Node::Element(element("h1", vec![], vec![leaf("kept")]).with_role(SelectorKind::Title)),
                    ],
                )
                .with_role(SelectorKind::Link),
            ),
            Node::Element(element("time", vec![], vec![leaf("2015-10-10")]).with_role(SelectorKind::Date)),
            Node::Element(element("time", vec![], vec![leaf("soon")]).with_role(SelectorKind::PublicationDate)),
            leaf("b"),
        ],
    );
    let (document, errors) = extract_tree(&root, None);
    assert_eq!(errors, vec![PartError::NoSrc, PartError::NoHref, PartError::NoDateFormat, PartError::NoDateFormat]);
    assert_eq!(
        document,
        Document { title: Some(vec![text("kept")]), publication_date: None, content: vec![text("ab")] }
    );

    let (document, errors) = extract_tree(&root, Some("%Y-%m-%d"));
    assert_eq!(errors, vec![PartError::NoSrc, PartError::NoHref, PartError::Date(DateError::NotFound)]);
    assert_eq!(
        document.content,
        vec![text("a"), Part::Date(Date::from_ymd(2015, 10, 10)), text("b")]
    );
}

#[test]
fn tree_by_hand_date_reads_the_texts_at_whatever_depth() {
    let root = element(
        "body",
        vec![],
        vec![Node::Element(
            element(
                "time",
                vec![],
                vec![
                    leaf("Posted "),
                    Node::Element(
                        element(
                            "b",
                            vec![],
                            vec![Node::Element(element("i", vec![], vec![leaf("2015")]).with_role(SelectorKind::Header1))],
                        )
                        .with_role(SelectorKind::Emphasis),
                    ),
                    leaf("-10-10"),
                ],
            )
            .with_role(SelectorKind::PublicationDate),
        )],
    );
    let (document, errors) = extract_tree(&root, Some("%Y-%m-%d"));
    assert_eq!(errors, vec![]);
    assert_eq!(document.publication_date, Some(Date::from_ymd(2015, 10, 10)));
    assert_eq!(document.content, vec![]);
}

#[test]
fn text_of_the_content_is_the_deep_text() {
    let content = vec![
        text("Posted "),
        Part::Emphasis(vec![text("2015")]),
        text("-10-10"),
        Part::Image { url: "/i".to_string(), width: None, height: None, legend: Some("no".to_string()) },
    ];
    assert_eq!(exegesis::extractor::text(&content), "Posted 2015-10-10");
    assert_eq!(Part::text_of(&content), "Posted 2015-10-10");
    let extractor =
        Extractor::new(ExtractorOptions { date_format: Some("%Y-%m-%d".to_string()), root_selector: None });
    assert_eq!(extractor.parse_date(&content), Ok(Date::from_ymd(2015, 10, 10)));
    assert_eq!(extractor.parse_date(&vec![text("Posted "), text("-10-10")]), Err(PartError::Date(DateError::NotFound)));
    assert_eq!(Extractor::new(ExtractorOptions::default()).parse_date(&content), Err(PartError::NoDateFormat));
}

#[test]
fn tree_by_hand_attributes_with_a_namespace_are_passed_over() {
    let xlink = Attribute {
        namespace: "http://www.w3.org/1999/xlink".to_string(),
        name: "href".to_string(),
        value: "/wrong".to_string(),
    };
    let link = element("a", vec![xlink.clone(), attribute("href", "/right")], vec![]).with_role(SelectorKind::Link);
    assert_eq!(link.attribute("href"), Some(&"/right".to_string()));
    assert_eq!(link.attribute("src"), None);
    let (document, _) = extract_tree(&element("body", vec![], vec![Node::Element(link)]), None);
    assert_eq!(document.content, vec![Part::Link { url: "/right".to_string(), content: vec![] }]);

    let link = element("a", vec![xlink], vec![]).with_role(SelectorKind::Link);
    let (document, errors) = extract_tree(&element("body", vec![], vec![Node::Element(link)]), None);
    assert_eq!(document.content, vec![]);
    assert_eq!(errors, vec![PartError::NoHref]);
}

#[test]
fn tree_by_hand_no_two_texts_in_a_row() {
    fn tidy(parts: &[Part]) -> bool {
        parts.windows(2).all(|pair| !(matches!(pair[0], Part::Text(_)) && matches!(pair[1], Part::Text(_))))
            && parts.iter().all(|part| tidy(part.children()))
    }
    let root = element(
        "body",
        vec![],
        vec![
            leaf("a"),
            leaf("b"),
            Node::Element(element("img", vec![], vec![leaf("x")]).with_role(SelectorKind::Image)),
            leaf("c"),
            Node::Element(
                element(
                    "p",
                    vec![],
                    vec![leaf("d"), Node::Element(element("i", vec![], vec![leaf("e"), leaf("f")])), leaf("g")],
                )
                .with_role(SelectorKind::Paragraph),
            ),
            Node::Element(element("h1", vec![], vec![leaf("t"), leaf("u")]).with_role(SelectorKind::Title)),
            leaf("h"),
            leaf("i"),
        ],
    );
    let (document, errors) = extract_tree(&root, None);
    assert_eq!(errors, vec![PartError::NoSrc]);
    assert!(tidy(&document.content));
    assert!(tidy(document.title.as_ref().unwrap()));
    assert_eq!(document.content, vec![text("abc"), Part::Paragraph(vec![text("defg")]), text("hi")]);
    assert_eq!(document.title, Some(vec![text("tu")]));
}

#[test]
fn selector_kinds_have_their_names() {
    let names: Vec<&str> = exegesis::selector::all_selector_kinds().iter().map(|kind| kind.name()).collect();
    assert_eq!(
        names,
        vec![
            "date",
            "emphasis",
            "header1",
            "header2",
            "header3",
            "image",
            "link",
            "list",
            "list-item",
            "paragraph",
            "publicaton-date",
            "title"
        ]
    );
    assert_eq!(SelectorKind::ListItem.to_string(), "list-item");
}

#[test]
fn query_that_does_not_compile_is_refused() {
    assert!(Query::compile("blih >").is_none());
    assert_eq!(Query::compile(".post-content p").unwrap().source(), ".post-content p");
}

fn nested(levels: usize) -> String {
    let mut markup = String::from("<html><body>");
    for _ in 0..levels {
        markup.push_str("<div>");
    }
    markup.push('x');
    for _ in 0..levels {
        markup.push_str("</div>");
    }
    markup.push_str("</body></html>");
    markup
}

#[test]
fn tree_is_read_down_to_the_depth_limit() {
    assert_eq!(exegesis::extractor::DEPTH_LIMIT, 512);
    let document = extract_markup(vec![], &nested(509), ExtractorOptions::default());
    assert_eq!(document.content, vec![text("x")]);
    let document = extract_markup(vec![], &nested(510), ExtractorOptions::default());
    assert_eq!(document.content, vec![]);
}

#[test]
fn query_matches_elements_only() {
    let root = kuchiki::parse_html().one("<html><body><p class=\"a\">one</p></body></html>");
    let paragraph = root.select_first("p").unwrap().as_node().clone();
    assert!(query("p.a").matches(&paragraph));
    assert!(query("body > p").matches(&paragraph));
    assert!(!query("div").matches(&paragraph));
    assert!(!query("*").matches(&root));
    assert!(!query("*").matches(&paragraph.first_child().unwrap()));
}

#[test]
fn extract_all_gives_one_document_for_each_tree() {
    let first = element("div", vec![], vec![leaf("a"), Node::Element(element("img", vec![], vec![]).with_role(SelectorKind::Image))]);
    let second = element("div", vec![], vec![Node::Element(element("a", vec![], vec![]).with_role(SelectorKind::Link)), leaf("b")]);
    let extraction = Extractor::new(ExtractorOptions::default()).extract_all(&vec![&first, &second]);
    assert_eq!(
        extraction,
        Extraction {
            documents: vec![
                Document { title: None, publication_date: None, content: vec![text("a")] },
                Document { title: None, publication_date: None, content: vec![text("b")] },
            ],
            errors: vec![PartError::NoSrc, PartError::NoHref],
        }
    );
}

#[test]
fn numbers_are_read_as_the_standard_library_reads_them() {
    let texts = [
        "", "+", "-", "0", "+0", "-0", "7", "007", "+42", "++1", "+-1", "1+", " 1", "1 ", "1_0", "12a", "a12",
        "4294967295", "4294967296", "+4294967295", "+4294967296", "42949672950", "99999999999999999999999", "١٢٣",
        "0x10", "1e3", "1.0", "30", "4px",
    ];
    for text in texts {
        assert_eq!(exegesis::harvest::parse_u32(text), text.parse::<u32>().ok());
    }
    assert_eq!(exegesis::harvest::parse_u32("+042"), Some(42));
    assert_eq!(exegesis::harvest::parse_u32("4294967296"), None);
}

#[test]
fn first_selector_with_a_true_outcome_gives_the_role() {
    let mut extractor = Extractor::new(ExtractorOptions::default());
    extractor.add_selector(Selector::new(SelectorKind::Paragraph, query("a")).priority(1));
    extractor.add_selector(Selector::new(SelectorKind::Emphasis, query("a")).priority(2));
    extractor.add_selector(Selector::new(SelectorKind::Header1, query("a")).priority(3));
    extractor.add_selector(Selector::new(SelectorKind::Header2, query("a")).priority(2));

    assert_eq!(extractor.first_role(&vec![false, true, true, false]), Some(SelectorKind::Emphasis));
    assert_eq!(extractor.first_role(&vec![true, true, true, true]), Some(SelectorKind::Header1));
    assert_eq!(extractor.first_role(&vec![false, false, true, true]), Some(SelectorKind::Header2));
    assert_eq!(extractor.first_role(&vec![false, false, false, true]), Some(SelectorKind::Paragraph));
    assert_eq!(extractor.first_role(&vec![false, false, false, false]), None);
    assert_eq!(extractor.first_role(&vec![]), None);
    assert_eq!(extractor.first_role(&vec![false]), None);
    assert_eq!(extractor.first_role(&vec![false, false, false, false, true]), None);
    assert_eq!(Extractor::new(ExtractorOptions::default()).first_role(&vec![true]), None);
}

#[test]
fn nested_root_gives_no_document_of_its_own() {
    let extractor = Extractor::new(ExtractorOptions { root_selector: Some(query(".r")), ..ExtractorOptions::default() });
    let root = kuchiki::parse_html()
        .one("<div class=\"r\">a<div class=\"r\">b</div></div>x<div class=\"r\">c</div>");
    let extraction = extractor.extract(&root).unwrap();
    assert_eq!(
        extraction,
        Extraction {
            documents: vec![
                Document { title: None, publication_date: None, content: vec![text("ab")] },
                Document { title: None, publication_date: None, content: vec![text("c")] },
            ],
            errors: vec![],
        }
    );
}

#[test]
fn roots_by_hand_are_the_outermost_marked_elements_in_order() {
    let inner = element("div", vec![], vec![leaf("b")]).as_root();
    let first = element("div", vec![], vec![leaf("a"), Node::Element(inner)]).as_root();
    let second = element("p", vec![], vec![leaf("c")]).as_root().with_role(SelectorKind::Paragraph);
    let tree = element(
        "body",
        vec![],
        vec![
            leaf("x"),
            Node::Element(first),
            Node::Element(element("section", vec![], vec![leaf("y"), Node::Element(second)])),
            Node::Element(element("div", vec![], vec![leaf("z")])),
        ],
    );
    let split = Extractor::new(ExtractorOptions { root_selector: Some(query(".r")), ..ExtractorOptions::default() });
    let names: Vec<(String, usize)> =
        split.roots(&tree).iter().map(|root| (root.name.clone(), root.children.len())).collect();
    assert_eq!(names, vec![("div".to_string(), 2), ("p".to_string(), 1)]);
    assert_eq!(
        split.extract_all(&split.roots(&tree)).documents,
        vec![
            Document { title: None, publication_date: None, content: vec![text("ab")] },
            Document { title: None, publication_date: None, content: vec![text("c")] },
        ]
    );

    let whole = Extractor::new(ExtractorOptions::default());
    let roots = whole.roots(&tree);
    assert_eq!(roots.len(), 1);
    assert_eq!(roots[0], &tree);

    let plain = element("body", vec![], vec![leaf("x"), Node::Element(element("div", vec![], vec![]))]);
    assert_eq!(split.roots(&plain).len(), 0);
    let mut found = vec![&plain];
    split.extract_rec(&tree, &mut found);
    assert_eq!(found.len(), 3);
    assert_eq!(found[0], &plain);
}

#[test]
fn root_itself_may_be_the_one_document() {
    let root = kuchiki::parse_html().one("<html class=\"r\"><body>a<p class=\"r\">b</p></body></html>");
    let extractor = Extractor::new(ExtractorOptions { root_selector: Some(query(".r")), ..ExtractorOptions::default() });
    let html = root.select_first("html").unwrap().as_node().clone();
    assert_eq!(
        extractor.extract(&html).unwrap().documents,
        vec![Document { title: None, publication_date: None, content: vec![text("ab")] }]
    );
}

#[test]
fn document_that_is_being_written_to_is_not_read() {
    let root = kuchiki::parse_html().one("<html><body><p class=\"a\">one</p><i>two</i></body></html>");
    let mut extractor = Extractor::new(ExtractorOptions::default());
    extractor.add_selector(Selector::new(SelectorKind::Paragraph, query(".a")));
    let paragraph = root.select_first("p").unwrap();
    let emphasis = root.select_first("i").unwrap().as_node().clone();
    {
        let _writing = paragraph.attributes.borrow_mut();
        assert_eq!(extractor.extract(&root), None);
        assert_eq!(extractor.snapshot(&root), None);
        assert_eq!(extractor.extract(&emphasis), None);
        assert!(!query("i").matches(&emphasis));
    }
    {
        let text = paragraph.as_node().first_child().unwrap();
        let _writing = text.as_text().unwrap().borrow_mut();
        assert_eq!(extractor.extract(&root), None);
        assert!(!query("i").matches(&emphasis));
    }
    {
        let _reading = paragraph.attributes.borrow();
        assert!(extractor.extract(&root).is_some());
    }
    assert!(query("i").matches(&emphasis));
    assert_eq!(
        extractor.extract(&root).unwrap().documents[0].content,
        vec![Part::Paragraph(vec![text("one")]), text("two")]
    );
}
