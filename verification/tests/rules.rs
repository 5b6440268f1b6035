use exegesis::extractor::{Extractor, ExtractorOptions};
use exegesis::matcher::URLMatcher;
use exegesis::part::{Document, Part};
use exegesis::rule::Rule;
use exegesis::rules::{ExtractError, Rules};
use exegesis::selector::{Query, Selector, SelectorKind};
use exegesis::website::Website;
use kuchiki::traits::TendrilSink;

fn rule(name: &str, glob: &str, kind: SelectorKind, query: &str) -> Rule {
    let mut extractor = Extractor::new(ExtractorOptions::default());
    extractor.add_selector(Selector::new(kind, Query::compile(query).unwrap()));
    let mut rule = Rule::new(name.to_string(), extractor);
    rule.add_matcher(URLMatcher::new(glob).unwrap());
    rule
}

fn page(url: &str) -> Website {
    let dom = kuchiki::parse_html().one("<html><body><p>one</p></body></html>");
    Website::new(url.to_string(), Some(dom))
}

#[test]
fn website_without_a_document_gives_no_document() {
    let rules = Rules::new(vec![rule("a", "**", SelectorKind::Paragraph, "p")]);
    let website = Website::new("http://foo.com".to_string(), None);
    assert_eq!(rules.extract(&website), Err(ExtractError::NoDocument));
    assert_eq!(Rules::default().extract(&website), Err(ExtractError::NoDocument));
}

#[test]
fn no_rule_for_the_address_gives_no_matching_rule() {
    let rules = Rules::new(vec![
        rule("a", "http://foo.com/*", SelectorKind::Paragraph, "p"),
        rule("b", "http://bar.com/**", SelectorKind::Paragraph, "p"),
    ]);
    assert_eq!(rules.extract(&page("http://foo.com/a/b")), Err(ExtractError::NoMatchingRule));
    assert_eq!(Rules::default().extract(&page("http://foo.com")), Err(ExtractError::NoMatchingRule));
}

#[test]
fn first_rule_for_the_address_is_used() {
    let mut rules = Rules::new(vec![rule("a", "http://bar.com/**", SelectorKind::Header1, "p")]);
    rules.append(Rules::new(vec![
        rule("b", "http://foo.com/**", SelectorKind::Paragraph, "p"),
        rule("c", "**", SelectorKind::Emphasis, "p"),
    ]));
    assert_eq!(rules.rules().len(), 3);
    assert_eq!(rules.rules()[2].name(), "c");

    let extraction = rules.extract(&page("http://foo.com/x")).unwrap();
    assert_eq!(
        extraction.documents,
        vec![Document {
            title: None,
            publication_date: None,
            content: vec![Part::Paragraph(vec![Part::Text("one".to_string())])]
        }]
    );
    let extraction = rules.extract(&page("http://elsewhere.org")).unwrap();
    assert_eq!(extraction.documents[0].content, vec![Part::Emphasis(vec![Part::Text("one".to_string())])]);
}

#[test]
fn rule_with_several_matchers_is_for_each_of_them() {
    let mut both = rule("a", "http://foo.com/*", SelectorKind::Paragraph, "p");
    both.add_matcher(URLMatcher::new("http://bar.com/*").unwrap());
    assert!(both.applies_to(&page("http://bar.com/x")));
    assert!(both.applies_to(&page("http://foo.com")));
    assert!(!both.applies_to(&page("http://baz.com/x")));
    let none = Rule::new("none".to_string(), Extractor::new(ExtractorOptions::default()));
    assert!(!none.applies_to(&page("http://foo.com")));
}

#[test]
fn extract_errors_in_words() {
    assert_eq!(ExtractError::NoDocument.message(), "This website has no DOM");
    assert_eq!(ExtractError::NoMatchingRule.message(), "No rule matching this website");
    assert_eq!(ExtractError::Unreadable.message(), "The document of this website is being written to");
}

#[test]
fn website_whose_document_is_being_written_to_is_unreadable() {
    let rules = Rules::new(vec![rule("a", "**", SelectorKind::Paragraph, "p")]);
    let website = page("http://foo.com");
    let paragraph = website.dom.as_ref().unwrap().select_first("p").unwrap();
    {
        let _writing = paragraph.attributes.borrow_mut();
        assert_eq!(rules.extract(&website), Err(ExtractError::Unreadable));
        assert_eq!(Rules::default().extract(&website), Err(ExtractError::NoMatchingRule));
    }
    assert!(rules.extract(&website).is_ok());
}
