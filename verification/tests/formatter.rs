use exegesis::date::Date;
use exegesis::formatter::{Formatter, HtmlFormatter};
use exegesis::part::{Document, Part};

fn text(content: &str) -> Part {
    Part::Text(content.to_string())
}

fn render(content: Vec<Part>) -> String {
    HtmlFormatter.format(&Document { title: None, publication_date: None, content })
}

#[test]
fn html_test_html_formatter() {
    let formatter = HtmlFormatter {};
    let document = Document {
        content: vec![Part::Paragraph(vec![
            Part::Text(r#"Oh hi! <>""#.to_string()),
            Part::Link { url: r#"<>""#.to_string(), content: vec![Part::Text("link".to_string())] },
        ])],
        publication_date: Some(Date::from_ymd(2000, 10, 7)),
        ..Document::default()
    };
    assert_eq!(
        &formatter.format(&document),
        "\
            <article>\
                <header>\
                    <p>\
                        On <time datetime=\"2000-10-07T00:00:00+00:00\">2000-10-07</time>\n\
                    </p>\n\
                </header>\n\
                <p>\
                    Oh hi! &lt;&gt;\"\
                    <a href=\"<>&quot;\">link</a>\n\
                </p>\n\
            </article>\n"
    );
}

#[test]
fn document_without_title_and_date_has_no_header() {
    assert_eq!(render(vec![]), "<article></article>\n");
    assert_eq!(render(vec![text("a")]), "<article>a</article>\n");
}

#[test]
fn title_comes_as_a_heading_in_the_header() {
    let document = Document { title: Some(vec![text("T&C")]), publication_date: None, content: vec![text("x")] };
    assert_eq!(
        HtmlFormatter.format(&document),
        "<article><header><h2>T&amp;C</h2>\n</header>\nx</article>\n"
    );
    let document = Document {
        title: Some(vec![]),
        publication_date: Some(Date::from_ymd(1999, 1, 2)),
        content: vec![],
    };
    assert_eq!(
        HtmlFormatter.format(&document),
        "<article><header><h2></h2>\n<p>On <time datetime=\"1999-01-02T00:00:00+00:00\">1999-01-02</time>\n</p>\n</header>\n</article>\n"
    );
}

#[test]
fn each_part_has_its_element() {
    assert_eq!(
        render(vec![
            Part::Header1(vec![text("1")]),
            Part::Header2(vec![text("2")]),
            Part::Header3(vec![text("3")]),
            Part::Emphasis(vec![text("e")]),
            Part::List(vec![Part::ListItem(vec![text("i")]), Part::ListItem(vec![])]),
            Part::Image { url: "/a\"b<c>.png".to_string(), width: Some(3), height: None, legend: None },
            Part::Date(Date::from_ymd(2016, 5, 16)),
        ]),
        "<article><h2>1</h2>\n<h3>2</h3>\n<h4>3</h4>\n<em>e</em>\n<ul><li>i</li>\n<li></li>\n</ul>\n\
<img src=\"/a&quot;b<c>.png\"/>\
<time datetime=\"2016-05-16T00:00:00+00:00\">2016-05-16</time>\n</article>\n"
    );
}

#[test]
fn write_escaped_in_text_and_in_attributes() {
    let mut output = Vec::new();
    HtmlFormatter::write_escaped("a<b>&\"c\u{a0}d", false, &mut output);
    assert_eq!(output.iter().collect::<String>(), "a&lt;b&gt;&amp;\"c&nbsp;d");
    let mut output = vec!['='];
    HtmlFormatter::write_escaped("a<b>&\"c\u{a0}dé", true, &mut output);
    assert_eq!(output.iter().collect::<String>(), "=a<b>&amp;&quot;c&nbsp;dé");
}

#[test]
fn years_outside_four_digits_carry_a_sign() {
    let mut output = Vec::new();
    HtmlFormatter.write_date(&Date::from_ymd(7, 3, 4), &mut output);
    assert_eq!(
        output.iter().collect::<String>(),
        "<time datetime=\"0007-03-04T00:00:00+00:00\">0007-03-04</time>\n"
    );
    let mut output = Vec::new();
    HtmlFormatter.write_date(&Date::from_ymd(12345, 12, 31), &mut output);
    assert_eq!(
        output.iter().collect::<String>(),
        "<time datetime=\"+12345-12-31T00:00:00+00:00\">+12345-12-31</time>\n"
    );
    let mut output = Vec::new();
    HtmlFormatter.write_date(&Date::from_ymd(-1, 1, 1), &mut output);
    assert_eq!(
        output.iter().collect::<String>(),
        "<time datetime=\"-0001-01-01T00:00:00+00:00\">-0001-01-01</time>\n"
    );
}

#[test]
fn dates_are_written_as_chrono_writes_them() {
    for (year, month, day) in [(2000, 10, 7), (1, 1, 1), (0, 2, 29), (9999, 12, 31), (10000, 1, 1), (-1, 6, 9), (-12345, 7, 8)] {
        let date = chrono::NaiveDate::from_ymd_opt(year, month, day).unwrap();
        let instant = date.and_hms_opt(0, 0, 0).unwrap().and_utc().to_rfc3339();
        let expected = format!("<time datetime=\"{}\">{}</time>\n", instant, date.format("%Y-%m-%d"));
        let mut output = Vec::new();
        HtmlFormatter.write_date(&Date::from_ymd(year, month, day), &mut output);
        assert_eq!(output.iter().collect::<String>(), expected);
    }
}

#[test]
fn text_of_a_part_joins_the_texts_below_it() {
    let part = Part::Paragraph(vec![
        text("  a "),
        Part::Link { url: "/x".to_string(), content: vec![text("b"), Part::Emphasis(vec![text("\n c")])] },
        Part::Date(Date::from_ymd(2000, 1, 1)),
        Part::Image { url: "/i".to_string(), width: None, height: None, legend: Some("no".to_string()) },
        text("\t d\u{a0} "),
    ]);
    assert_eq!(part.text(), "  a b\n c\t d\u{a0} ");
    assert_eq!(part.normalized_text(), "a b c d");
    assert_eq!(text("x").text(), "x");
    assert_eq!(Part::Date(Date::from_ymd(2000, 1, 1)).text(), "");
}

#[test]
fn normalized_text_of_white_space_alone_is_empty() {
    assert_eq!(text(" \n\t ").normalized_text(), "");
    assert_eq!(text("").normalized_text(), "");
    assert_eq!(text("a").normalized_text(), "a");
    assert_eq!(text("$1 a").normalized_text(), "$1 a");
}

#[test]
fn children_of_a_part() {
    assert_eq!(Part::List(vec![text("a"), text("b")]).children(), &[text("a"), text("b")]);
    assert_eq!(Part::Link { url: "/x".to_string(), content: vec![text("a")] }.children(), &[text("a")]);
    assert_eq!(text("a").children(), &[]);
    assert_eq!(
        Part::Image { url: "/x".to_string(), width: None, height: None, legend: None }.children(),
        &[]
    );
}
