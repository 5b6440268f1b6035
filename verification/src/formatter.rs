//! Writing a document out as text.

use vstd::prelude::*;
use crate::date::Date;
use crate::part::{lemma_part_view, parts_view, Document, DocumentModel, Part, PartModel};
use crate::text::{decimal, from_chars, push_chars, push_decimal, to_chars};

verus! {

/// Something that writes a document out as text.
pub trait Formatter {
    /// The text that stands for `document`.
    spec fn rendering(&self, document: DocumentModel) -> Seq<char>;

    /// Writes `document` out.
    fn format(&self, document: &Document) -> (text: String)
        ensures
            text@ == self.rendering(document@),
    ;
}

/// Writes a document out as an HTML article.
#[derive(Clone, Copy, Debug, Default)]
pub struct HtmlFormatter;

/// What stands for the character `c` in HTML: in the value of an
/// attribute where `attr_mode` holds, in running text where it does not.
pub open spec fn escaped_char(c: char, attr_mode: bool) -> Seq<char> {
    if c == '&' {
        "&amp;"@
    } else if c == '\u{a0}' {
        "&nbsp;"@
    } else if c == '"' && attr_mode {
        "&quot;"@
    } else if c == '<' && !attr_mode {
        "&lt;"@
    } else if c == '>' && !attr_mode {
        "&gt;"@
    } else {
        seq![c]
    }
}

/// `text` with each character replaced by what stands for it in HTML.
pub open spec fn escaped_html(text: Seq<char>, attr_mode: bool) -> Seq<char>
    decreases text.len(),
{
    if text.len() == 0 {
        Seq::empty()
    } else {
        escaped_html(text.drop_last(), attr_mode) + escaped_char(text.last(), attr_mode)
    }
}

/// `n` in decimal notation, with zeros in front where it has fewer than
/// `width` digits.
pub open spec fn padded(n: nat, width: nat) -> Seq<char> {
    if decimal(n).len() >= width {
        decimal(n)
    } else {
        Seq::new((width - decimal(n).len()) as nat, |i: int| '0') + decimal(n)
    }
}

/// A year as ISO 8601 writes it: four digits for the years 0 to 9999, and
/// for every other year a sign and at least four digits.
pub open spec fn iso_year(year: int) -> Seq<char> {
    if 0 <= year <= 9999 {
        padded(year as nat, 4)
    } else if year < 0 {
        "-"@ + padded((-year) as nat, 4)
    } else {
        "+"@ + padded(year as nat, 4)
    }
}

/// A date as ISO 8601 writes it: year, month and day, each pair joined by
/// a hyphen.
pub open spec fn iso_date(date: Date) -> Seq<char> {
    iso_year(date.year as int) + "-"@ + padded(date.month as nat, 2) + "-"@ + padded(date.day as nat, 2)
}

/// A date as a `time` element: the first instant of the date in UTC as
/// its `datetime`, the date as its content.
pub open spec fn html_date(date: Date) -> Seq<char> {
    "<time datetime=\""@ + escaped_html(iso_date(date) + "T00:00:00+00:00"@, true) + "\">"@ + iso_date(date)
        + "</time>\n"@
}

/// `inner` as the content of an element of the name `tag`.
pub open spec fn tagged(tag: Seq<char>, inner: Seq<char>) -> Seq<char> {
    "<"@ + tag + ">"@ + inner + "</"@ + tag + ">\n"@
}

/// The parts of `parts` from the one at `from` on, written one after
/// another.
pub open spec fn html_parts(parts: Seq<PartModel>, from: int) -> Seq<char>
    decreases parts, parts.len() - from,
{
    if from < 0 || from >= parts.len() {
        Seq::empty()
    } else {
        html_part(parts[from]) + html_parts(parts, from + 1)
    }
}

/// A part as HTML: a text escaped, a date as a `time` element, an image
/// as an `img` element with its address, a link as an `a` element, and
/// every other part as the element of its role around its content.
pub open spec fn html_part(part: PartModel) -> Seq<char>
    decreases part, 0int,
{
    match part {
        PartModel::Date(date) => html_date(date),
        PartModel::Emphasis(content) => tagged("em"@, html_parts(content, 0)),
        PartModel::Header1(content) => tagged("h2"@, html_parts(content, 0)),
        PartModel::Header2(content) => tagged("h3"@, html_parts(content, 0)),
        PartModel::Header3(content) => tagged("h4"@, html_parts(content, 0)),
        PartModel::Image { url, .. } => "<img src=\""@ + escaped_html(url, true) + "\"/>"@,
        PartModel::Link { url, content } => "<a href=\""@ + escaped_html(url, true) + "\">"@ + html_parts(
            content,
            0,
        ) + "</a>\n"@,
        PartModel::List(content) => tagged("ul"@, html_parts(content, 0)),
        PartModel::ListItem(content) => tagged("li"@, html_parts(content, 0)),
        PartModel::Paragraph(content) => tagged("p"@, html_parts(content, 0)),
        PartModel::Text(text) => escaped_html(text, false),
    }
}

/// The head of an article: its title as a heading and the date it was
/// published on, as far as the document has them.
pub open spec fn html_header(document: DocumentModel) -> Seq<char> {
    if document.title is Some || document.publication_date is Some {
        tagged(
            "header"@,
            (match document.title {
                Some(title) => tagged("h2"@, html_parts(title, 0)),
                None => Seq::empty(),
            }) + (match document.publication_date {
                Some(date) => tagged("p"@, "On "@ + html_date(date)),
                None => Seq::empty(),
            }),
        )
    } else {
        Seq::empty()
    }
}

/// A document as an HTML article: its head, where it has a title or a
/// date, and its content.
pub open spec fn html_document(document: DocumentModel) -> Seq<char> {
    tagged("article"@, html_header(document) + html_parts(document.content, 0))
}

/// Appends `n` in decimal notation with at least `width` digits.
fn push_padded(output: &mut Vec<char>, n: u128, width: usize)
    ensures
        final(output)@ == old(output)@ + padded(n as nat, width as nat),
{
    let mut digits: Vec<char> = Vec::new();
    push_decimal(&mut digits, n);
    assert(digits@ =~= decimal(n as nat));
    if digits.len() < width {
        let zeros = width - digits.len();
        let mut i: usize = 0;
        assert(output@ =~= old(output)@ + Seq::new(0, |j: int| '0'));
        while i < zeros
            invariant
                i <= zeros,
                output@ == old(output)@ + Seq::new(i as nat, |j: int| '0'),
            decreases zeros - i,
        {
            output.push('0');
            assert(output@ =~= old(output)@ + Seq::new((i + 1) as nat, |j: int| '0'));
            i += 1;
        }
    }
    output.append(&mut digits);
    assert(output@ =~= old(output)@ + padded(n as nat, width as nat));
}

/// Appends a date as ISO 8601 writes it.
fn push_iso_date(output: &mut Vec<char>, date: &Date)
    ensures
        final(output)@ == old(output)@ + iso_date(*date),
{
    if 0 <= date.year && date.year <= 9999 {
        push_padded(output, date.year as u128, 4);
    } else if date.year < 0 {
        push_chars(output, "-");
        push_padded(output, (-(date.year as i128)) as u128, 4);
    } else {
        push_chars(output, "+");
        push_padded(output, date.year as u128, 4);
    }
    push_chars(output, "-");
    push_padded(output, date.month as u128, 2);
    push_chars(output, "-");
    push_padded(output, date.day as u128, 2);
    assert(output@ =~= old(output)@ + iso_date(*date));
}

impl HtmlFormatter {
    /// Appends `text` with each character replaced by what stands for it
    /// in HTML.
    pub fn write_escaped(text: &str, attr_mode: bool, output: &mut Vec<char>)
        ensures
            final(output)@ == old(output)@ + escaped_html(text@, attr_mode),
    {
        let text = to_chars(text);
        let mut i: usize = 0;
        assert(text@.take(0) =~= Seq::empty());
        while i < text.len()
            invariant
                i <= text.len(),
                output@ == old(output)@ + escaped_html(text@.take(i as int), attr_mode),
            decreases text.len() - i,
        {
            let c = text[i];
            let ghost before = output@;
            if c == '&' {
                push_chars(output, "&amp;");
            } else if c == '\u{a0}' {
                push_chars(output, "&nbsp;");
            } else if c == '"' && attr_mode {
                push_chars(output, "&quot;");
            } else if c == '<' && !attr_mode {
                push_chars(output, "&lt;");
            } else if c == '>' && !attr_mode {
                push_chars(output, "&gt;");
            } else {
                output.push(c);
                assert(output@ =~= before + seq![c]);
            }
            proof {
                let head = text@.take(i + 1);
                assert(head.drop_last() =~= text@.take(i as int));
                assert(head.last() == c);
                assert(output@ =~= old(output)@ + escaped_html(head, attr_mode));
            }
            i += 1;
        }
        assert(text@.take(text.len() as int) =~= text@);
    }

    /// Appends a date as a `time` element.
    pub fn write_date(&self, date: &Date, output: &mut Vec<char>)
        ensures
            final(output)@ == old(output)@ + html_date(*date),
    {
        let mut instant: Vec<char> = Vec::new();
        push_iso_date(&mut instant, date);
        push_chars(&mut instant, "T00:00:00+00:00");
        assert(instant@ =~= iso_date(*date) + "T00:00:00+00:00"@);
        push_chars(output, "<time datetime=\"");
        HtmlFormatter::write_escaped(from_chars(&instant).as_str(), true, output);
        push_chars(output, "\">");
        push_iso_date(output, date);
        push_chars(output, "</time>\n");
        assert(output@ =~= old(output)@ + html_date(*date));
    }

    /// Appends `<`, the name of the tag and `>`.
    fn open_tag(tag: &str, output: &mut Vec<char>)
        ensures
            final(output)@ == old(output)@ + "<"@ + tag@ + ">"@,
    {
        push_chars(output, "<");
        push_chars(output, tag);
        push_chars(output, ">");
    }

    /// Appends `</`, the name of the tag, `>` and a line end.
    fn close_tag(tag: &str, output: &mut Vec<char>)
        ensures
            final(output)@ == old(output)@ + "</"@ + tag@ + ">\n"@,
    {
        push_chars(output, "</");
        push_chars(output, tag);
        push_chars(output, ">\n");
    }

    /// Appends the parts of `children`, one after another.
    pub fn write_parts(&self, children: &Vec<Part>, output: &mut Vec<char>)
        ensures
            final(output)@ == old(output)@ + html_parts(parts_view(children@), 0),
        decreases children, 0int,
    {
        let ghost parts = parts_view(children@);
        let mut i: usize = 0;
        assert(output@ + html_parts(parts, 0) =~= old(output)@ + html_parts(parts, 0));
        while i < children.len()
            invariant
                i <= children.len(),
                parts == parts_view(children@),
                output@ + html_parts(parts, i as int) == old(output)@ + html_parts(parts, 0),
            decreases children.len() - i,
        {
            let ghost before = output@;
            assert(parts[i as int] == children[i as int]@);
            self.write_part(&children[i], output);
            assert(output@ + html_parts(parts, i + 1) =~= before + html_parts(parts, i as int));
            i += 1;
        }
        assert(output@ + html_parts(parts, i as int) =~= output@);
    }

    /// Appends `children` as the content of an element of the name `tag`.
    fn write_tagged(&self, tag: &str, children: &Vec<Part>, output: &mut Vec<char>)
        ensures
            final(output)@ == old(output)@ + tagged(tag@, html_parts(parts_view(children@), 0)),
        decreases children, 1int,
    {
        HtmlFormatter::open_tag(tag, output);
        self.write_parts(children, output);
        HtmlFormatter::close_tag(tag, output);
        assert(output@ =~= old(output)@ + tagged(tag@, html_parts(parts_view(children@), 0)));
    }

    /// Appends one part.
    pub fn write_part(&self, part: &Part, output: &mut Vec<char>)
        ensures
            final(output)@ == old(output)@ + html_part(part@),
        decreases part, 0int,
    {
        proof {
            lemma_part_view(*part);
        }
        match part {
            Part::Paragraph(children) => self.write_tagged("p", children, output),
            Part::Date(date) => self.write_date(date, output),
            Part::Emphasis(children) => self.write_tagged("em", children, output),
            Part::Header1(children) => self.write_tagged("h2", children, output),
            Part::Header2(children) => self.write_tagged("h3", children, output),
            Part::Header3(children) => self.write_tagged("h4", children, output),
            Part::Image { url, .. } => {
                push_chars(output, "<img src=\"");
                HtmlFormatter::write_escaped(url.as_str(), true, output);
                push_chars(output, "\"/>");
                assert(output@ =~= old(output)@ + html_part(part@));
            },
            Part::Link { url, content } => {
                push_chars(output, "<a href=\"");
                HtmlFormatter::write_escaped(url.as_str(), true, output);
                push_chars(output, "\">");
                self.write_parts(content, output);
                push_chars(output, "</a>\n");
                assert(output@ =~= old(output)@ + html_part(part@));
            },
            Part::List(children) => self.write_tagged("ul", children, output),
            Part::ListItem(children) => self.write_tagged("li", children, output),
            Part::Text(text) => HtmlFormatter::write_escaped(text.as_str(), false, output),
        }
    }

    /// Appends the date of publication as a paragraph of the head.
    fn write_published(&self, date: &Date, output: &mut Vec<char>)
        ensures
            final(output)@ == old(output)@ + tagged("p"@, "On "@ + html_date(*date)),
    {
        HtmlFormatter::open_tag("p", output);
        push_chars(output, "On ");
        self.write_date(date, output);
        HtmlFormatter::close_tag("p", output);
        assert(output@ =~= old(output)@ + tagged("p"@, "On "@ + html_date(*date)));
    }

    /// Appends the head of the article, where the document has a title or
    /// a date.
    fn write_header(&self, document: &Document, output: &mut Vec<char>)
        ensures
            final(output)@ == old(output)@ + html_header(document@),
    {
        if document.title.is_some() || document.publication_date.is_some() {
            HtmlFormatter::open_tag("header", output);
            let ghost opened = output@;
            let ghost title = match document@.title {
                Some(title) => tagged("h2"@, html_parts(title, 0)),
                None => Seq::empty(),
            };
            let ghost date = match document@.publication_date {
                Some(date) => tagged("p"@, "On "@ + html_date(date)),
                None => Seq::empty(),
            };
            match &document.title {
                Some(title) => {
                    self.write_tagged("h2", title, output);
                },
                None => {},
            }
            assert(output@ =~= opened + title);
            match &document.publication_date {
                Some(date) => {
                    self.write_published(date, output);
                },
                None => {},
            }
            assert(output@ =~= opened + title + date);
            HtmlFormatter::close_tag("header", output);
            assert(output@ =~= old(output)@ + tagged("header"@, title + date));
        } else {
            assert(output@ =~= old(output)@ + html_header(document@));
        }
    }

    /// Appends a document as an HTML article.
    pub fn write_document(&self, document: &Document, output: &mut Vec<char>)
        ensures
            final(output)@ == old(output)@ + html_document(document@),
    {
        HtmlFormatter::open_tag("article", output);
        self.write_header(document, output);
        self.write_parts(&document.content, output);
        HtmlFormatter::close_tag("article", output);
        assert(output@ =~= old(output)@ + html_document(document@));
    }
}

impl Formatter for HtmlFormatter {
    open spec fn rendering(&self, document: DocumentModel) -> Seq<char> {
        html_document(document)
    }

    fn format(&self, document: &Document) -> (text: String) {
        let mut output: Vec<char> = Vec::new();
        self.write_document(document, &mut output);
        assert(output@ =~= html_document(document@));
        from_chars(&output)
    }
}

} // verus!
