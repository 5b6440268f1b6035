//! The output data model: a tree of typed parts, and the document that
//! holds them.

use vstd::prelude::*;
use vstd::string::StringExecFns;
use crate::date::Date;
use crate::pattern::{regex_compiles, regex_replaced, Pattern};

verus! {

/// One node of the extracted content tree.
#[derive(Debug, PartialEq, Eq)]
pub enum Part {
    Date(Date),
    Emphasis(Vec<Part>),
    Header1(Vec<Part>),
    Header2(Vec<Part>),
    Header3(Vec<Part>),
    Image { url: String, width: Option<u32>, height: Option<u32>, legend: Option<String> },
    Link { url: String, content: Vec<Part> },
    List(Vec<Part>),
    ListItem(Vec<Part>),
    Paragraph(Vec<Part>),
    Text(String),
}

/// The mathematical value of a [`Part`].
pub enum PartModel {
    Date(Date),
    Emphasis(Seq<PartModel>),
    Header1(Seq<PartModel>),
    Header2(Seq<PartModel>),
    Header3(Seq<PartModel>),
    Image { url: Seq<char>, width: Option<u32>, height: Option<u32>, legend: Option<Seq<char>> },
    Link { url: Seq<char>, content: Seq<PartModel> },
    List(Seq<PartModel>),
    ListItem(Seq<PartModel>),
    Paragraph(Seq<PartModel>),
    Text(Seq<char>),
}

/// The value of an optional string.
pub open spec fn text_option(text: Option<String>) -> Option<Seq<char>> {
    match text {
        Some(s) => Some(s@),
        None => None,
    }
}

/// The value of a part.
pub open spec fn part_view(part: Part) -> PartModel
    decreases part,
{
    match part {
        Part::Date(date) => PartModel::Date(date),
        Part::Emphasis(children) => PartModel::Emphasis(Seq::new(children.len() as nat, |i: int| if 0 <= i < children.len() { part_view(children[i]) } else { arbitrary() })),
        Part::Header1(children) => PartModel::Header1(Seq::new(children.len() as nat, |i: int| if 0 <= i < children.len() { part_view(children[i]) } else { arbitrary() })),
        Part::Header2(children) => PartModel::Header2(Seq::new(children.len() as nat, |i: int| if 0 <= i < children.len() { part_view(children[i]) } else { arbitrary() })),
        Part::Header3(children) => PartModel::Header3(Seq::new(children.len() as nat, |i: int| if 0 <= i < children.len() { part_view(children[i]) } else { arbitrary() })),
        Part::Image { url, width, height, legend } => PartModel::Image {
            url: url@,
            width,
            height,
            legend: text_option(legend),
        },
        Part::Link { url, content } => PartModel::Link { url: url@, content: Seq::new(content.len() as nat, |i: int| if 0 <= i < content.len() { part_view(content[i]) } else { arbitrary() }) },
        Part::List(children) => PartModel::List(Seq::new(children.len() as nat, |i: int| if 0 <= i < children.len() { part_view(children[i]) } else { arbitrary() })),
        Part::ListItem(children) => PartModel::ListItem(Seq::new(children.len() as nat, |i: int| if 0 <= i < children.len() { part_view(children[i]) } else { arbitrary() })),
        Part::Paragraph(children) => PartModel::Paragraph(Seq::new(children.len() as nat, |i: int| if 0 <= i < children.len() { part_view(children[i]) } else { arbitrary() })),
        Part::Text(text) => PartModel::Text(text@),
    }
}

impl View for Part {
    type V = PartModel;

    open spec fn view(&self) -> PartModel {
        part_view(*self)
    }
}

/// The values of a sequence of parts, in order.
pub open spec fn parts_view(parts: Seq<Part>) -> Seq<PartModel> {
    Seq::new(parts.len(), |i: int| parts[i]@)
}

/// What was extracted from one document: its title, the date it was
/// published on and its content.
#[derive(Debug, PartialEq, Eq)]
pub struct Document {
    pub title: Option<Vec<Part>>,
    pub publication_date: Option<Date>,
    pub content: Vec<Part>,
}

/// The mathematical value of a [`Document`].
pub struct DocumentModel {
    pub title: Option<Seq<PartModel>>,
    pub publication_date: Option<Date>,
    pub content: Seq<PartModel>,
}

impl View for Document {
    type V = DocumentModel;

    open spec fn view(&self) -> DocumentModel {
        DocumentModel {
            title: match self.title {
                Some(parts) => Some(parts_view(parts@)),
                None => None,
            },
            publication_date: self.publication_date,
            content: parts_view(self.content@),
        }
    }
}

impl Default for Document {
    /// The empty document: no title, no date, no content.
    fn default() -> (document: Document)
        ensures
            document@ == (DocumentModel { title: None, publication_date: None, content: Seq::empty() }),
    {
        let document = Document { title: None, publication_date: None, content: Vec::new() };
        assert(parts_view(document.content@) =~= Seq::empty());
        document
    }
}

impl Part {
    /// The parts directly below this one: the content of a container or of
    /// a link, and nothing for a date, an image or a text.
    pub open spec fn spec_children(&self) -> Seq<Part> {
        match self {
            Part::Emphasis(children)
            | Part::Header1(children)
            | Part::Header2(children)
            | Part::Header3(children)
            | Part::List(children)
            | Part::ListItem(children)
            | Part::Paragraph(children) => children@,
            Part::Link { content, .. } => content@,
            Part::Date(..) | Part::Image { .. } | Part::Text(..) => Seq::empty(),
        }
    }

    /// The parts directly below this one.
    pub fn children(&self) -> (children: &[Part])
        ensures
            children@ == self.spec_children(),
    {
        match self {
            Part::Emphasis(children)
            | Part::Header1(children)
            | Part::Header2(children)
            | Part::Header3(children)
            | Part::List(children)
            | Part::ListItem(children)
            | Part::Paragraph(children) => children.as_slice(),
            Part::Link { content, .. } => content.as_slice(),
            Part::Date(..) | Part::Image { .. } | Part::Text(..) => &[],
        }
    }
}

/// The value of a part that holds parts holds the values of those parts.
pub proof fn lemma_part_view(part: Part)
    ensures
        match part {
            Part::Date(date) => part@ == PartModel::Date(date),
            Part::Emphasis(children) => part@ == PartModel::Emphasis(parts_view(children@)),
            Part::Header1(children) => part@ == PartModel::Header1(parts_view(children@)),
            Part::Header2(children) => part@ == PartModel::Header2(parts_view(children@)),
            Part::Header3(children) => part@ == PartModel::Header3(parts_view(children@)),
            Part::Image { url, width, height, legend } => part@ == (PartModel::Image {
                url: url@,
                width,
                height,
                legend: text_option(legend),
            }),
            Part::Link { url, content } => part@ == (PartModel::Link { url: url@, content: parts_view(content@) }),
            Part::List(children) => part@ == PartModel::List(parts_view(children@)),
            Part::ListItem(children) => part@ == PartModel::ListItem(parts_view(children@)),
            Part::Paragraph(children) => part@ == PartModel::Paragraph(parts_view(children@)),
            Part::Text(text) => part@ == PartModel::Text(text@),
        },
{
    match part {
        Part::Emphasis(children) => {
            assert(part@->Emphasis_0 =~= parts_view(children@));
        },
        Part::Header1(children) => {
            assert(part@->Header1_0 =~= parts_view(children@));
        },
        Part::Header2(children) => {
            assert(part@->Header2_0 =~= parts_view(children@));
        },
        Part::Header3(children) => {
            assert(part@->Header3_0 =~= parts_view(children@));
        },
        Part::List(children) => {
            assert(part@->List_0 =~= parts_view(children@));
        },
        Part::ListItem(children) => {
            assert(part@->ListItem_0 =~= parts_view(children@));
        },
        Part::Paragraph(children) => {
            assert(part@->Paragraph_0 =~= parts_view(children@));
        },
        Part::Link { url, content } => {
            assert(part@->Link_content =~= parts_view(content@));
        },
        _ => {},
    }
}

/// The texts of the parts of `parts` from the one at `from` on, joined in
/// order.
pub open spec fn parts_text(parts: Seq<PartModel>, from: int) -> Seq<char>
    decreases parts, parts.len() - from,
{
    if from < 0 || from >= parts.len() {
        Seq::empty()
    } else {
        part_text(parts[from]) + parts_text(parts, from + 1)
    }
}

/// The text of a part: of a text itself, of a date or an image nothing,
/// and of every other part the texts of the parts below it, joined in
/// order.
pub open spec fn part_text(part: PartModel) -> Seq<char>
    decreases part, 0int,
{
    match part {
        PartModel::Text(text) => text,
        PartModel::Emphasis(content)
        | PartModel::Header1(content)
        | PartModel::Header2(content)
        | PartModel::Header3(content)
        | PartModel::List(content)
        | PartModel::ListItem(content)
        | PartModel::Paragraph(content) => parts_text(content, 0),
        PartModel::Link { content, .. } => parts_text(content, 0),
        PartModel::Date(..) | PartModel::Image { .. } => Seq::empty(),
    }
}

/// `text` without the white space at its two ends, and with a single
/// space for each stretch of white space within it; `text` itself where the
/// regular expressions for white space should not compile.
pub open spec fn normalized(text: Seq<char>) -> Seq<char> {
    if regex_compiles("^\\s+|\\s+$"@) && regex_compiles("\\s+"@) {
        regex_replaced("\\s+"@, regex_replaced("^\\s+|\\s+$"@, text, ""@), " "@)
    } else {
        text
    }
}

impl Part {
    /// Appends the texts of `children` to `out`.
    fn push_texts(children: &Vec<Part>, out: &mut String)
        ensures
            final(out)@ == old(out)@ + parts_text(parts_view(children@), 0),
        decreases children, 0int,
    {
        let ghost parts = parts_view(children@);
        let mut i: usize = 0;
        assert(out@ + parts_text(parts, 0) =~= old(out)@ + parts_text(parts, 0));
        while i < children.len()
            invariant
                i <= children.len(),
                parts == parts_view(children@),
                out@ + parts_text(parts, i as int) == old(out)@ + parts_text(parts, 0),
            decreases children.len() - i,
        {
            let ghost before = out@;
            assert(parts[i as int] == children[i as int]@);
            children[i].push_text(out);
            assert(out@ + parts_text(parts, i + 1) =~= before + parts_text(parts, i as int));
            i += 1;
        }
        assert(out@ + parts_text(parts, i as int) =~= out@);
    }

    /// Appends the text of this part to `out`.
    fn push_text(&self, out: &mut String)
        ensures
            final(out)@ == old(out)@ + part_text(self@),
        decreases self, 0int,
    {
        proof {
            lemma_part_view(*self);
        }
        match self {
            Part::Text(text) => {
                out.append(text.as_str());
            },
            Part::Emphasis(children) => Part::push_texts(children, out),
            Part::Header1(children) => Part::push_texts(children, out),
            Part::Header2(children) => Part::push_texts(children, out),
            Part::Header3(children) => Part::push_texts(children, out),
            Part::List(children) => Part::push_texts(children, out),
            Part::ListItem(children) => Part::push_texts(children, out),
            Part::Paragraph(children) => Part::push_texts(children, out),
            Part::Link { content, .. } => Part::push_texts(content, out),
            Part::Date(..) | Part::Image { .. } => {
                assert(out@ =~= old(out)@ + part_text(self@));
            },
        }
    }

    /// The texts in `parts`, at whatever depth, joined in order.
    pub fn text_of(parts: &Vec<Part>) -> (text: String)
        ensures
            text@ == parts_text(parts_view(parts@), 0),
    {
        let mut text = String::new();
        Part::push_texts(parts, &mut text);
        assert(text@ =~= parts_text(parts_view(parts@), 0));
        text
    }

    /// The text of this part: the texts in it, at whatever depth, joined
    /// in order.
    pub fn text(&self) -> (text: String)
        ensures
            text@ == part_text(self@),
    {
        let mut text = String::new();
        self.push_text(&mut text);
        assert(text@ =~= part_text(self@));
        text
    }

    /// The text of this part without the white space at its two ends, and
    /// with a single space for each stretch of white space within it.
    pub fn normalized_text(&self) -> (text: String)
        ensures
            text@ == normalized(part_text(self@)),
    {
        let text = self.text();
        match Pattern::compile("^\\s+|\\s+$") {
            Ok(ends) => match Pattern::compile("\\s+") {
                Ok(stretch) => {
                    let trimmed = ends.replace_all(text.as_str(), "");
                    stretch.replace_all(trimmed.as_str(), " ")
                },
                Err(_) => text,
            },
            Err(_) => text,
        }
    }
}

} // verus!
