//! What the walk over an element tree gathers, stated over the values of
//! the tree and of the parts.

use vstd::prelude::*;
use crate::date::{spec_parse_date, Date, DateError};
use crate::dom::{attribute, AttributeModel, ElementModel, NodeModel};
use crate::part::{parts_text, DocumentModel, PartModel};
use crate::selector::SelectorKind;
use crate::text::to_chars;

verus! {

/// Why an element that a selector matched gave no part.
#[derive(Clone, Copy, Debug, PartialEq, Eq, Structural)]
pub enum PartError {
    /// A date was asked for and the extractor has no date format.
    NoDateFormat,
    /// The text of the element holds no date.
    Date(DateError),
    /// An image without a `src` attribute.
    NoSrc,
    /// A link without a `href` attribute.
    NoHref,
}

/// What has been gathered at some point of the walk.
pub struct Harvest {
    /// The parts gathered for the element whose children are being
    /// visited.
    pub parts: Seq<PartModel>,
    /// The title of the document, once one was found.
    pub title: Option<Seq<PartModel>>,
    /// The date of publication, once one was found.
    pub publication_date: Option<Date>,
    /// The elements given up so far, each by its reason.
    pub errors: Seq<PartError>,
}

/// What a matched element does to the harvest.
pub enum Effect {
    /// A part is added to the parts of the parent.
    Append(PartModel),
    /// The content becomes the title of the document.
    Title(Seq<PartModel>),
    /// The date becomes the date of publication.
    Published(Date),
}

/// Whether `c` is one of the digits `0` to `9`.
pub open spec fn is_digit(c: char) -> bool {
    '0' <= c <= '9'
}

/// The number that the digits of `digits` write in decimal notation.
pub open spec fn digits_value(digits: Seq<char>) -> nat
    decreases digits.len(),
{
    if digits.len() == 0 {
        0
    } else {
        digits_value(digits.drop_last()) * 10 + ((digits.last() as u8) - ('0' as u8)) as nat
    }
}

/// `text` without the `+` in front of it, if it has one.
pub open spec fn unsigned(text: Seq<char>) -> Seq<char> {
    if text.len() > 0 && text[0] == '+' {
        text.skip(1)
    } else {
        text
    }
}

/// The number that `text` is in decimal notation: `text` is a row of at
/// least one digit, with or without a `+` in front, and the number fits
/// into 32 bits. Everything else is no number.
pub open spec fn decimal_u32(text: Seq<char>) -> Option<u32> {
    let digits = unsigned(text);
    if digits.len() > 0 && (forall|i: int| 0 <= i < digits.len() ==> is_digit(#[trigger] digits[i]))
        && digits_value(digits) <= u32::MAX {
        Some(digits_value(digits) as u32)
    } else {
        None
    }
}

/// A row of digits writes no smaller a number than its beginning.
proof fn lemma_digits_value_grows(digits: Seq<char>, upto: int)
    requires
        0 <= upto <= digits.len(),
    ensures
        digits_value(digits.take(upto)) <= digits_value(digits),
    decreases digits.len() - upto,
{
    if upto < digits.len() {
        lemma_digits_value_grows(digits, upto + 1);
        assert(digits.take(upto + 1).drop_last() =~= digits.take(upto));
    } else {
        assert(digits.take(upto) =~= digits);
    }
}

/// The number that `text` is in decimal notation.
pub fn parse_u32(text: &str) -> (number: Option<u32>)
    ensures
        number == decimal_u32(text@),
{
    let chars = to_chars(text);
    let start: usize = if chars.len() > 0 && chars[0] == '+' {
        1
    } else {
        0
    };
    let ghost digits = chars@.skip(start as int);
    assert(chars@.skip(0) =~= chars@);
    assert(digits == unsigned(text@));
    if chars.len() == start {
        return None;
    }
    let mut value: u64 = 0;
    let mut i: usize = start;
    assert(digits.take(0) =~= Seq::empty());
    while i < chars.len()
        invariant
            start <= i <= chars.len(),
            digits == unsigned(text@),
            digits == chars@.skip(start as int),
            forall|j: int| 0 <= j < i - start ==> is_digit(#[trigger] digits[j]),
            value == digits_value(digits.take(i - start)),
            value <= u32::MAX,
        decreases chars.len() - i,
    {
        let c = chars[i];
        assert(digits[i - start] == c);
        if !('0' <= c && c <= '9') {
            assert(!is_digit(digits[i - start]));
            return None;
        }
        let d = ((c as u8) - ('0' as u8)) as u64;
        value = value * 10 + d;
        proof {
            let head = digits.take(i - start + 1);
            assert(head.drop_last() =~= digits.take(i - start));
            assert(head.last() == c);
            assert(value == digits_value(head));
        }
        if value > 0xffff_ffff {
            proof {
                lemma_digits_value_grows(digits, i - start + 1);
            }
            return None;
        }
        i += 1;
    }
    assert(digits.take(i - start) =~= digits);
    Some(value as u32)
}

/// Whether text directly below an element of this name is left out: the
/// content of a script or of a style sheet.
pub open spec fn ignores_text(name: Seq<char>) -> bool {
    ascii_lowercase(name) == "script"@ || ascii_lowercase(name) == "style"@
}

/// `c` with an ASCII capital turned into its small letter.
pub open spec fn ascii_lower(c: char) -> char {
    if 'A' <= c <= 'Z' {
        ((c as u8) + 32) as char
    } else {
        c
    }
}

/// `text` with each ASCII capital turned into its small letter.
pub open spec fn ascii_lowercase(text: Seq<char>) -> Seq<char> {
    Seq::new(text.len(), |i: int| ascii_lower(text[i]))
}

/// The number in the attribute `name`, where there is such an attribute
/// and it holds one.
pub open spec fn dimension(attributes: Seq<AttributeModel>, name: Seq<char>) -> Option<u32> {
    match attribute(attributes, name) {
        Some(value) => decimal_u32(value),
        None => None,
    }
}

/// `parts` with `text` added at its end: joined to the last part where
/// that is a text, as a part of its own where it is not.
pub open spec fn append_text(parts: Seq<PartModel>, text: Seq<char>) -> Seq<PartModel> {
    if parts.len() > 0 && parts.last() is Text {
        parts.drop_last().push(PartModel::Text(parts.last()->Text_0 + text))
    } else {
        parts.push(PartModel::Text(text))
    }
}

/// The date that the text of `content` holds under `format`: the texts in
/// `content`, at whatever depth, joined in order.
pub open spec fn dated(format: Option<Seq<char>>, content: Seq<PartModel>) -> Result<Date, PartError> {
    match format {
        None => Err(PartError::NoDateFormat),
        Some(format) => match spec_parse_date(format, parts_text(content, 0)) {
            Ok(date) => Ok(date),
            Err(error) => Err(PartError::Date(error)),
        },
    }
}

/// What an element of role `kind` with the attributes `attributes` and
/// the gathered content `content` does to the harvest, or why it is given
/// up.
pub open spec fn effect(
    kind: SelectorKind,
    attributes: Seq<AttributeModel>,
    content: Seq<PartModel>,
    format: Option<Seq<char>>,
) -> Result<Effect, PartError> {
    match kind {
        SelectorKind::Date => match dated(format, content) {
            Ok(date) => Ok(Effect::Append(PartModel::Date(date))),
            Err(error) => Err(error),
        },
        SelectorKind::Emphasis => Ok(Effect::Append(PartModel::Emphasis(content))),
        SelectorKind::Header1 => Ok(Effect::Append(PartModel::Header1(content))),
        SelectorKind::Header2 => Ok(Effect::Append(PartModel::Header2(content))),
        SelectorKind::Header3 => Ok(Effect::Append(PartModel::Header3(content))),
        SelectorKind::Image => match attribute(attributes, "src"@) {
            None => Err(PartError::NoSrc),
            Some(url) => Ok(
                Effect::Append(
                    PartModel::Image {
                        url,
                        width: dimension(attributes, "width"@),
                        height: dimension(attributes, "height"@),
                        legend: attribute(attributes, "title"@),
                    },
                ),
            ),
        },
        SelectorKind::Link => match attribute(attributes, "href"@) {
            None => Err(PartError::NoHref),
            Some(url) => Ok(Effect::Append(PartModel::Link { url, content })),
        },
        SelectorKind::List => Ok(Effect::Append(PartModel::List(content))),
        SelectorKind::ListItem => Ok(Effect::Append(PartModel::ListItem(content))),
        SelectorKind::Paragraph => Ok(Effect::Append(PartModel::Paragraph(content))),
        SelectorKind::PublicationDate => match dated(format, content) {
            Ok(date) => Ok(Effect::Published(date)),
            Err(error) => Err(error),
        },
        SelectorKind::Title => Ok(Effect::Title(content)),
    }
}

/// The harvest after `effect` has taken place.
pub open spec fn applied(harvest: Harvest, effect: Effect) -> Harvest {
    match effect {
        Effect::Append(part) => Harvest { parts: harvest.parts.push(part), ..harvest },
        Effect::Title(title) => Harvest { title: Some(title), ..harvest },
        Effect::Published(date) => Harvest { publication_date: Some(date), ..harvest },
    }
}

/// The harvest after an element of role `kind` was closed: its effect has
/// taken place or, where it is given up, its reason is noted and nothing
/// else changes.
pub open spec fn handled(
    kind: SelectorKind,
    attributes: Seq<AttributeModel>,
    content: Seq<PartModel>,
    format: Option<Seq<char>>,
    harvest: Harvest,
) -> Harvest {
    match effect(kind, attributes, content, format) {
        Ok(effect) => applied(harvest, effect),
        Err(error) => Harvest { errors: harvest.errors.push(error), ..harvest },
    }
}

/// The harvest after the children of an element from the one at `from` on
/// were visited in order. `ignore_text` says whether the element is one
/// whose text is left out.
pub open spec fn gathered(
    children: Seq<NodeModel>,
    from: int,
    ignore_text: bool,
    format: Option<Seq<char>>,
    harvest: Harvest,
) -> Harvest
    decreases children, children.len() - from,
{
    if from < 0 || from >= children.len() {
        harvest
    } else {
        gathered(children, from + 1, ignore_text, format, visited(children[from], ignore_text, format, harvest))
    }
}

/// The harvest after one child was visited. A text is added to the parts
/// unless it is empty or left out. An element without a role is
/// transparent: its children are visited as if they stood in its place. An
/// element with a role gathers the parts of its children apart, and is
/// then closed.
pub open spec fn visited(node: NodeModel, ignore_text: bool, format: Option<Seq<char>>, harvest: Harvest) -> Harvest
    decreases node, 0int,
{
    match node {
        NodeModel::Text(text) => if ignore_text || text.len() == 0 {
            harvest
        } else {
            Harvest { parts: append_text(harvest.parts, text), ..harvest }
        },
        NodeModel::Element(element) => match element.role {
            None => gathered(element.children, 0, ignores_text(element.name), format, harvest),
            Some(kind) => {
                let inner = gathered(
                    element.children,
                    0,
                    ignores_text(element.name),
                    format,
                    Harvest { parts: Seq::empty(), ..harvest },
                );
                handled(kind, element.attributes, inner.parts, format, Harvest { parts: harvest.parts, ..inner })
            },
        },
    }
}

/// The harvest before anything was visited.
pub open spec fn empty_harvest() -> Harvest {
    Harvest { parts: Seq::empty(), title: None, publication_date: None, errors: Seq::empty() }
}

/// What the walk over the children of `root` gathers.
pub open spec fn harvest_of(root: ElementModel, format: Option<Seq<char>>) -> Harvest {
    gathered(root.children, 0, ignores_text(root.name), format, empty_harvest())
}

/// The document that a harvest amounts to.
pub open spec fn document_of(harvest: Harvest) -> DocumentModel {
    DocumentModel { title: harvest.title, publication_date: harvest.publication_date, content: harvest.parts }
}

/// No two texts stand next to each other in `parts`.
pub open spec fn no_adjacent_texts(parts: Seq<PartModel>) -> bool {
    forall|i: int| 0 <= i < parts.len() - 1 ==> !(#[trigger] parts[i] is Text && parts[i + 1] is Text)
}

/// Nowhere in `part`, at whatever depth, do two texts stand next to each
/// other.
pub open spec fn part_tidy(part: PartModel) -> bool
    decreases part,
{
    match part {
        PartModel::Emphasis(content)
        | PartModel::Header1(content)
        | PartModel::Header2(content)
        | PartModel::Header3(content)
        | PartModel::List(content)
        | PartModel::ListItem(content)
        | PartModel::Paragraph(content) => no_adjacent_texts(content) && forall|i: int|
            0 <= i < content.len() ==> part_tidy(#[trigger] content[i]),
        PartModel::Link { content, .. } => no_adjacent_texts(content) && forall|i: int|
            0 <= i < content.len() ==> part_tidy(#[trigger] content[i]),
        PartModel::Date(..) | PartModel::Image { .. } | PartModel::Text(..) => true,
    }
}

/// Nowhere in `parts`, at whatever depth, do two texts stand next to each
/// other.
pub open spec fn parts_tidy(parts: Seq<PartModel>) -> bool {
    no_adjacent_texts(parts) && forall|i: int| 0 <= i < parts.len() ==> part_tidy(#[trigger] parts[i])
}

/// Nowhere in the parts or in the title of `harvest` do two texts stand
/// next to each other.
pub open spec fn harvest_tidy(harvest: Harvest) -> bool {
    parts_tidy(harvest.parts) && (harvest.title is Some ==> parts_tidy(harvest.title->0))
}

/// Nowhere in the content or in the title of `document` do two texts
/// stand next to each other.
pub open spec fn document_tidy(document: DocumentModel) -> bool {
    parts_tidy(document.content) && (document.title is Some ==> parts_tidy(document.title->0))
}

/// Adding a text to tidy parts leaves them tidy.
pub proof fn lemma_append_text_tidy(parts: Seq<PartModel>, text: Seq<char>)
    requires
        parts_tidy(parts),
    ensures
        parts_tidy(append_text(parts, text)),
{
    let after = append_text(parts, text);
    assert forall|i: int| 0 <= i < after.len() implies part_tidy(#[trigger] after[i]) by {
        if i < parts.len() - 1 {
            assert(after[i] == parts[i]);
        } else if i < parts.len() && !(parts.last() is Text) {
            assert(after[i] == parts[i]);
        }
    }
    assert forall|i: int| 0 <= i < after.len() - 1 implies !(#[trigger] after[i] is Text && after[i + 1] is Text) by {
        if parts.len() > 0 && parts.last() is Text {
            if i < parts.len() - 2 {
                assert(after[i] == parts[i] && after[i + 1] == parts[i + 1]);
            } else {
                assert(after[i] == parts[i]);
                assert(parts[i + 1] is Text);
            }
        } else {
            if i < parts.len() - 1 {
                assert(after[i] == parts[i] && after[i + 1] == parts[i + 1]);
            } else {
                assert(after[i] == parts[i]);
            }
        }
    }
}

/// Adding a tidy part that is no text to tidy parts leaves them tidy.
pub proof fn lemma_push_tidy(parts: Seq<PartModel>, part: PartModel)
    requires
        parts_tidy(parts),
        part_tidy(part),
        !(part is Text),
    ensures
        parts_tidy(parts.push(part)),
{
    let after = parts.push(part);
    assert forall|i: int| 0 <= i < after.len() implies part_tidy(#[trigger] after[i]) by {
        if i < parts.len() {
            assert(after[i] == parts[i]);
        }
    }
    assert forall|i: int| 0 <= i < after.len() - 1 implies !(#[trigger] after[i] is Text && after[i + 1] is Text) by {
        if i < parts.len() - 1 {
            assert(after[i] == parts[i] && after[i + 1] == parts[i + 1]);
        }
    }
}

/// Closing an element over tidy content leaves a tidy harvest tidy.
pub proof fn lemma_handled_tidy(
    kind: SelectorKind,
    attributes: Seq<AttributeModel>,
    content: Seq<PartModel>,
    format: Option<Seq<char>>,
    harvest: Harvest,
)
    requires
        harvest_tidy(harvest),
        parts_tidy(content),
    ensures
        harvest_tidy(handled(kind, attributes, content, format, harvest)),
{
    match effect(kind, attributes, content, format) {
        Ok(Effect::Append(part)) => {
            lemma_push_tidy(harvest.parts, part);
        },
        _ => {},
    }
}

/// Visiting children leaves a tidy harvest tidy.
pub proof fn lemma_gathered_tidy(
    children: Seq<NodeModel>,
    from: int,
    ignore_text: bool,
    format: Option<Seq<char>>,
    harvest: Harvest,
)
    requires
        harvest_tidy(harvest),
    ensures
        harvest_tidy(gathered(children, from, ignore_text, format, harvest)),
    decreases children, children.len() - from,
{
    if 0 <= from < children.len() {
        lemma_visited_tidy(children[from], ignore_text, format, harvest);
        lemma_gathered_tidy(
            children,
            from + 1,
            ignore_text,
            format,
            visited(children[from], ignore_text, format, harvest),
        );
    }
}

/// Visiting one child leaves a tidy harvest tidy.
pub proof fn lemma_visited_tidy(node: NodeModel, ignore_text: bool, format: Option<Seq<char>>, harvest: Harvest)
    requires
        harvest_tidy(harvest),
    ensures
        harvest_tidy(visited(node, ignore_text, format, harvest)),
    decreases node, 0int,
{
    match node {
        NodeModel::Text(text) => {
            if !(ignore_text || text.len() == 0) {
                lemma_append_text_tidy(harvest.parts, text);
            }
        },
        NodeModel::Element(element) => match element.role {
            None => {
                lemma_gathered_tidy(element.children, 0, ignores_text(element.name), format, harvest);
            },
            Some(kind) => {
                let fresh = Harvest { parts: Seq::empty(), ..harvest };
                lemma_gathered_tidy(element.children, 0, ignores_text(element.name), format, fresh);
                let inner = gathered(element.children, 0, ignores_text(element.name), format, fresh);
                lemma_handled_tidy(
                    kind,
                    element.attributes,
                    inner.parts,
                    format,
                    Harvest { parts: harvest.parts, ..inner },
                );
            },
        },
    }
}

/// Whatever the tree and whatever the date format: no sequence of parts in
/// the document gathered from it, at whatever depth, holds two texts next
/// to each other.
pub proof fn lemma_document_is_tidy(root: ElementModel, format: Option<Seq<char>>)
    ensures
        document_tidy(document_of(harvest_of(root, format))),
{
    lemma_gathered_tidy(root.children, 0, ignores_text(root.name), format, empty_harvest());
}

} // verus!
