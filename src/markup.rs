//! HTML markup: a mapping as a table with a header row of keys over a row of
//! values, a sequence as an ordered list, a collection as an unordered list.
//! Every text is escaped before it is placed in the markup.

use build_html::{Html, HtmlContainer};
use vstd::prelude::*;
use crate::shape::{Shape, ShapeModel};
use crate::text::{chars_of, string_of};
use crate::table::{keys_of, values_of, table_layout};

verus! {

/// Which list element holds the items.
#[derive(Debug, Clone, Copy, PartialEq, Eq, Structural)]
pub enum ListKind {
    Ordered,
    Unordered,
}

/// What one character becomes in escaped text.
pub open spec fn escape_char(c: char) -> Seq<char> {
    if c == '"' {
        seq!['&', 'q', 'u', 'o', 't', ';']
    } else if c == '\'' {
        seq!['&', '#', '3', '9', ';']
    } else if c == '&' {
        seq!['&', 'a', 'm', 'p', ';']
    } else if c == '<' {
        seq!['&', 'l', 't', ';']
    } else if c == '>' {
        seq!['&', 'g', 't', ';']
    } else {
        seq![c]
    }
}

pub open spec fn escaped(s: Seq<char>) -> Seq<char>
    decreases s.len(),
{
    if s.len() == 0 {
        seq![]
    } else {
        escape_char(s[0]) + escaped(s.drop_first())
    }
}

pub open spec fn escaped_all(items: Seq<Seq<char>>) -> Seq<Seq<char>> {
    Seq::new(items.len(), |i: int| escaped(items[i]))
}

/// An element named `name` around its rendered children; `<name/>` when it
/// has none.
pub open spec fn element(name: Seq<char>, children: Seq<Seq<char>>) -> Seq<char> {
    if children.len() == 0 {
        seq!['<'] + name + seq!['/', '>']
    } else {
        seq!['<'] + name + seq!['>'] + children.flatten() + seq!['<', '/'] + name + seq!['>']
    }
}

/// Each text in an element of its own.
pub open spec fn each_in(name: Seq<char>, texts: Seq<Seq<char>>) -> Seq<Seq<char>> {
    Seq::new(texts.len(), |i: int| element(name, seq![texts[i]]))
}

/// The `th` cells of a header row.
pub open spec fn header_cells(titles: Seq<Seq<char>>) -> Seq<Seq<char>> {
    each_in(seq!['t', 'h'], titles)
}

/// The `td` cells of a data row.
pub open spec fn data_cells(values: Seq<Seq<char>>) -> Seq<Seq<char>> {
    each_in(seq!['t', 'd'], values)
}

/// The `li` elements of a list.
pub open spec fn list_items(items: Seq<Seq<char>>) -> Seq<Seq<char>> {
    each_in(seq!['l', 'i'], items)
}

pub open spec fn list_tag(kind: ListKind) -> Seq<char> {
    match kind {
        ListKind::Ordered => seq!['o', 'l'],
        ListKind::Unordered => seq!['u', 'l'],
    }
}

/// A list element with one `li` per item.
pub open spec fn list_markup(kind: ListKind, items: Seq<Seq<char>>) -> Seq<char> {
    element(list_tag(kind), list_items(items))
}

/// A table with one header row of `th` cells and one body row of `td` cells.
pub open spec fn table_markup(titles: Seq<Seq<char>>, values: Seq<Seq<char>>) -> Seq<char> {
    element(
        seq!['t', 'a', 'b', 'l', 'e'],
        seq![
            element(
                seq!['t', 'h', 'e', 'a', 'd'],
                seq![element(seq!['t', 'r'], header_cells(titles))],
            ),
            element(
                seq!['t', 'b', 'o', 'd', 'y'],
                seq![element(seq!['t', 'r'], data_cells(values))],
            ),
        ],
    )
}

/// The markup of a shape.
pub open spec fn markup_of(m: ShapeModel) -> Seq<char> {
    match m {
        ShapeModel::Mapping(es) => table_markup(
            escaped_all(keys_of(es)),
            escaped_all(values_of(es)),
        ),
        ShapeModel::Sequence(s) => list_markup(ListKind::Ordered, escaped_all(s)),
        ShapeModel::Collection(s) => list_markup(ListKind::Unordered, escaped_all(s)),
    }
}

proof fn lemma_escaped_push(s: Seq<char>, c: char)
    ensures
        escaped(s.push(c)) == escaped(s) + escape_char(c),
    decreases s.len(),
{
    if s.len() == 0 {
        assert(s.push(c)[0] == c);
        assert(s.push(c).drop_first() =~= Seq::<char>::empty());
        assert(escaped(Seq::<char>::empty()) == Seq::<char>::empty());
        assert(escape_char(c) + Seq::<char>::empty() =~= escape_char(c));
        assert(Seq::<char>::empty() + escape_char(c) =~= escape_char(c));
    } else {
        assert(s.push(c)[0] == s[0]);
        assert(s.push(c).drop_first() =~= s.drop_first().push(c));
        lemma_escaped_push(s.drop_first(), c);
        let h = escape_char(s[0]);
        assert(h + (escaped(s.drop_first()) + escape_char(c)) =~= (h + escaped(s.drop_first()))
            + escape_char(c));
    }
}

/// Appends what `c` becomes in escaped text.
fn push_escaped(out: &mut Vec<char>, c: char)
    ensures
        final(out)@ == old(out)@ + escape_char(c),
{
    let ghost start = out@;
    if c == '"' {
        out.push('&');
        out.push('q');
        out.push('u');
        out.push('o');
        out.push('t');
        out.push(';');
    } else if c == '\'' {
        out.push('&');
        out.push('#');
        out.push('3');
        out.push('9');
        out.push(';');
    } else if c == '&' {
        out.push('&');
        out.push('a');
        out.push('m');
        out.push('p');
        out.push(';');
    } else if c == '<' {
        out.push('&');
        out.push('l');
        out.push('t');
        out.push(';');
    } else if c == '>' {
        out.push('&');
        out.push('g');
        out.push('t');
        out.push(';');
    } else {
        out.push(c);
    }
    assert(out@ =~= start + escape_char(c));
}

/// The text with each `"`, `'`, `&`, `<` and `>` replaced by its character
/// reference.
fn escape_text(s: &str) -> (r: String)
    ensures
        r@ == escaped(s@),
{
    let cs = chars_of(s);
    let mut out: Vec<char> = Vec::new();
    let mut i: usize = 0;
    while i < cs.len()
        invariant
            cs@ == s@,
            0 <= i <= cs.len(),
            out@ == escaped(cs@.take(i as int)),
        decreases cs.len() - i,
    {
        proof {
            assert(cs@.take(i + 1) =~= cs@.take(i as int).push(cs@[i as int]));
            lemma_escaped_push(cs@.take(i as int), cs@[i as int]);
        }
        push_escaped(&mut out, cs[i]);
        i = i + 1;
    }
    assert(cs@.take(cs.len() as int) =~= cs@);
    string_of(&out)
}

/// Relies on build_html's `Table`: `Table::from` with one body row,
/// `add_header_row`, then `to_html_string`, which writes each cell's text as
/// it is and an element without children as `<tag/>`.
#[verifier::external_body]
fn html_table(titles: &Vec<String>, values: &Vec<String>) -> (r: String)
    ensures
        r@ == table_markup(titles.deep_view(), values.deep_view()),
{
    let mut table = build_html::Table::from([values]);
    table.add_header_row(titles);
    table.to_html_string()
}

/// Relies on build_html's `Container` of an ordered or unordered list type:
/// `add_raw` wraps each text in `li`, and `to_html_string` writes the texts as
/// they are and an empty list as `<ol/>` or `<ul/>`.
#[verifier::external_body]
fn html_list(kind: ListKind, items: &Vec<String>) -> (r: String)
    ensures
        r@ == list_markup(kind, items.deep_view()),
{
    let container_type = match kind {
        ListKind::Ordered => build_html::ContainerType::OrderedList,
        ListKind::Unordered => build_html::ContainerType::UnorderedList,
    };
    let mut list = build_html::Container::new(container_type);
    for item in items {
        list.add_raw(item);
    }
    list.to_html_string()
}

/// Each text escaped, in order.
fn escape_each(items: &Vec<String>) -> (r: Vec<String>)
    ensures
        r.deep_view() == escaped_all(items.deep_view()),
{
    let mut out: Vec<String> = Vec::new();
    let mut i: usize = 0;
    while i < items.len()
        invariant
            0 <= i <= items.len(),
            out.deep_view() =~= escaped_all(items.deep_view().take(i as int)),
        decreases items.len() - i,
    {
        let e = escape_text(items[i].as_str());
        let ghost o0 = out.deep_view();
        out.push(e);
        assert(out.deep_view() =~= o0.push(escaped(items@[i as int]@)));
        i = i + 1;
    }
    assert(items.deep_view().take(items.len() as int) =~= items.deep_view());
    out
}

/// Renders a shape as markup: a mapping as a table with a header row of keys
/// over a row of values, a sequence as an ordered list, a collection as an
/// unordered list, every text escaped.
pub fn render_markup(shape: &Shape) -> (r: String)
    ensures
        r@ == markup_of(shape@),
{
    let layout = table_layout(shape);
    let data = escape_each(&layout.data);
    match &layout.header {
        Some(titles) => {
            let titles = escape_each(titles);
            html_table(&titles, &data)
        },
        None => match shape {
            Shape::Sequence(_) => html_list(ListKind::Ordered, &data),
            _ => html_list(ListKind::Unordered, &data),
        },
    }
}

} // verus!
