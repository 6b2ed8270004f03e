//! The row layout shared by the tabular encoders, and the aligned text table.

use vstd::prelude::*;
use crate::shape::{Shape, ShapeModel};

verus! {

/// What a tabular encoder prints: an optional header row above one data row.
pub struct TableLayout {
    pub header: Option<Vec<String>>,
    pub data: Vec<String>,
}

/// The keys of the entries, in order.
pub open spec fn keys_of(es: Seq<(Seq<char>, Seq<char>)>) -> Seq<Seq<char>> {
    Seq::new(es.len(), |i: int| es[i].0)
}

/// The values of the entries, in order.
pub open spec fn values_of(es: Seq<(Seq<char>, Seq<char>)>) -> Seq<Seq<char>> {
    Seq::new(es.len(), |i: int| es[i].1)
}

/// The header row: a mapping's keys; other shapes have none.
pub open spec fn header_of(m: ShapeModel) -> Option<Seq<Seq<char>>> {
    match m {
        ShapeModel::Mapping(es) => Some(keys_of(es)),
        _ => None,
    }
}

/// The data row: a mapping's values, or the items in order.
pub open spec fn data_of(m: ShapeModel) -> Seq<Seq<char>> {
    match m {
        ShapeModel::Mapping(es) => values_of(es),
        ShapeModel::Sequence(s) => s,
        ShapeModel::Collection(s) => s,
    }
}

/// The rows of the layout, header first.
pub open spec fn rows_of(m: ShapeModel) -> Seq<Seq<Seq<char>>> {
    match header_of(m) {
        Some(h) => seq![h, data_of(m)],
        None => seq![data_of(m)],
    }
}

/// The keys and the values of `es`, each in the entries' order.
fn split_entries(es: &Vec<(String, String)>) -> (r: (Vec<String>, Vec<String>))
    ensures
        r.0.deep_view() == keys_of(es.deep_view()),
        r.1.deep_view() == values_of(es.deep_view()),
{
    let mut keys: Vec<String> = Vec::new();
    let mut values: Vec<String> = Vec::new();
    let mut i: usize = 0;
    while i < es.len()
        invariant
            0 <= i <= es.len(),
            keys.deep_view() == keys_of(es.deep_view().take(i as int)),
            values.deep_view() == values_of(es.deep_view().take(i as int)),
        decreases es.len() - i,
    {
        let ghost dv = es.deep_view();
        assert(dv[i as int] == (es@[i as int].0@, es@[i as int].1@));
        assert(dv.take(i + 1) =~= dv.take(i as int).push(dv[i as int]));
        let ghost k0 = keys.deep_view();
        let ghost v0 = values.deep_view();
        keys.push(es[i].0.clone());
        values.push(es[i].1.clone());
        assert(keys.deep_view() =~= k0.push(dv[i as int].0));
        assert(values.deep_view() =~= v0.push(dv[i as int].1));
        assert(keys_of(dv.take(i + 1)) =~= keys_of(dv.take(i as int)).push(dv[i as int].0));
        assert(values_of(dv.take(i + 1)) =~= values_of(dv.take(i as int)).push(dv[i as int].1));
        i = i + 1;
    }
    assert(es.deep_view().take(es.len() as int) == es.deep_view());
    (keys, values)
}

/// Lays a shape out as rows: a mapping gives its keys as a header over its
/// values; a sequence or a collection gives one row of its items.
pub fn table_layout(shape: &Shape) -> (r: TableLayout)
    ensures
        r.data.deep_view() == data_of(shape@),
        match header_of(shape@) {
            Some(h) => r.header matches Some(t) && t.deep_view() == h,
            None => r.header is None,
        },
{
    match shape {
        Shape::Mapping(es) => {
            let (keys, values) = split_entries(es);
            TableLayout { header: Some(keys), data: values }
        },
        Shape::Sequence(items) => TableLayout { header: None, data: items.clone() },
        Shape::Collection(items) => TableLayout { header: None, data: items.clone() },
    }
}

/// What prettytable prints for a table with a title row and one data row.
pub uninterp spec fn titled_table_text(titles: Seq<Seq<char>>, values: Seq<Seq<char>>) -> Seq<char>;

/// What prettytable prints for a table of one row and no title.
pub uninterp spec fn plain_table_text(values: Seq<Seq<char>>) -> Seq<char>;

/// Relies on prettytable's `Table` printed through `Display` in the
/// `FORMAT_NO_LINESEP_WITH_TITLE` style: its text depends on the cells alone.
#[verifier::external_body]
fn titled_table(titles: &Vec<String>, values: &Vec<String>) -> (r: String)
    ensures
        r@ == titled_table_text(titles.deep_view(), values.deep_view()),
{
    let mut table = prettytable::Table::new();
    table.set_format(*prettytable::format::consts::FORMAT_NO_LINESEP_WITH_TITLE);
    table.set_titles(prettytable::Row::from(titles));
    table.add_row(prettytable::Row::from(values));
    table.to_string()
}

/// Relies on prettytable's `Table` printed through `Display` in the
/// `FORMAT_NO_LINESEP` style: its text depends on the cells alone.
#[verifier::external_body]
fn plain_table(values: &Vec<String>) -> (r: String)
    ensures
        r@ == plain_table_text(values.deep_view()),
{
    let mut table = prettytable::Table::new();
    table.set_format(*prettytable::format::consts::FORMAT_NO_LINESEP);
    table.add_row(prettytable::Row::from(values));
    table.to_string()
}

/// The aligned text table of a shape's layout.
pub open spec fn table_text(m: ShapeModel) -> Seq<char> {
    match header_of(m) {
        Some(h) => titled_table_text(h, data_of(m)),
        None => plain_table_text(data_of(m)),
    }
}

/// Renders a shape as an aligned text table: a mapping as a title row of keys
/// over a row of values, other shapes as one row of items.
pub fn render_table(shape: &Shape) -> (r: String)
    ensures
        r@ == table_text(shape@),
{
    let layout = table_layout(shape);
    match &layout.header {
        Some(titles) => titled_table(titles, &layout.data),
        None => plain_table(&layout.data),
    }
}

} // verus!
