//! Properties that hold across the encoders.

use vstd::prelude::*;
use crate::delimited::{
    decode_record, delimited_of, encode_record, encode_records,
    lemma_decode_nonempty_record, lemma_record_round_trip,
};
use crate::json::{json_array_text, json_of};
use crate::markup::{
    ListKind, data_cells, element, escaped, escaped_all, header_cells, list_items, list_markup,
    markup_of, table_markup,
};
use crate::shape::ShapeModel;
use crate::table::{
    data_of, header_of, keys_of, plain_table_text, rows_of, table_text, titled_table_text,
    values_of,
};

verus! {

proof fn lemma_one_record(row: Seq<Seq<char>>)
    ensures
        encode_records(seq![row]) == encode_record(row),
{
    assert(seq![row].drop_last() =~= Seq::<Seq<Seq<char>>>::empty());
    assert(seq![row].last() == row);
    assert(encode_records(Seq::<Seq<Seq<char>>>::empty()) == Seq::<char>::empty());
    assert(Seq::<char>::empty() + encode_record(row) =~= encode_record(row));
}

/// For a mapping, the header row and the data row have one column per entry,
/// and column `i` holds the `i`-th entry's key over its value. The text table,
/// the CSV records and the markup table are all made of these two rows, so
/// in each of them the header cells and the data cells line up the same way.
pub proof fn lemma_mapping_columns(es: Seq<(Seq<char>, Seq<char>)>)
    ensures
        header_of(ShapeModel::Mapping(es)) == Some(keys_of(es)),
        data_of(ShapeModel::Mapping(es)) == values_of(es),
        keys_of(es).len() == es.len(),
        values_of(es).len() == es.len(),
        forall|i: int|
            0 <= i < es.len() ==> #[trigger] keys_of(es)[i] == es[i].0 && values_of(es)[i]
                == es[i].1,
        table_text(ShapeModel::Mapping(es)) == titled_table_text(keys_of(es), values_of(es)),
        rows_of(ShapeModel::Mapping(es)) == seq![keys_of(es), values_of(es)],
        markup_of(ShapeModel::Mapping(es)) == table_markup(
            escaped_all(keys_of(es)),
            escaped_all(values_of(es)),
        ),
        header_cells(escaped_all(keys_of(es))).len() == es.len(),
        data_cells(escaped_all(values_of(es))).len() == es.len(),
        forall|i: int|
            0 <= i < es.len() ==> #[trigger] header_cells(escaped_all(keys_of(es)))[i]
                == element(seq!['t', 'h'], seq![escaped(es[i].0)]) && data_cells(escaped_all(values_of(es)))[i] == element(seq!['t', 'd'], seq![escaped(es[i].1)]),
{
}

/// For a sequence, every encoder keeps the items' order: the JSON array and
/// the text table are printed from the items as given, the `i`-th list item of
/// the markup holds the `i`-th item, and the CSV record reads back as the
/// items in order (an empty sequence reads back as one empty field, since
/// CSV writes both alike).
pub proof fn lemma_sequence_order(s: Seq<Seq<char>>)
    ensures
        json_of(ShapeModel::Sequence(s)) == json_array_text(s),
        table_text(ShapeModel::Sequence(s)) == plain_table_text(s),
        delimited_of(ShapeModel::Sequence(s)) == encode_record(s),
        s.len() > 0 ==> decode_record(delimited_of(ShapeModel::Sequence(s))) == s,
        markup_of(ShapeModel::Sequence(s)) == list_markup(ListKind::Ordered, escaped_all(s)),
        list_items(escaped_all(s)).len() == s.len(),
        forall|i: int|
            0 <= i < s.len() ==> #[trigger] list_items(escaped_all(s))[i] == element(
                seq!['l', 'i'],
                seq![escaped(s[i])],
            ),
{
    lemma_one_record(s);
    if s.len() > 0 {
        lemma_decode_nonempty_record(s);
    }
}

/// For a collection, reading the CSV text back and encoding what was read
/// gives the same text, character for character.
pub proof fn lemma_collection_round_trip(s: Seq<Seq<char>>)
    ensures
        encode_record(decode_record(delimited_of(ShapeModel::Collection(s)))) == delimited_of(
            ShapeModel::Collection(s),
        ),
{
    lemma_one_record(s);
    lemma_record_round_trip(s);
}

} // verus!
