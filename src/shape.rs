//! The canonical shapes a stored value is normalised into, and the
//! normaliser that builds them from the store's flat reply.

use itertools::Itertools;
use vstd::prelude::*;

verus! {

/// The failures a command can end in.
#[derive(Debug, Clone, Copy, PartialEq, Eq, Structural)]
pub enum PPError {
    /// The command was given no key, or more arguments than a key and one option.
    WrongArity,
    /// The key holds a value of a kind that cannot be rendered.
    WrongType,
    /// The value could not be fetched after its kind was read.
    KeyNotFound,
    /// A mapping's reply held an odd number of elements.
    MalformedReply,
    /// The export sink could not be reached.
    SinkUnavailable,
    /// The JSON colouriser refused the text it was handed.
    EncodeFailed,
}

/// The kind of value the store reports for a key.
#[derive(Debug, Clone, Copy, PartialEq, Eq, Structural)]
pub enum KeyKind {
    Mapping,
    Sequence,
    Collection,
    Unsupported,
    Absent,
}

/// The kinds of value that can be rendered.
#[derive(Debug, Clone, Copy, PartialEq, Eq, Structural)]
pub enum ValueKind {
    Mapping,
    Sequence,
    Collection,
}

/// One element of the store's array reply: a string, or anything else.
#[derive(Debug)]
pub enum ReplyItem {
    Text(String),
    Other,
}

/// A value ready to be rendered.
#[derive(Debug)]
pub enum Shape {
    /// Key/value entries, in the order the store gave them, keys unique.
    Mapping(Vec<(String, String)>),
    /// Items in order, duplicates kept.
    Sequence(Vec<String>),
    /// Distinct items, in the order the store gave them.
    Collection(Vec<String>),
}

pub enum ShapeModel {
    Mapping(Seq<(Seq<char>, Seq<char>)>),
    Sequence(Seq<Seq<char>>),
    Collection(Seq<Seq<char>>),
}

impl View for Shape {
    type V = ShapeModel;

    open spec fn view(&self) -> ShapeModel {
        match self {
            Shape::Mapping(es) => ShapeModel::Mapping(es.deep_view()),
            Shape::Sequence(items) => ShapeModel::Sequence(items.deep_view()),
            Shape::Collection(items) => ShapeModel::Collection(items.deep_view()),
        }
    }
}

pub open spec fn keys_unique(es: Seq<(Seq<char>, Seq<char>)>) -> bool {
    forall|i: int, j: int| 0 <= i < j < es.len() ==> (#[trigger] es[i]).0 != (#[trigger] es[j]).0
}

pub open spec fn items_distinct(s: Seq<Seq<char>>) -> bool {
    forall|i: int, j: int| 0 <= i < j < s.len() ==> #[trigger] s[i] != #[trigger] s[j]
}

impl ShapeModel {
    pub open spec fn wf(self) -> bool {
        match self {
            ShapeModel::Mapping(es) => keys_unique(es),
            ShapeModel::Sequence(_) => true,
            ShapeModel::Collection(items) => items_distinct(items),
        }
    }
}

/// The strings of a reply, in order, other elements left out.
pub open spec fn texts_of(items: Seq<ReplyItem>) -> Seq<Seq<char>>
    decreases items.len(),
{
    if items.len() == 0 {
        seq![]
    } else {
        match items.last() {
            ReplyItem::Text(s) => texts_of(items.drop_last()).push(s@),
            ReplyItem::Other => texts_of(items.drop_last()),
        }
    }
}

/// Consecutive elements taken two by two.
pub open spec fn pairs_of(s: Seq<Seq<char>>) -> Seq<(Seq<char>, Seq<char>)> {
    Seq::new(s.len() / 2, |i: int| (s[2 * i], s[2 * i + 1]))
}

/// Adds an entry: a key already present keeps its place and takes the new value.
pub open spec fn upsert(es: Seq<(Seq<char>, Seq<char>)>, k: Seq<char>, v: Seq<char>) -> Seq<
    (Seq<char>, Seq<char>),
> {
    if exists|i: int| 0 <= i < es.len() && (#[trigger] es[i]).0 == k {
        es.update(choose|i: int| 0 <= i < es.len() && (#[trigger] es[i]).0 == k, (k, v))
    } else {
        es.push((k, v))
    }
}

/// The entries of a pair stream, each key once, at its first place, with its last value.
pub open spec fn entries_of(ps: Seq<(Seq<char>, Seq<char>)>) -> Seq<(Seq<char>, Seq<char>)>
    decreases ps.len(),
{
    if ps.len() == 0 {
        seq![]
    } else {
        upsert(entries_of(ps.drop_last()), ps.last().0, ps.last().1)
    }
}

/// The items, each once, at its first place.
pub open spec fn distinct_of(s: Seq<Seq<char>>) -> Seq<Seq<char>>
    decreases s.len(),
{
    if s.len() == 0 {
        seq![]
    } else if distinct_of(s.drop_last()).contains(s.last()) {
        distinct_of(s.drop_last())
    } else {
        distinct_of(s.drop_last()).push(s.last())
    }
}

/// The shape normalisation gives for a reply of `kind` made of the strings `s`,
/// or `None` where a mapping's reply has an odd length.
pub open spec fn shape_of(kind: ValueKind, s: Seq<Seq<char>>) -> Option<ShapeModel> {
    match kind {
        ValueKind::Mapping => if s.len() % 2 == 1 {
            None
        } else {
            Some(ShapeModel::Mapping(entries_of(pairs_of(s))))
        },
        ValueKind::Sequence => Some(ShapeModel::Sequence(s)),
        ValueKind::Collection => Some(ShapeModel::Collection(distinct_of(s))),
    }
}

/// Relies on itertools' `Itertools::tuples`: consecutive, non-overlapping
/// pairs in order; a last element without a partner is dropped.
#[verifier::external_body]
fn pair_up(items: Vec<String>) -> (r: Vec<(String, String)>)
    ensures
        r@ == Seq::new(items@.len() / 2, |i: int| (items@[2 * i], items@[2 * i + 1])),
{
    items.into_iter().tuples().collect()
}

/// The strings of a reply, in order; elements that are not strings are left out.
pub fn extract_strings(items: Vec<ReplyItem>) -> (r: Vec<String>)
    ensures
        r.deep_view() == texts_of(items@),
{
    let mut out: Vec<String> = Vec::new();
    let mut i: usize = 0;
    while i < items.len()
        invariant
            0 <= i <= items.len(),
            out.deep_view() == texts_of(items@.take(i as int)),
        decreases items.len() - i,
    {
        assert(items@.take(i + 1).drop_last() == items@.take(i as int));
        match &items[i] {
            ReplyItem::Text(s) => {
                out.push(s.clone());
            },
            ReplyItem::Other => {},
        }
        assert(out.deep_view() =~= texts_of(items@.take(i + 1)));
        i = i + 1;
    }
    assert(items@.take(items.len() as int) == items@);
    out
}

/// Which kind of rendering a key's kind calls for: `None` for an absent key,
/// `WrongType` for a kind that cannot be rendered.
pub fn classify(kind: KeyKind) -> (r: Result<Option<ValueKind>, PPError>)
    ensures
        r == match kind {
            KeyKind::Mapping => Ok(Some(ValueKind::Mapping)),
            KeyKind::Sequence => Ok(Some(ValueKind::Sequence)),
            KeyKind::Collection => Ok(Some(ValueKind::Collection)),
            KeyKind::Unsupported => Err(PPError::WrongType),
            KeyKind::Absent => Ok(None),
        },
{
    match kind {
        KeyKind::Mapping => Ok(Some(ValueKind::Mapping)),
        KeyKind::Sequence => Ok(Some(ValueKind::Sequence)),
        KeyKind::Collection => Ok(Some(ValueKind::Collection)),
        KeyKind::Unsupported => Err(PPError::WrongType),
        KeyKind::Absent => Ok(None),
    }
}

/// Folds a pair stream into entries with unique keys: a repeated key keeps
/// its first place and takes its last value.
fn merge_entries(ps: Vec<(String, String)>) -> (r: Vec<(String, String)>)
    ensures
        r.deep_view() == entries_of(ps.deep_view()),
        keys_unique(r.deep_view()),
{
    let mut out: Vec<(String, String)> = Vec::new();
    let mut i: usize = 0;
    while i < ps.len()
        invariant
            0 <= i <= ps.len(),
            out.deep_view() == entries_of(ps.deep_view().take(i as int)),
            keys_unique(out.deep_view()),
        decreases ps.len() - i,
    {
        let k = ps[i].0.clone();
        let v = ps[i].1.clone();
        let ghost es = out.deep_view();
        assert(ps.deep_view().take(i + 1).drop_last() == ps.deep_view().take(i as int));
        assert(ps.deep_view().take(i + 1).last() == (k@, v@));
        let mut j: usize = 0;
        let mut found = false;
        while !found && j < out.len()
            invariant
                0 <= j <= out.len(),
                es == out.deep_view(),
                !found ==> forall|m: int| 0 <= m < j ==> (#[trigger] es[m]).0 != k@,
                found ==> j < out.len() && es[j as int].0 == k@,
            decreases out.len() - j + (if found { 0int } else { 1int }),
        {
            if out[j].0 == k {
                found = true;
            } else {
                j = j + 1;
            }
        }
        if found {
            proof {
                let c = choose|c: int| 0 <= c < es.len() && (#[trigger] es[c]).0 == k@;
                assert(0 <= c < es.len() && es[c].0 == k@);
                if c < j {
                    assert(es[c].0 != es[j as int].0);
                } else if c > j {
                    assert(es[j as int].0 != es[c].0);
                }
            }
            out[j] = (k, v);
            assert(out.deep_view() =~= es.update(j as int, (k@, v@)));
        } else {
            assert(!exists|c: int| 0 <= c < es.len() && (#[trigger] es[c]).0 == k@);
            out.push((k, v));
            assert(out.deep_view() =~= es.push((k@, v@)));
        }
        i = i + 1;
    }
    assert(ps.deep_view().take(ps.len() as int) == ps.deep_view());
    out
}

/// The items, each once, at its first place.
fn distinct_items(items: Vec<String>) -> (r: Vec<String>)
    ensures
        r.deep_view() == distinct_of(items.deep_view()),
        items_distinct(r.deep_view()),
{
    let mut out: Vec<String> = Vec::new();
    let mut i: usize = 0;
    while i < items.len()
        invariant
            0 <= i <= items.len(),
            out.deep_view() == distinct_of(items.deep_view().take(i as int)),
            items_distinct(out.deep_view()),
        decreases items.len() - i,
    {
        let x = items[i].clone();
        let ghost es = out.deep_view();
        assert(items.deep_view().take(i + 1).drop_last() == items.deep_view().take(i as int));
        assert(items.deep_view().take(i + 1).last() == x@);
        let mut j: usize = 0;
        let mut found = false;
        while !found && j < out.len()
            invariant
                0 <= j <= out.len(),
                es == out.deep_view(),
                !found ==> forall|m: int| 0 <= m < j ==> #[trigger] es[m] != x@,
                found ==> j < out.len() && es[j as int] == x@,
            decreases out.len() - j + (if found { 0int } else { 1int }),
        {
            if out[j] == x {
                found = true;
            } else {
                j = j + 1;
            }
        }
        if found {
            assert(es.contains(x@));
        } else {
            assert(!es.contains(x@)) by {
                assert forall|m: int| 0 <= m < es.len() implies es[m] != x@ by {}
            }
            out.push(x);
            assert(out.deep_view() =~= es.push(x@));
        }
        i = i + 1;
    }
    assert(items.deep_view().take(items.len() as int) == items.deep_view());
    out
}

/// Builds the shape of a reply of `kind` made of the strings `items`.
/// A mapping's reply of odd length is refused with `MalformedReply`.
pub fn normalize(kind: ValueKind, items: Vec<String>) -> (r: Result<Shape, PPError>)
    ensures
        match shape_of(kind, items.deep_view()) {
            Some(m) => r matches Ok(s) && s@ == m,
            None => r == Err::<Shape, PPError>(PPError::MalformedReply),
        },
        r matches Ok(s) ==> s@.wf(),
{
    match kind {
        ValueKind::Mapping => {
            if items.len() % 2 == 1 {
                return Err(PPError::MalformedReply);
            }
            let ghost s = items.deep_view();
            let ps = pair_up(items);
            assert(ps.deep_view() =~= pairs_of(s));
            Ok(Shape::Mapping(merge_entries(ps)))
        },
        ValueKind::Sequence => Ok(Shape::Sequence(items)),
        ValueKind::Collection => Ok(Shape::Collection(distinct_items(items))),
    }
}

} // verus!
