//! Comma-separated records: a field is quoted when it holds a comma, a quote
//! or a line break, and quotes inside a quoted field are doubled. Each record
//! ends with `\n`; a record whose fields write no character at all is written
//! as `""` so that it still reads back as one empty field.

use vstd::prelude::*;
use crate::shape::{Shape, ShapeModel};
use crate::table::{rows_of, table_layout};
use crate::text::{chars_of, string_of};

verus! {

/// The characters that force a field into quotes.
pub open spec fn is_special(c: char) -> bool {
    c == ',' || c == '"' || c == '\r' || c == '\n'
}

pub open spec fn needs_quotes(f: Seq<char>) -> bool {
    exists|i: int| 0 <= i < f.len() && is_special(#[trigger] f[i])
}

/// The field's characters with every quote doubled.
pub open spec fn doubled_quotes(f: Seq<char>) -> Seq<char>
    decreases f.len(),
{
    if f.len() == 0 {
        seq![]
    } else {
        (if f[0] == '"' { seq!['"', '"'] } else { seq![f[0]] }) + doubled_quotes(f.drop_first())
    }
}

pub open spec fn encode_field(f: Seq<char>) -> Seq<char> {
    if needs_quotes(f) {
        seq!['"'] + doubled_quotes(f) + seq!['"']
    } else {
        f
    }
}

/// The encoded fields, separated by commas.
pub open spec fn joined_fields(fs: Seq<Seq<char>>) -> Seq<char>
    decreases fs.len(),
{
    if fs.len() == 0 {
        seq![]
    } else if fs.len() == 1 {
        encode_field(fs[0])
    } else {
        encode_field(fs[0]) + seq![','] + joined_fields(fs.drop_first())
    }
}

pub open spec fn encode_record(fs: Seq<Seq<char>>) -> Seq<char> {
    (if joined_fields(fs).len() == 0 { seq!['"', '"'] } else { joined_fields(fs) }) + seq!['\n']
}

/// The records one after the other.
pub open spec fn encode_records(rows: Seq<Seq<Seq<char>>>) -> Seq<char>
    decreases rows.len(),
{
    if rows.len() == 0 {
        seq![]
    } else {
        encode_records(rows.drop_last()) + encode_record(rows.last())
    }
}

proof fn lemma_doubled_quotes_push(f: Seq<char>, c: char)
    ensures
        doubled_quotes(f.push(c)) == doubled_quotes(f) + (if c == '"' {
            seq!['"', '"']
        } else {
            seq![c]
        }),
    decreases f.len(),
{
    let e = if c == '"' { seq!['"', '"'] } else { seq![c] };
    if f.len() == 0 {
        assert(f.push(c)[0] == c);
        assert(f.push(c).drop_first() =~= Seq::<char>::empty());
        assert(doubled_quotes(Seq::<char>::empty()) == Seq::<char>::empty());
        assert(e + Seq::<char>::empty() =~= e);
        assert(doubled_quotes(f) == Seq::<char>::empty());
        assert(Seq::<char>::empty() + e =~= e);
    } else {
        assert(f.push(c).drop_first() == f.drop_first().push(c));
        lemma_doubled_quotes_push(f.drop_first(), c);
        let h = if f[0] == '"' { seq!['"', '"'] } else { seq![f[0]] };
        assert(doubled_quotes(f.push(c)) == h + doubled_quotes(f.drop_first().push(c)));
        assert(h + (doubled_quotes(f.drop_first()) + e) == (h + doubled_quotes(f.drop_first())) + e);
    }
}

proof fn lemma_joined_fields_push(fs: Seq<Seq<char>>, f: Seq<char>)
    ensures
        joined_fields(fs.push(f)) == if fs.len() == 0 {
            encode_field(f)
        } else {
            joined_fields(fs) + seq![','] + encode_field(f)
        },
    decreases fs.len(),
{
    assert(fs.push(f)[fs.len() as int] == f);
    if fs.len() == 0 {
    } else if fs.len() == 1 {
        assert(fs.push(f)[0] == fs[0]);
        assert(fs.push(f).drop_first() =~= seq![f]);
        assert(joined_fields(seq![f]) == encode_field(seq![f][0]));
    } else {
        assert(fs.push(f)[0] == fs[0]);
        assert(fs.push(f).drop_first() =~= fs.drop_first().push(f));
        lemma_joined_fields_push(fs.drop_first(), f);
        let a = encode_field(fs[0]);
        let b = joined_fields(fs.drop_first());
        assert(a + seq![','] + (b + seq![','] + encode_field(f))
            == (a + seq![','] + b) + seq![','] + encode_field(f));
    }
}

/// Whether any character of `cs` forces quotes.
fn any_special(cs: &Vec<char>) -> (r: bool)
    ensures
        r == needs_quotes(cs@),
{
    let mut i: usize = 0;
    while i < cs.len()
        invariant
            0 <= i <= cs.len(),
            forall|j: int| 0 <= j < i ==> !is_special(#[trigger] cs@[j]),
        decreases cs.len() - i,
    {
        let c = cs[i];
        if c == ',' || c == '"' || c == '\r' || c == '\n' {
            return true;
        }
        i = i + 1;
    }
    false
}

/// Appends the encoding of field `f` to `out`.
fn push_field(out: &mut Vec<char>, f: &str)
    ensures
        final(out)@ == old(out)@ + encode_field(f@),
{
    let cs = chars_of(f);
    if any_special(&cs) {
        out.push('"');
        let ghost start = out@;
        let mut i: usize = 0;
        while i < cs.len()
            invariant
                cs@ == f@,
                0 <= i <= cs.len(),
                out@ == start + doubled_quotes(cs@.take(i as int)),
            decreases cs.len() - i,
        {
            let c = cs[i];
            proof {
                assert(cs@.take(i + 1) == cs@.take(i as int).push(c));
                lemma_doubled_quotes_push(cs@.take(i as int), c);
            }
            if c == '"' {
                out.push('"');
                out.push('"');
            } else {
                out.push(c);
            }
            i = i + 1;
        }
        assert(cs@.take(cs.len() as int) == cs@);
        out.push('"');
    } else {
        let ghost start = out@;
        let mut i: usize = 0;
        while i < cs.len()
            invariant
                cs@ == f@,
                0 <= i <= cs.len(),
                out@ == start + cs@.take(i as int),
            decreases cs.len() - i,
        {
            out.push(cs[i]);
            i = i + 1;
            assert(cs@.take(i as int) == cs@.take(i - 1).push(cs@[i - 1]));
        }
        assert(cs@.take(cs.len() as int) == cs@);
    }
}

/// Appends one record made of `fields` to `out`.
fn push_record(out: &mut Vec<char>, fields: &Vec<String>)
    ensures
        final(out)@ == old(out)@ + encode_record(fields.deep_view()),
{
    let ghost start = out@;
    let start_len = out.len();
    let mut i: usize = 0;
    while i < fields.len()
        invariant
            0 <= i <= fields.len(),
            start_len == start.len(),
            out@ == start + joined_fields(fields.deep_view().take(i as int)),
        decreases fields.len() - i,
    {
        proof {
            assert(fields.deep_view().take(i + 1) == fields.deep_view().take(i as int).push(
                fields@[i as int]@,
            ));
            lemma_joined_fields_push(fields.deep_view().take(i as int), fields@[i as int]@);
        }
        if i > 0 {
            out.push(',');
        }
        push_field(out, fields[i].as_str());
        i = i + 1;
    }
    assert(fields.deep_view().take(fields.len() as int) == fields.deep_view());
    if out.len() == start_len {
        out.push('"');
        out.push('"');
    }
    out.push('\n');
}

/// The records of `rows` as comma-separated text.
pub fn delimited_text(rows: &Vec<Vec<String>>) -> (r: String)
    ensures
        r@ == encode_records(rows.deep_view()),
{
    let mut out: Vec<char> = Vec::new();
    let mut i: usize = 0;
    while i < rows.len()
        invariant
            0 <= i <= rows.len(),
            out@ == encode_records(rows.deep_view().take(i as int)),
        decreases rows.len() - i,
    {
        push_record(&mut out, &rows[i]);
        i = i + 1;
        assert(rows.deep_view().take(i as int).drop_last() == rows.deep_view().take(i - 1));
    }
    assert(rows.deep_view().take(rows.len() as int) == rows.deep_view());
    string_of(&out)
}

/// Reads the rest of a quoted field, up to its closing quote: the field's
/// characters and what follows the closing quote.
pub open spec fn parse_quoted(s: Seq<char>) -> (Seq<char>, Seq<char>)
    decreases s.len(),
{
    if s.len() == 0 {
        (seq![], seq![])
    } else if s[0] == '"' {
        if s.len() >= 2 && s[1] == '"' {
            let (f, rest) = parse_quoted(s.drop_first().drop_first());
            (seq!['"'] + f, rest)
        } else {
            (seq![], s.drop_first())
        }
    } else {
        let (f, rest) = parse_quoted(s.drop_first());
        (seq![s[0]] + f, rest)
    }
}

/// Reads an unquoted field, up to the next comma.
pub open spec fn parse_plain(s: Seq<char>) -> (Seq<char>, Seq<char>)
    decreases s.len(),
{
    if s.len() == 0 || s[0] == ',' {
        (seq![], s)
    } else {
        let (f, rest) = parse_plain(s.drop_first());
        (seq![s[0]] + f, rest)
    }
}

pub open spec fn parse_field(s: Seq<char>) -> (Seq<char>, Seq<char>) {
    if s.len() > 0 && s[0] == '"' {
        parse_quoted(s.drop_first())
    } else {
        parse_plain(s)
    }
}

/// Reads the fields of one record's text (without its terminator).
pub open spec fn decode_fields(s: Seq<char>) -> Seq<Seq<char>>
    decreases s.len(),
{
    let (f, rest) = parse_field(s);
    if 0 < rest.len() <= s.len() {
        seq![f] + decode_fields(rest.drop_first())
    } else {
        seq![f]
    }
}

/// Reads the fields of one record, terminator included.
pub open spec fn decode_record(s: Seq<char>) -> Seq<Seq<char>> {
    if s.len() > 0 && s.last() == '\n' {
        decode_fields(s.drop_last())
    } else {
        decode_fields(s)
    }
}

proof fn lemma_parse_quoted(f: Seq<char>, t: Seq<char>)
    requires
        t.len() == 0 || t[0] == ',',
    ensures
        parse_quoted(doubled_quotes(f) + seq!['"'] + t) == (f, t),
    decreases f.len(),
{
    let s = doubled_quotes(f) + seq!['"'] + t;
    if f.len() == 0 {
        assert(doubled_quotes(f) =~= Seq::<char>::empty());
        assert(s =~= seq!['"'] + t);
        assert(s.drop_first() =~= t);
        if s.len() >= 2 {
            assert(s[1] == t[0]);
        }
        assert(f =~= Seq::<char>::empty());
    } else {
        let tail = doubled_quotes(f.drop_first()) + seq!['"'] + t;
        lemma_parse_quoted(f.drop_first(), t);
        if f[0] == '"' {
            assert(s =~= seq!['"', '"'] + tail);
            assert(s.drop_first().drop_first() =~= tail);
            assert(seq!['"'] + f.drop_first() =~= f);
        } else {
            assert(s =~= seq![f[0]] + tail);
            assert(s.drop_first() =~= tail);
            assert(seq![f[0]] + f.drop_first() =~= f);
        }
    }
}

proof fn lemma_parse_plain(f: Seq<char>, t: Seq<char>)
    requires
        !needs_quotes(f),
        t.len() == 0 || t[0] == ',',
    ensures
        parse_plain(f + t) == (f, t),
    decreases f.len(),
{
    let s = f + t;
    if f.len() == 0 {
        assert(s =~= t);
        assert(f =~= Seq::<char>::empty());
    } else {
        assert(!is_special(f[0]));
        assert forall|i: int| 0 <= i < f.drop_first().len() implies !is_special(
            #[trigger] f.drop_first()[i],
        ) by {
            assert(f.drop_first()[i] == f[i + 1]);
        }
        lemma_parse_plain(f.drop_first(), t);
        assert(s.drop_first() =~= f.drop_first() + t);
        assert(seq![f[0]] + f.drop_first() =~= f);
    }
}

proof fn lemma_parse_field(f: Seq<char>, t: Seq<char>)
    requires
        t.len() == 0 || t[0] == ',',
    ensures
        parse_field(encode_field(f) + t) == (f, t),
{
    if needs_quotes(f) {
        let s = encode_field(f) + t;
        assert(s =~= seq!['"'] + (doubled_quotes(f) + seq!['"'] + t));
        assert(s.drop_first() =~= doubled_quotes(f) + seq!['"'] + t);
        lemma_parse_quoted(f, t);
    } else {
        if f.len() > 0 {
            assert(!is_special(f[0]));
            assert((f + t)[0] == f[0]);
        } else {
            assert(f + t =~= t);
        }
        lemma_parse_plain(f, t);
    }
}

proof fn lemma_decode_joined(fs: Seq<Seq<char>>)
    requires
        fs.len() >= 1,
    ensures
        decode_fields(joined_fields(fs)) == fs,
    decreases fs.len(),
{
    let s = joined_fields(fs);
    if fs.len() == 1 {
        assert(s + Seq::<char>::empty() =~= s);
        lemma_parse_field(fs[0], Seq::<char>::empty());
        assert(seq![fs[0]] =~= fs);
    } else {
        let rest = seq![','] + joined_fields(fs.drop_first());
        assert(s =~= encode_field(fs[0]) + rest);
        lemma_parse_field(fs[0], rest);
        assert(rest.drop_first() =~= joined_fields(fs.drop_first()));
        lemma_decode_joined(fs.drop_first());
        assert(seq![fs[0]] + fs.drop_first() =~= fs);
    }
}

/// Reading back the text of one record gives its fields, except that a record
/// that writes no character (no field, or one empty field) reads back as one
/// empty field.
pub proof fn lemma_decode_encode_record(fs: Seq<Seq<char>>)
    ensures
        decode_record(encode_record(fs)) == if joined_fields(fs).len() == 0 {
            seq![Seq::<char>::empty()]
        } else {
            fs
        },
{
    let j = joined_fields(fs);
    let body = if j.len() == 0 { seq!['"', '"'] } else { j };
    assert(encode_record(fs).drop_last() =~= body);
    if j.len() == 0 {
        let s = seq!['"', '"'];
        assert(s.drop_first() =~= seq!['"']);
        assert(seq!['"'].drop_first() =~= Seq::<char>::empty());
        assert(parse_field(s) == (Seq::<char>::empty(), Seq::<char>::empty()));
    } else {
        if fs.len() == 0 {
            assert(j =~= Seq::<char>::empty());
        }
        lemma_decode_joined(fs);
    }
}

/// The only non-empty list of fields whose record writes no character is one
/// empty field.
proof fn lemma_joined_empty(fs: Seq<Seq<char>>)
    requires
        fs.len() > 0,
        joined_fields(fs).len() == 0,
    ensures
        fs == seq![Seq::<char>::empty()],
{
    if fs.len() == 1 {
        if needs_quotes(fs[0]) {
            assert(encode_field(fs[0]).len() >= 2);
        }
        assert(fs[0] =~= Seq::<char>::empty());
        assert(fs =~= seq![Seq::<char>::empty()]);
    } else {
        assert(joined_fields(fs).len() >= 1);
    }
}

/// A non-empty list of fields reads back from its record as itself, in order.
pub proof fn lemma_decode_nonempty_record(fs: Seq<Seq<char>>)
    requires
        fs.len() > 0,
    ensures
        decode_record(encode_record(fs)) == fs,
{
    lemma_decode_encode_record(fs);
    if joined_fields(fs).len() == 0 {
        lemma_joined_empty(fs);
    }
}

/// Reading one record back and encoding what was read reproduces the record's
/// text exactly.
pub proof fn lemma_record_round_trip(fs: Seq<Seq<char>>)
    ensures
        encode_record(decode_record(encode_record(fs))) == encode_record(fs),
{
    lemma_decode_encode_record(fs);
    if joined_fields(fs).len() == 0 {
        let e = seq![Seq::<char>::empty()];
        assert(!needs_quotes(Seq::<char>::empty()));
        assert(joined_fields(e) == encode_field(e[0]));
        assert(joined_fields(e).len() == 0);
    }
}

/// The CSV text of a shape: its layout's rows, header first.
pub open spec fn delimited_of(m: ShapeModel) -> Seq<char> {
    encode_records(rows_of(m))
}

/// Renders a shape as CSV: a mapping as a record of keys over a record of
/// values, a sequence or a collection as one record of its items.
pub fn render_delimited(shape: &Shape) -> (r: String)
    ensures
        r@ == delimited_of(shape@),
{
    let layout = table_layout(shape);
    let mut rows: Vec<Vec<String>> = Vec::new();
    match layout.header {
        Some(titles) => {
            rows.push(titles);
        },
        None => {},
    }
    rows.push(layout.data);
    assert(rows.deep_view() =~= rows_of(shape@));
    delimited_text(&rows)
}

} // verus!
