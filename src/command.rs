//! The four commands: argument and option parsing, the choice of encoder, and
//! the option pipeline that runs between rendering and the reply.

use vstd::prelude::*;
use crate::delimited::{delimited_of, render_delimited};
use crate::json::{JsonPalette, colorize, json_of, render_json};
use crate::markup::{markup_of, render_markup};
use crate::shape::{
    PPError, ReplyItem, Shape, ShapeModel, ValueKind, extract_strings, normalize, shape_of,
    texts_of,
};
use crate::table::{render_table, table_text};

verus! {

/// The options a command may be given after its key.
#[derive(Debug, Hash, Clone, Copy, PartialEq, Eq, Structural)]
pub enum PPOptions {
    /// Copy the rendered text to the export sink.
    PBCopy,
}

/// The four commands, one per encoding.
#[derive(Debug, Hash, Clone, Copy, PartialEq, Eq, Structural)]
pub enum PPCommands {
    /// Pretty, coloured JSON.
    PPJ,
    /// An aligned text table.
    PPT,
    /// CSV.
    PPC,
    /// HTML markup.
    PPH,
}

/// A parsed command line: the key and the options, each once, in the order given.
pub struct Request {
    pub key: String,
    pub options: Vec<PPOptions>,
}

/// A side effect the option pipeline asks for.
pub enum Action {
    /// Hand this text to the export sink.
    CopyToSink(String),
}

/// What the store answered when asked for the value.
pub enum Fetched {
    /// An array reply.
    Array(Vec<ReplyItem>),
    /// A reply that is not an array.
    NotArray,
    /// The fetch failed.
    Failed,
}

/// A rendered value with the side effects its options ask for, in order.
pub struct Prepared {
    pub actions: Vec<Action>,
    pub text: String,
}

/// What `str::to_uppercase` gives for a token.
pub uninterp spec fn upper_of(s: Seq<char>) -> Seq<char>;

/// Relies on `str::to_uppercase`: the result depends on the characters alone.
#[verifier::external_body]
fn uppercase(s: &str) -> (r: String)
    ensures
        r@ == upper_of(s@),
{
    s.to_uppercase()
}

/// The option an upper-cased token names.
pub open spec fn option_named(u: Seq<char>) -> Option<PPOptions> {
    if u == seq!['P', 'B'] {
        Some(PPOptions::PBCopy)
    } else {
        None
    }
}

/// Reads the options from the front of `tokens` into `acc`, stopping at the
/// first token that names none; an option already in `acc` is not added again.
pub open spec fn options_from(tokens: Seq<Seq<char>>, acc: Seq<PPOptions>) -> Seq<PPOptions>
    decreases tokens.len(),
{
    if tokens.len() == 0 {
        acc
    } else {
        match option_named(upper_of(tokens[0])) {
            None => acc,
            Some(o) => options_from(
                tokens.drop_first(),
                if acc.contains(o) {
                    acc
                } else {
                    acc.push(o)
                },
            ),
        }
    }
}

/// The option an upper-cased token names, if any.
pub fn option_of_upper(u: &str) -> (r: Option<PPOptions>)
    ensures
        r == option_named(u@),
{
    let cs = crate::text::chars_of(u);
    if cs.len() == 2 && cs[0] == 'P' && cs[1] == 'B' {
        assert(u@ =~= seq!['P', 'B']);
        Some(PPOptions::PBCopy)
    } else {
        assert(u@ != seq!['P', 'B']) by {
            if u@ == seq!['P', 'B'] {
                assert(cs@[0] == 'P' && cs@[1] == 'B');
            }
        }
        None
    }
}

/// Reads the options from the front of `tokens`, case-insensitively; the
/// first token that names no option ends the reading.
pub fn parse_options(tokens: &[String]) -> (r: Vec<PPOptions>)
    ensures
        r@ == options_from(tokens@.map_values(|t: String| t@), seq![]),
{
    let ghost all = tokens@.map_values(|t: String| t@);
    let mut out: Vec<PPOptions> = Vec::new();
    let mut i: usize = 0;
    let mut stopped = false;
    assert(all.skip(0) =~= all);
    while !stopped && i < tokens.len()
        invariant
            0 <= i <= tokens.len(),
            all == tokens@.map_values(|t: String| t@),
            stopped ==> out@ == options_from(all, seq![]),
            !stopped ==> options_from(all, seq![]) == options_from(all.skip(i as int), out@),
        decreases tokens.len() - i + (if stopped { 0int } else { 1int }),
    {
        let u = uppercase(tokens[i].as_str());
        let ghost rest = all.skip(i as int);
        assert(rest[0] == tokens@[i as int]@);
        assert(rest.drop_first() =~= all.skip(i + 1));
        match option_of_upper(u.as_str()) {
            None => {
                stopped = true;
            },
            Some(o) => {
                let mut j: usize = 0;
                let mut seen = false;
                while !seen && j < out.len()
                    invariant
                        0 <= j <= out.len(),
                        !seen ==> forall|m: int| 0 <= m < j ==> out@[m] != o,
                        seen ==> out@.contains(o),
                    decreases out.len() - j + (if seen { 0int } else { 1int }),
                {
                    if out[j] == o {
                        seen = true;
                    } else {
                        j = j + 1;
                    }
                }
                if !seen {
                    assert(!out@.contains(o));
                    out.push(o);
                }
                i = i + 1;
            },
        }
    }
    if !stopped {
        assert(all.skip(i as int) =~= Seq::<Seq<char>>::empty());
    }
    out
}

/// A command line of `args` (the command's name first) is well formed when it
/// holds a key and at most one more argument.
pub open spec fn arity_ok(args: Seq<String>) -> bool {
    2 <= args.len() <= 3
}

/// Parses a command line, the command's name first: the key, then options.
/// Fewer than one or more than two arguments after the name is `WrongArity`.
pub fn parse_request(args: &Vec<String>) -> (r: Result<Request, PPError>)
    ensures
        !arity_ok(args@) ==> r == Err::<Request, PPError>(PPError::WrongArity),
        arity_ok(args@) ==> (r matches Ok(q) && q.key@ == args@[1]@ && q.options@
            == options_from(args@.skip(2).map_values(|t: String| t@), seq![])),
{
    if args.len() < 2 || args.len() > 3 {
        return Err(PPError::WrongArity);
    }
    let key = args[1].clone();
    let tokens = args.as_slice().split_at(2).1;
    assert(tokens@ =~= args@.skip(2));
    let options = parse_options(tokens);
    Ok(Request { key, options })
}

/// The text a command renders for a shape, before the option pipeline.
pub open spec fn rendered_of(cmd: PPCommands, m: ShapeModel) -> Seq<char> {
    match cmd {
        PPCommands::PPJ => json_of(m),
        PPCommands::PPT => table_text(m),
        PPCommands::PPC => delimited_of(m),
        PPCommands::PPH => markup_of(m),
    }
}

/// Renders a shape with the command's encoder; the text depends on the
/// command and the shape's contents alone.
pub fn render(cmd: PPCommands, shape: &Shape) -> (r: String)
    ensures
        r@ == rendered_of(cmd, shape@),
{
    match cmd {
        PPCommands::PPJ => render_json(shape),
        PPCommands::PPT => render_table(shape),
        PPCommands::PPC => render_delimited(shape),
        PPCommands::PPH => render_markup(shape),
    }
}

/// The side effect each option asks for, in order.
pub open spec fn actions_of(options: Seq<PPOptions>, text: Seq<char>) -> Seq<Seq<char>> {
    Seq::new(
        options.len(),
        |i: int|
            match options[i] {
                PPOptions::PBCopy => text,
            },
    )
}

pub open spec fn action_texts(actions: Seq<Action>) -> Seq<Seq<char>> {
    Seq::new(
        actions.len(),
        |i: int|
            match actions[i] {
                Action::CopyToSink(t) => t@,
            },
    )
}

/// The option pipeline's side effects for a rendered text, one per option,
/// in the options' order.
pub fn option_actions(options: &Vec<PPOptions>, text: &String) -> (r: Vec<Action>)
    ensures
        action_texts(r@) == actions_of(options@, text@),
{
    let mut out: Vec<Action> = Vec::new();
    let mut i: usize = 0;
    while i < options.len()
        invariant
            0 <= i <= options.len(),
            action_texts(out@) =~= actions_of(options@.take(i as int), text@),
        decreases options.len() - i,
    {
        let ghost a0 = out@;
        let action = match options[i] {
            PPOptions::PBCopy => Action::CopyToSink(text.clone()),
        };
        out.push(action);
        proof {
            assert(out@ =~= a0.push(action));
            assert(action_texts(out@) =~= action_texts(a0).push(text@));
            assert(actions_of(options@.take(i + 1), text@) =~= actions_of(
                options@.take(i as int),
                text@,
            ).push(text@));
        }
        i = i + 1;
    }
    assert(options@.take(options.len() as int) =~= options@);
    out
}

/// What rendering an array reply of `items` gives: `MalformedReply` where
/// normalisation refuses it, else the rendered text with the options' side
/// effects.
pub open spec fn prepared_from(
    cmd: PPCommands,
    kind: ValueKind,
    items: Seq<ReplyItem>,
    options: Seq<PPOptions>,
    r: Result<Option<Prepared>, PPError>,
) -> bool {
    match shape_of(kind, texts_of(items)) {
        None => r == Err::<Option<Prepared>, PPError>(PPError::MalformedReply),
        Some(m) => match r {
            Ok(Some(p)) => p.text@ == rendered_of(cmd, m) && action_texts(p.actions@)
                == actions_of(options, p.text@),
            _ => false,
        },
    }
}

/// Renders what the store answered for a value of `kind`: a failed fetch is
/// `KeyNotFound`, a reply that is not an array gives nothing (a null reply),
/// and an array is normalised, rendered with the command's encoder and paired
/// with the side effects of `options`, each on the rendered text.
pub fn prepare(cmd: PPCommands, kind: ValueKind, fetched: Fetched, options: &Vec<PPOptions>) -> (r:
    Result<Option<Prepared>, PPError>)
    ensures
        match fetched {
            Fetched::Failed => r == Err::<Option<Prepared>, PPError>(PPError::KeyNotFound),
            Fetched::NotArray => r matches Ok(None),
            Fetched::Array(items) => prepared_from(cmd, kind, items@, options@, r),
        },
{
    match fetched {
        Fetched::Failed => Err(PPError::KeyNotFound),
        Fetched::NotArray => Ok(None),
        Fetched::Array(items) => {
            let strings = extract_strings(items);
            let shape = match normalize(kind, strings) {
                Ok(s) => s,
                Err(e) => {
                    return Err(e);
                },
            };
            let text = render(cmd, &shape);
            let actions = option_actions(options, &text);
            Ok(Some(Prepared { actions, text }))
        },
    }
}

/// The reply once the side effects are done: the JSON command colours its
/// text with `palette` (how depends on the environment; a refusal is
/// `EncodeFailed`), the others reply with the text as it is.
pub fn finish(cmd: PPCommands, text: String, palette: &JsonPalette) -> (r: Result<String, PPError>)
    ensures
        cmd != PPCommands::PPJ ==> (r matches Ok(t) && t@ == text@),
        r matches Err(e) ==> cmd == PPCommands::PPJ && e == PPError::EncodeFailed,
{
    match cmd {
        PPCommands::PPJ => colorize(&text, palette),
        _ => Ok(text),
    }
}

/// The outcome of handing a text to the export sink: a sink that could not
/// take it ends the command with `SinkUnavailable`.
pub fn export_outcome(delivered: bool) -> (r: Result<(), PPError>)
    ensures
        delivered <==> r is Ok,
        !delivered ==> r == Err::<(), PPError>(PPError::SinkUnavailable),
{
    if delivered {
        Ok(())
    } else {
        Err(PPError::SinkUnavailable)
    }
}

} // verus!
