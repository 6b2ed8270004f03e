//! Pretty JSON: a mapping as an object whose members keep the entries'
//! order, a sequence or a collection as an array of strings. Every value is
//! written as a JSON string; nothing is read as a number or a boolean.

use vstd::prelude::*;
use crate::shape::{PPError, Shape, ShapeModel};

verus! {

#[verifier::external_type_specification]
#[verifier::external_body]
pub struct ExJsonError(serde_json::Error);

/// What serde_json's pretty printer writes for an array of strings.
pub uninterp spec fn json_array_text(items: Seq<Seq<char>>) -> Seq<char>;

/// What serde_json's pretty printer writes for an object of string members,
/// in the given order.
pub uninterp spec fn json_object_text(entries: Seq<(Seq<char>, Seq<char>)>) -> Seq<char>;

/// Relies on `serde_json::to_string_pretty` of a `Vec<String>`: it fails only
/// where a `Serialize` impl fails or a map has keys that are not strings,
/// neither of which can happen here, and the text depends on the strings alone.
#[verifier::external_body]
fn pretty_array(items: &Vec<String>) -> (r: Result<String, serde_json::Error>)
    ensures
        r is Ok,
        r matches Ok(t) ==> t@ == json_array_text(items.deep_view()),
{
    serde_json::to_string_pretty(items)
}

/// Relies on `serde_json::to_string_pretty` of a `serde_json::Map` of string
/// values, which with the `preserve_order` feature keeps the order of
/// insertion. It fails only where a `Serialize` impl fails or a map has keys
/// that are not strings, neither of which can happen here, and the text
/// depends on the entries alone.
#[verifier::external_body]
fn pretty_object(entries: &Vec<(String, String)>) -> (r: Result<String, serde_json::Error>)
    ensures
        r is Ok,
        r matches Ok(t) ==> t@ == json_object_text(entries.deep_view()),
{
    let object: serde_json::Map<String, serde_json::Value> = entries
        .iter()
        .map(|(k, v)| (k.clone(), serde_json::Value::String(v.clone())))
        .collect();
    serde_json::to_string_pretty(&object)
}

/// The JSON text of a shape.
pub open spec fn json_of(m: ShapeModel) -> Seq<char> {
    match m {
        ShapeModel::Mapping(es) => json_object_text(es),
        ShapeModel::Sequence(s) => json_array_text(s),
        ShapeModel::Collection(s) => json_array_text(s),
    }
}

/// Renders a shape as pretty JSON, without colour.
pub fn render_json(shape: &Shape) -> (r: String)
    ensures
        r@ == json_of(shape@),
{
    let printed = match shape {
        Shape::Mapping(es) => pretty_object(es),
        Shape::Sequence(items) => pretty_array(items),
        Shape::Collection(items) => pretty_array(items),
    };
    printed.unwrap()
}

/// A terminal colour.
#[derive(Debug, Clone, Copy, PartialEq, Eq, Structural)]
pub enum TermColor {
    Black,
    Blue,
    Cyan,
    Green,
    Magenta,
    Purple,
    Red,
    White,
    Yellow,
    Plain,
}

/// The colour each kind of JSON token is written in.
#[derive(Debug, Clone, Copy, PartialEq, Eq, Structural)]
pub struct JsonPalette {
    pub null: TermColor,
    pub boolean: TermColor,
    pub number: TermColor,
    pub string: TermColor,
    pub key: TermColor,
}

impl JsonPalette {
    /// Nulls cyan, booleans yellow, numbers magenta, strings green, keys blue.
    pub fn standard() -> (r: JsonPalette)
        ensures
            r == (JsonPalette {
                null: TermColor::Cyan,
                boolean: TermColor::Yellow,
                number: TermColor::Magenta,
                string: TermColor::Green,
                key: TermColor::Blue,
            }),
    {
        JsonPalette {
            null: TermColor::Cyan,
            boolean: TermColor::Yellow,
            number: TermColor::Magenta,
            string: TermColor::Green,
            key: TermColor::Blue,
        }
    }
}

#[verifier::external_type_specification]
#[verifier::external_body]
pub struct ExColor(json_color::Color);

/// Relies on json_color's `Color`: the variant of the same name.
#[verifier::external_body]
fn outside_color(c: TermColor) -> json_color::Color {
    match c {
        TermColor::Black => json_color::Color::Black,
        TermColor::Blue => json_color::Color::Blue,
        TermColor::Cyan => json_color::Color::Cyan,
        TermColor::Green => json_color::Color::Green,
        TermColor::Magenta => json_color::Color::Magenta,
        TermColor::Purple => json_color::Color::Purple,
        TermColor::Red => json_color::Color::Red,
        TermColor::White => json_color::Color::White,
        TermColor::Yellow => json_color::Color::Yellow,
        TermColor::Plain => json_color::Color::Plain,
    }
}

/// Relies on json_color's `Colorizer::colorize_json_str`, built with the
/// given colours for nulls, booleans, numbers, strings and keys. Whether it
/// writes colour codes depends on the process's environment (the `colored`
/// crate reads `NO_COLOR`, `CLICOLOR` and whether stdout is a terminal), so
/// nothing is stated of the text; it fails on text that is not JSON.
#[verifier::external_body]
fn colorize_json(
    s: &str,
    null: json_color::Color,
    boolean: json_color::Color,
    number: json_color::Color,
    string: json_color::Color,
    key: json_color::Color,
) -> (r: Option<String>) {
    let colorizer = json_color::Colorizer::new()
        .null(null)
        .boolean(boolean)
        .number(number)
        .string(string)
        .key(key)
        .build();
    colorizer.colorize_json_str(s).ok()
}

/// The reply made from a colouring attempt: the coloured text, or
/// `EncodeFailed` where the colouriser refused the text.
pub fn colored_reply(colored: Option<String>) -> (r: Result<String, PPError>)
    ensures
        match colored {
            Some(c) => r matches Ok(t) && t@ == c@,
            None => r == Err::<String, PPError>(PPError::EncodeFailed),
        },
{
    match colored {
        Some(c) => Ok(c),
        None => Err(PPError::EncodeFailed),
    }
}

/// Colours JSON text for a terminal with `palette`. What the text becomes
/// depends on the environment; a refusal is reported as `EncodeFailed`.
pub fn colorize(text: &String, palette: &JsonPalette) -> (r: Result<String, PPError>)
    ensures
        r matches Err(e) ==> e == PPError::EncodeFailed,
{
    let colored = colorize_json(
        text.as_str(),
        outside_color(palette.null),
        outside_color(palette.boolean),
        outside_color(palette.number),
        outside_color(palette.string),
        outside_color(palette.key),
    );
    colored_reply(colored)
}

} // verus!
