use redis_pp::command::{render, PPCommands};
use redis_pp::delimited::{delimited_text, render_delimited};
use redis_pp::json::render_json;
use redis_pp::markup::render_markup;
use redis_pp::shape::Shape;
use redis_pp::table::{render_table, table_layout};

fn strings(items: &[&str]) -> Vec<String> {
    items.iter().map(|s| s.to_string()).collect()
}

fn entries(pairs: &[(&str, &str)]) -> Vec<(String, String)> {
    pairs.iter().map(|(k, v)| (k.to_string(), v.to_string())).collect()
}

#[test]
fn mapping_table_has_header_over_data() {
    let shape = Shape::Mapping(entries(&[("name", "alice"), ("age", "30")]));
    assert_eq!(
        render_table(&shape),
        "+-------+-----+\n| name  | age |\n+-------+-----+\n| alice | 30  |\n+-------+-----+\n"
    );
}

#[test]
fn sequence_table_is_one_row() {
    let shape = Shape::Sequence(strings(&["a", "bb"]));
    assert_eq!(render_table(&shape), "+---+----+\n| a | bb |\n+---+----+\n");
}

#[test]
fn mapping_layout_columns_line_up() {
    let shape = Shape::Mapping(entries(&[("k1", "v1"), ("k2", "v2"), ("k3", "v3")]));
    let layout = table_layout(&shape);
    let header = layout.header.expect("a mapping has a header");
    assert_eq!(header, strings(&["k1", "k2", "k3"]));
    assert_eq!(layout.data, strings(&["v1", "v2", "v3"]));
}

#[test]
fn mapping_markup_columns_line_up() {
    let shape = Shape::Mapping(entries(&[("k1", "v1"), ("k2", "v2")]));
    assert_eq!(
        render_markup(&shape),
        "<table><thead><tr><th>k1</th><th>k2</th></tr></thead><tbody><tr><td>v1</td><td>v2</td></tr></tbody></table>"
    );
}

#[test]
fn sequence_markup_is_ordered_list() {
    let shape = Shape::Sequence(strings(&["a", "b", "a"]));
    assert_eq!(render_markup(&shape), "<ol><li>a</li><li>b</li><li>a</li></ol>");
}

#[test]
fn collection_markup_is_unordered_list() {
    let shape = Shape::Collection(strings(&["x", "y"]));
    assert_eq!(render_markup(&shape), "<ul><li>x</li><li>y</li></ul>");
}

#[test]
fn markup_escapes_text() {
    let shape = Shape::Sequence(strings(&["<b>&\"'"]));
    assert_eq!(
        render_markup(&shape),
        "<ol><li>&lt;b&gt;&amp;&quot;&#39;</li></ol>"
    );
}

#[test]
fn empty_markup_shapes() {
    assert_eq!(render_markup(&Shape::Sequence(Vec::new())), "<ol/>");
    assert_eq!(render_markup(&Shape::Collection(Vec::new())), "<ul/>");
    assert_eq!(
        render_markup(&Shape::Mapping(Vec::new())),
        "<table><thead><tr/></thead><tbody><tr/></tbody></table>"
    );
    assert_eq!(render_markup(&Shape::Sequence(strings(&[""]))), "<ol><li></li></ol>");
}

#[test]
fn collection_csv_is_one_record() {
    let shape = Shape::Collection(strings(&["x", "y"]));
    assert_eq!(render_delimited(&shape), "x,y\n");
}

#[test]
fn mapping_csv_is_header_then_values() {
    let shape = Shape::Mapping(entries(&[("name", "alice"), ("age", "30")]));
    assert_eq!(render_delimited(&shape), "name,age\nalice,30\n");
}

#[test]
fn csv_quotes_special_fields() {
    let shape = Shape::Collection(strings(&["a,b", "say \"hi\"", "two\nlines", "cr\r", "plain"]));
    assert_eq!(
        render_delimited(&shape),
        "\"a,b\",\"say \"\"hi\"\"\",\"two\nlines\",\"cr\r\",plain\n"
    );
}

#[test]
fn csv_empty_record_is_written_as_quotes() {
    assert_eq!(render_delimited(&Shape::Collection(Vec::new())), "\"\"\n");
    assert_eq!(render_delimited(&Shape::Sequence(strings(&[""]))), "\"\"\n");
    assert_eq!(render_delimited(&Shape::Sequence(strings(&["", ""]))), ",\n");
}

#[test]
fn csv_round_trip_reencodes_identically() {
    let fields = strings(&["a,b", "q\"", "", "x\ny"]);
    let first = delimited_text(&vec![fields.clone()]);
    assert_eq!(first, "\"a,b\",\"q\"\"\",,\"x\ny\"\n");
    let again = delimited_text(&vec![read_record(&first)]);
    assert_eq!(again, first);
}

fn read_record(text: &str) -> Vec<String> {
    let body = text.strip_suffix('\n').unwrap_or(text);
    let chars: Vec<char> = body.chars().collect();
    let mut fields = Vec::new();
    let mut i = 0;
    loop {
        let mut field = String::new();
        if i < chars.len() && chars[i] == '"' {
            i += 1;
            while i < chars.len() {
                if chars[i] == '"' {
                    if i + 1 < chars.len() && chars[i + 1] == '"' {
                        field.push('"');
                        i += 2;
                    } else {
                        i += 1;
                        break;
                    }
                } else {
                    field.push(chars[i]);
                    i += 1;
                }
            }
        } else {
            while i < chars.len() && chars[i] != ',' {
                field.push(chars[i]);
                i += 1;
            }
        }
        fields.push(field);
        if i < chars.len() && chars[i] == ',' {
            i += 1;
        } else {
            break;
        }
    }
    fields
}

#[test]
fn json_sequence_in_order() {
    let shape = Shape::Sequence(strings(&["b", "a", "b"]));
    assert_eq!(render_json(&shape), "[\n  \"b\",\n  \"a\",\n  \"b\"\n]");
}

#[test]
fn json_mapping_keeps_entry_order() {
    let shape = Shape::Mapping(entries(&[("name", "alice"), ("age", "30")]));
    assert_eq!(
        render_json(&shape),
        "{\n  \"name\": \"alice\",\n  \"age\": \"30\"\n}"
    );
}

#[test]
fn json_values_stay_strings() {
    let shape = Shape::Sequence(strings(&["1", "true", "null"]));
    assert_eq!(
        render_json(&shape),
        "[\n  \"1\",\n  \"true\",\n  \"null\"\n]"
    );
}

#[test]
fn sequence_order_kept_by_every_encoder() {
    let shape = Shape::Sequence(strings(&["c", "a", "b"]));
    assert_eq!(render(PPCommands::PPJ, &shape), "[\n  \"c\",\n  \"a\",\n  \"b\"\n]");
    assert_eq!(render(PPCommands::PPT, &shape), "+---+---+---+\n| c | a | b |\n+---+---+---+\n");
    assert_eq!(render(PPCommands::PPC, &shape), "c,a,b\n");
    assert_eq!(render(PPCommands::PPH, &shape), "<ol><li>c</li><li>a</li><li>b</li></ol>");
}

#[test]
fn rendering_twice_gives_the_same_text() {
    let shape = Shape::Mapping(entries(&[("k", "v"), ("x", "<y>")]));
    for cmd in [PPCommands::PPJ, PPCommands::PPT, PPCommands::PPC, PPCommands::PPH] {
        assert_eq!(render(cmd, &shape), render(cmd, &shape));
    }
}
