use opentelemetry_prometheus_text_exporter::labels::{
    absorb, absorb_all, find_key, merge_labels, write_attributes_as_labels, LabelWriter,
};
use opentelemetry_prometheus_text_exporter::model::Attribute;
use opentelemetry_prometheus_text_exporter::order::{attribute_le, chars_le, sort_attributes};

fn attribute(key: &str, value: &str) -> Attribute {
    Attribute { key: key.to_string(), value: value.to_string() }
}

fn pairs(labels: &[Attribute]) -> Vec<(String, String)> {
    labels.iter().map(|label| (label.key.clone(), label.value.clone())).collect()
}

fn pair(key: &str, value: &str) -> (String, String) {
    (key.to_string(), value.to_string())
}

fn block(attributes: &Vec<Attribute>) -> String {
    let mut out = String::new();
    let mut writer = LabelWriter::new(&mut out);
    write_attributes_as_labels(attributes, &mut writer);
    writer.finish();
    out
}

#[test]
fn colliding_keys_become_one_label() {
    let given = vec![attribute("a.b", "dot"), attribute("a-b", "dash")];
    assert_eq!(pairs(&merge_labels(&given)), vec![pair("a_b", "dash;dot")]);
    assert_eq!(block(&given), "{a_b=\"dash;dot\"}");
}

#[test]
fn colliding_keys_are_joined_in_key_order_whatever_the_given_order() {
    let given = vec![attribute("a-b", "dash"), attribute("a.b", "dot")];
    assert_eq!(pairs(&merge_labels(&given)), vec![pair("a_b", "dash;dot")]);
    let three = vec![attribute("a/b", "slash"), attribute("a.b", "dot"), attribute("a-b", "dash")];
    assert_eq!(pairs(&merge_labels(&three)), vec![pair("a_b", "dash;dot;slash")]);
}

#[test]
fn labels_come_in_the_order_of_their_first_key() {
    let given = vec![
        attribute("z", "1"),
        attribute("b.c", "2"),
        attribute("a", "3"),
        attribute("b-c", "4"),
        attribute("b", "5"),
    ];
    assert_eq!(
        pairs(&merge_labels(&given)),
        vec![pair("a", "3"), pair("b", "5"), pair("b_c", "4;2"), pair("z", "1")]
    );
    assert_eq!(block(&given), "{a=\"3\",b=\"5\",b_c=\"4;2\",z=\"1\"}");
}

#[test]
fn equal_keys_are_joined_by_value() {
    let given = vec![attribute("k", "b"), attribute("k", "a"), attribute("k", "")];
    assert_eq!(pairs(&merge_labels(&given)), vec![pair("k", ";a;b")]);
}

#[test]
fn no_attributes_make_no_labels() {
    let none: Vec<Attribute> = Vec::new();
    assert!(merge_labels(&none).is_empty());
    assert_eq!(block(&none), "");
}

#[test]
fn attributes_are_sorted_by_key_then_value() {
    let given = vec![
        attribute("b", "1"),
        attribute("a", "2"),
        attribute("ab", "0"),
        attribute("a", "1"),
        attribute("", "9"),
        attribute("B", "3"),
    ];
    let sorted: Vec<(String, String)> = sort_attributes(&given)
        .iter()
        .map(|found| (found.key.clone(), found.value.clone()))
        .collect();
    assert_eq!(
        sorted,
        vec![pair("", "9"), pair("B", "3"), pair("a", "1"), pair("a", "2"), pair("ab", "0"), pair("b", "1")]
    );
}

#[test]
fn text_order_is_that_of_the_characters() {
    let chars = |text: &str| text.chars().collect::<Vec<char>>();
    let texts = ["", "a", "a-b", "a.b", "ab", "b", "B", "é", "z", "\u{10000}", "\u{ffff}"];
    for x in texts {
        for y in texts {
            assert_eq!(chars_le(&chars(x), &chars(y)), x <= y, "{x:?} {y:?}");
        }
    }
    assert!(attribute_le(&attribute("a", "2"), &attribute("b", "1")));
    assert!(!attribute_le(&attribute("b", "1"), &attribute("a", "2")));
    assert!(attribute_le(&attribute("a", "1"), &attribute("a", "2")));
    assert!(!attribute_le(&attribute("a", "2"), &attribute("a", "1")));
    assert!(attribute_le(&attribute("a", "1"), &attribute("a", "1")));
}

#[test]
fn absorb_adds_or_joins() {
    let mut labels = vec![attribute("a", "1"), attribute("b", "2")];
    assert_eq!(find_key(&labels, "a"), 0);
    assert_eq!(find_key(&labels, "b"), 1);
    assert_eq!(find_key(&labels, "c"), 2);
    absorb(&mut labels, "b", "3");
    absorb(&mut labels, "c", "4");
    absorb(&mut labels, "a", "");
    assert_eq!(pairs(&labels), vec![pair("a", "1;"), pair("b", "2;3"), pair("c", "4")]);
}

#[test]
fn absorb_all_takes_labels_in_turn() {
    let mut labels = vec![attribute("a", "1"), attribute("b", "2")];
    absorb_all(&mut labels, &vec![attribute("c", "3"), attribute("a", "4"), attribute("c", "5")]);
    assert_eq!(pairs(&labels), vec![pair("a", "1;4"), pair("b", "2"), pair("c", "3;5")]);
    absorb_all(&mut labels, &Vec::new());
    assert_eq!(labels.len(), 3);
}

#[test]
fn label_writer_brackets_and_commas() {
    let mut out = String::from("name");
    let mut writer = LabelWriter::new(&mut out);
    assert!(!writer.has_written);
    writer.emit("method", "GET");
    assert!(writer.has_written);
    writer.emit("code", "200");
    writer.finish();
    assert_eq!(out, "name{method=\"GET\",code=\"200\"}");
}

#[test]
fn label_writer_writes_nothing_without_labels() {
    let mut out = String::from("name");
    let writer = LabelWriter::new(&mut out);
    writer.finish();
    assert_eq!(out, "name");
}

#[test]
fn label_values_are_quoted_and_escaped() {
    let mut out = String::new();
    let mut writer = LabelWriter::new(&mut out);
    writer.emit("plain", "GET");
    writer.emit("quote", "say \"hi\"");
    writer.emit("path", "C:\\dir");
    writer.emit("lines", "a\nb\tc\rd");
    writer.emit("empty", "");
    writer.finish();
    assert_eq!(
        out,
        "{plain=\"GET\",quote=\"say \\\"hi\\\"\",path=\"C:\\\\dir\",lines=\"a\\nb\\tc\\rd\",empty=\"\"}"
    );
}

#[test]
fn quoted_values_are_written_as_given() {
    let mut out = String::new();
    let mut writer = LabelWriter::new(&mut out);
    writer.emit_quoted("le", "\"+Inf\"");
    writer.emit_quoted("raw", "unquoted");
    writer.finish();
    assert_eq!(out, "{le=\"+Inf\",raw=unquoted}");
}
