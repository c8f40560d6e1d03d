use freefall_sync::data::{indent, DataFormatter};
use serde::ser::{SerializeMap, Serializer};
use serde::Serialize;
use std::io;

fn text(out: &[u8]) -> &str {
    std::str::from_utf8(out).unwrap()
}

struct Layout(DataFormatter<'static>);

impl Layout {
    fn put<W: ?Sized + io::Write>(writer: &mut W, out: Vec<u8>) -> io::Result<()> {
        writer.write_all(&out)
    }
}

impl serde_json::ser::Formatter for Layout {
    fn begin_array<W: ?Sized + io::Write>(&mut self, writer: &mut W) -> io::Result<()> {
        let mut out = Vec::new();
        self.0.begin_array(&mut out);
        Layout::put(writer, out)
    }

    fn end_array<W: ?Sized + io::Write>(&mut self, writer: &mut W) -> io::Result<()> {
        let mut out = Vec::new();
        self.0.end_array(&mut out);
        Layout::put(writer, out)
    }

    fn begin_array_value<W: ?Sized + io::Write>(
        &mut self,
        writer: &mut W,
        first: bool,
    ) -> io::Result<()> {
        let mut out = Vec::new();
        self.0.begin_array_value(&mut out, first);
        Layout::put(writer, out)
    }

    fn end_array_value<W: ?Sized + io::Write>(&mut self, writer: &mut W) -> io::Result<()> {
        let mut out = Vec::new();
        self.0.end_array_value(&mut out);
        Layout::put(writer, out)
    }

    fn begin_object<W: ?Sized + io::Write>(&mut self, writer: &mut W) -> io::Result<()> {
        let mut out = Vec::new();
        self.0.begin_object(&mut out);
        Layout::put(writer, out)
    }

    fn end_object<W: ?Sized + io::Write>(&mut self, writer: &mut W) -> io::Result<()> {
        let mut out = Vec::new();
        self.0.end_object(&mut out);
        Layout::put(writer, out)
    }

    fn begin_object_key<W: ?Sized + io::Write>(
        &mut self,
        writer: &mut W,
        first: bool,
    ) -> io::Result<()> {
        let mut out = Vec::new();
        self.0.begin_object_key(&mut out, first);
        Layout::put(writer, out)
    }

    fn begin_object_value<W: ?Sized + io::Write>(&mut self, writer: &mut W) -> io::Result<()> {
        let mut out = Vec::new();
        self.0.begin_object_value(&mut out);
        Layout::put(writer, out)
    }

    fn end_object_value<W: ?Sized + io::Write>(&mut self, writer: &mut W) -> io::Result<()> {
        let mut out = Vec::new();
        self.0.end_object_value(&mut out);
        Layout::put(writer, out)
    }
}

struct Entry {
    i: i32,
    prefix: Option<String>,
    checked: Option<i64>,
}

impl Serialize for Entry {
    fn serialize<S: Serializer>(&self, serializer: S) -> Result<S::Ok, S::Error> {
        let mut map = serializer.serialize_map(None)?;
        map.serialize_entry("i", &self.i)?;
        if let Some(prefix) = &self.prefix {
            map.serialize_entry("prefix", prefix)?;
        }
        if let Some(checked) = &self.checked {
            map.serialize_entry("checked", checked)?;
        }
        map.end()
    }
}

fn laid_out<T: Serialize>(value: &T) -> String {
    let mut out = Vec::new();
    let mut serializer =
        serde_json::Serializer::with_formatter(&mut out, Layout(DataFormatter::new()));
    value.serialize(&mut serializer).unwrap();
    String::from_utf8(out).unwrap()
}

#[test]
fn new_formatter_is_at_the_start() {
    let formatter = DataFormatter::new();
    assert_eq!(formatter.open_levels(), 0);
    let mut out = Vec::new();
    let mut formatter = formatter;
    formatter.begin_array_value(&mut out, true);
    assert_eq!(text(&out), "\n");
}

#[test]
fn indent_repeats_its_unit() {
    let mut out = b"x".to_vec();
    indent(&mut out, 3, b"ab");
    assert_eq!(text(&out), "xababab");
    indent(&mut out, 0, b"ab");
    assert_eq!(text(&out), "xababab");
    indent(&mut out, 2, b"");
    assert_eq!(text(&out), "xababab");
}

#[test]
fn array_values_stand_on_lines_of_their_own() {
    let mut formatter = DataFormatter::new();
    let mut out = Vec::new();
    formatter.begin_array(&mut out);
    assert_eq!(formatter.open_levels(), 1);
    formatter.begin_array_value(&mut out, true);
    out.extend_from_slice(b"1");
    formatter.end_array_value(&mut out);
    formatter.begin_array_value(&mut out, false);
    out.extend_from_slice(b"2");
    formatter.end_array_value(&mut out);
    formatter.end_array(&mut out);
    assert_eq!(formatter.open_levels(), 0);
    assert_eq!(text(&out), "[\n    1,\n    2\n]");
}

#[test]
fn empty_array_closes_at_once() {
    let mut formatter = DataFormatter::new();
    let mut out = Vec::new();
    formatter.begin_array(&mut out);
    formatter.end_array(&mut out);
    assert_eq!(text(&out), "[]");
}

#[test]
fn objects_stand_on_one_line() {
    let mut formatter = DataFormatter::new();
    let mut out = Vec::new();
    formatter.begin_object(&mut out);
    formatter.begin_object_key(&mut out, true);
    out.extend_from_slice(b"\"i\"");
    formatter.begin_object_value(&mut out);
    out.extend_from_slice(b"1");
    formatter.end_object_value(&mut out);
    formatter.begin_object_key(&mut out, false);
    out.extend_from_slice(b"\"h\"");
    formatter.begin_object_value(&mut out);
    out.extend_from_slice(b"2");
    formatter.end_object_value(&mut out);
    formatter.end_object(&mut out);
    assert_eq!(formatter.open_levels(), 0);
    assert_eq!(text(&out), "{ \"i\": 1, \"h\": 2 }");
}

#[test]
fn nested_arrays_are_set_in_by_four_spaces_a_level() {
    assert_eq!(laid_out(&vec![vec![1, 2], vec![3]]), "[\n    [\n        1,\n        2\n    ],\n    [\n        3\n    ]\n]");
}

#[test]
fn record_is_laid_out_one_entry_a_line() {
    let record = vec![
        Entry { i: 1, prefix: Some("fv".to_string()), checked: None },
        Entry { i: 3498, prefix: None, checked: Some(1_600_000_000) },
    ];
    assert_eq!(
        laid_out(&record),
        "[\n    { \"i\": 1, \"prefix\": \"fv\" },\n    { \"i\": 3498, \"checked\": 1600000000 }\n]"
    );
}

#[test]
fn record_without_optional_fields_reads_back() {
    let record: Vec<Entry> =
        [1, 2, 3498].iter().map(|i| Entry { i: *i, prefix: None, checked: None }).collect();
    let written = laid_out(&record);
    assert_eq!(written, "[\n    { \"i\": 1 },\n    { \"i\": 2 },\n    { \"i\": 3498 }\n]");
    assert!(!written.contains("null"));
    let read: serde_json::Value = serde_json::from_str(&written).unwrap();
    let numbers: Vec<i64> =
        read.as_array().unwrap().iter().map(|entry| entry["i"].as_i64().unwrap()).collect();
    assert_eq!(numbers, vec![1, 2, 3498]);
    for entry in read.as_array().unwrap() {
        assert_eq!(entry.as_object().unwrap().len(), 1);
    }
}

#[test]
fn layout_reads_back_as_the_same_json() {
    let value: serde_json::Value =
        serde_json::from_str("[{\"a\":[1,{\"b\":[]},\"x\"],\"c\":{}},[],[[]],null,true]").unwrap();
    let written = laid_out(&value);
    let read: serde_json::Value = serde_json::from_str(&written).unwrap();
    assert_eq!(read, value);
}
