use geoipsed::{Tag, Tagged, TextData};

fn written(tagged: &Tagged) -> String {
    assert!(tagged.is_well_formed());
    let mut out = Vec::new();
    tagged.write(&mut out);
    String::from_utf8(out).unwrap()
}

#[test]
fn tag_accessors() {
    let tag = Tag::new("1.2.3.4");
    assert_eq!(tag.ip(), "1.2.3.4");
    assert_eq!(tag.range(), None);
    assert_eq!(tag.decorated(), None);
    let tag = tag.with_range(3..10).with_decoration("<1.2.3.4>");
    assert_eq!(tag.range(), Some(&(3..10)));
    assert_eq!(tag.decorated(), Some("<1.2.3.4>"));
}

#[test]
fn write_without_tags_is_the_text() {
    let tagged = Tagged::new(b"hello world\n");
    assert_eq!(tagged.text(), b"hello world\n");
    assert!(tagged.tags().is_empty());
    assert_eq!(written(&tagged), "hello world\n");
}

#[test]
fn write_replaces_one_tag() {
    let text = b"hello 67.43.156.1 world";
    let tagged = Tagged::new(text).tag(
        Tag::new("67.43.156.1")
            .with_range(6..17)
            .with_decoration("<67.43.156.1|AS35908_|BT|>"),
    );
    assert_eq!(written(&tagged), "hello <67.43.156.1|AS35908_|BT|> world");
}

#[test]
fn write_replaces_two_tags_and_keeps_the_gaps() {
    let text = b"IP1: 81.2.69.205, IP2: 175.16.199.37";
    let tagged = Tagged::new(text)
        .tag(Tag::new("81.2.69.205").with_range(5..16).with_decoration("<A>"))
        .tag(Tag::new("175.16.199.37").with_range(23..36).with_decoration("<B>"));
    assert_eq!(written(&tagged), "IP1: <A>, IP2: <B>");
}

#[test]
fn write_replaces_many_tags() {
    let text = b"a 1.1.1.1 b 2.2.2.2 c 3.3.3.3 d";
    let tagged = Tagged::new(text)
        .tag(Tag::new("1.1.1.1").with_range(2..9).with_decoration("X"))
        .tag(Tag::new("2.2.2.2").with_range(12..19))
        .tag(Tag::new("3.3.3.3").with_range(22..29).with_decoration("ZZ"));
    assert_eq!(written(&tagged), "a X b 2.2.2.2 c ZZ d");
}

#[test]
fn write_skips_tags_without_range() {
    let tagged = Tagged::new(b"abc").tag(Tag::new("1.1.1.1").with_decoration("X"));
    assert_eq!(written(&tagged), "abc");
}

#[test]
fn tags_out_of_order_are_not_well_formed() {
    let text = b"a 1.1.1.1 b 2.2.2.2";
    let tagged = Tagged::new(text)
        .tag(Tag::new("2.2.2.2").with_range(12..19))
        .tag(Tag::new("1.1.1.1").with_range(2..9));
    assert!(!tagged.is_well_formed());
    let beyond = Tagged::new(b"abc").tag(Tag::new("x").with_range(1..9));
    assert!(!beyond.is_well_formed());
    let overlapping = Tagged::new(b"abcdef")
        .tag(Tag::new("x").with_range(0..4))
        .tag(Tag::new("y").with_range(3..5));
    assert!(!overlapping.is_well_formed());
}

#[test]
fn json_document() {
    let text = b"hello 67.43.156.1 \"world\"";
    let mut tagged = Tagged::new(text)
        .tag(
            Tag::new("67.43.156.1")
                .with_range(6..17)
                .with_decoration("<67.43.156.1|AS35908>"),
        )
        .tag(Tag::new("bare"));
    let mut out = Vec::new();
    tagged.write_json(&mut out).unwrap();
    assert_eq!(
        String::from_utf8(out).unwrap(),
        "{\"tags\":[{\"value\":\"67.43.156.1\",\"range\":[6,17],\"decorated\":\"<67.43.156.1|AS35908>\"},{\"value\":\"bare\"}],\"data\":{\"text\":\"hello 67.43.156.1 \\\"world\\\"\"}}"
    );
}

#[test]
fn json_document_keeps_the_text_that_was_set() {
    let mut tagged = Tagged::new(b"abc");
    tagged.set_text_data(TextData { text: "other".to_string() });
    let mut out = b"> ".to_vec();
    tagged.write_json(&mut out).unwrap();
    assert_eq!(
        String::from_utf8(out).unwrap(),
        "> {\"tags\":[],\"data\":{\"text\":\"other\"}}"
    );
}

#[test]
fn json_document_is_valid_json() {
    let mut tagged = Tagged::new(b"line\twith\ttabs 10.0.0.1\n")
        .tag(Tag::new("10.0.0.1").with_range(15..23).with_decoration("a\\b"));
    let mut out = Vec::new();
    tagged.write_json(&mut out).unwrap();
    let value: serde_json::Value = serde_json::from_slice(&out).unwrap();
    assert_eq!(value["data"]["text"], "line\twith\ttabs 10.0.0.1\n");
    assert_eq!(value["tags"][0]["value"], "10.0.0.1");
    assert_eq!(value["tags"][0]["range"][0], 15);
    assert_eq!(value["tags"][0]["range"][1], 23);
    assert_eq!(value["tags"][0]["decorated"], "a\\b");
}

#[test]
fn json_document_of_bytes_that_are_no_text() {
    let mut tagged = Tagged::new(b"\xff 1.2.3.4").tag(Tag::new("1.2.3.4").with_range(2..9));
    let mut out = Vec::new();
    tagged.write_json(&mut out).unwrap();
    assert_eq!(
        String::from_utf8(out).unwrap(),
        "{\"tags\":[{\"value\":\"1.2.3.4\",\"range\":[2,9]}],\"data\":{\"text\":\"\u{fffd} 1.2.3.4\"}}"
    );
    let mut written = Vec::new();
    tagged.write(&mut written);
    assert_eq!(written, b"\xff 1.2.3.4");
}

#[test]
fn tag_mode_numbers() {
    let text = vec![b'x'; 1234567];
    let mut tagged = Tagged::new(&text).tag(Tag::new("y").with_range(0..1234567));
    let mut json = String::new();
    assert!(tagged.tags()[0].append_json(&mut json));
    assert_eq!(json, "{\"value\":\"y\",\"range\":[0,1234567]}");
    tagged.fill_text_data();
    assert!(tagged.to_json().unwrap().starts_with("{\"tags\":[{\"value\":\"y\",\"range\":[0,1234567]}],"));
}

#[test]
fn tag_object_of_quoted_strings() {
    assert_eq!(geoipsed::tag_object("\"a\"", None, None), "{\"value\":\"a\"}");
    assert_eq!(
        geoipsed::tag_object("\"a\"", Some(&(3..10)), None),
        "{\"value\":\"a\",\"range\":[3,10]}"
    );
    assert_eq!(
        geoipsed::tag_object("\"a\"", None, Some("\"<a>\"")),
        "{\"value\":\"a\",\"decorated\":\"<a>\"}"
    );
    assert_eq!(
        geoipsed::tag_object("\"a\"", Some(&(0..0)), Some("\"\"")),
        "{\"value\":\"a\",\"range\":[0,0],\"decorated\":\"\"}"
    );
}

#[test]
fn document_of_a_list_and_a_quoted_text() {
    assert_eq!(
        geoipsed::tag::json_document("", "\"\""),
        "{\"tags\":[],\"data\":{\"text\":\"\"}}"
    );
    assert_eq!(
        geoipsed::tag::json_document("{\"value\":\"a\"},{\"value\":\"b\"}", "\"a b\""),
        "{\"tags\":[{\"value\":\"a\"},{\"value\":\"b\"}],\"data\":{\"text\":\"a b\"}}"
    );
}

#[test]
fn append_json_quotes_the_literal_and_the_decoration() {
    let tag = Tag::new("a\"b").with_decoration("c\\d\n");
    let mut json = String::from("[");
    assert!(tag.append_json(&mut json));
    assert_eq!(json, "[{\"value\":\"a\\\"b\",\"decorated\":\"c\\\\d\\n\"}");
    assert!(Tag::new("e").with_range(1..2).append_json(&mut json));
    assert_eq!(
        json,
        "[{\"value\":\"a\\\"b\",\"decorated\":\"c\\\\d\\n\"}{\"value\":\"e\",\"range\":[1,2]}"
    );
}

#[test]
fn to_json_lists_the_tags_in_their_order() {
    let mut tagged = Tagged::new(b"a b c")
        .tag(Tag::new("a").with_range(0..1))
        .tag(Tag::new("b").with_range(2..3).with_decoration("B"))
        .tag(Tag::new("c"));
    tagged.fill_text_data();
    assert_eq!(
        tagged.to_json().unwrap(),
        "{\"tags\":[{\"value\":\"a\",\"range\":[0,1]},{\"value\":\"b\",\"range\":[2,3],\"decorated\":\"B\"},{\"value\":\"c\"}],\"data\":{\"text\":\"a b c\"}}"
    );
    let mut empty = Tagged::new(b"");
    empty.fill_text_data();
    assert_eq!(empty.to_json().unwrap(), "{\"tags\":[],\"data\":{\"text\":\"\"}}");
}
