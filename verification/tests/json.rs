use anna_rs::json::{
    compact_json, compact_object_text, empty_object, number, object1, object_text, parse_and_show,
    parse_json,
    parse_text_map, pretty_json, pretty_text, text, text_map_json, with_member, Json, JsonNumber,
};
use anna_rs::strmap::StrMap;

#[test]
fn members_come_in_the_order_of_their_keys() {
    let object = with_member(object1("b", number(2)), "a", text("x\"y"));
    assert_eq!(compact_json(&object), "{\"a\":\"x\\\"y\",\"b\":2}");
    let twice = with_member(object1("a", number(1)), "a", Json::Bool(true));
    assert_eq!(compact_json(&twice), "{\"a\":true}");
    assert_eq!(pretty_json(&object), "{\n  \"a\": \"x\\\"y\",\n  \"b\": 2\n}");
    assert_eq!(compact_json(&empty_object()), "{}");
}

#[test]
fn numbers_keep_their_text() {
    let read = parse_json("[1, -2, 2.5, null, {\"k\": false}]").expect("json");
    assert_eq!(compact_json(&read), "[1,-2,2.5,null,{\"k\":false}]");
    let no_number = Json::Number(JsonNumber { unsigned: None, text: "many".to_string() });
    assert_eq!(compact_json(&no_number), "null");
}

#[test]
fn texts_that_are_no_json_are_refused() {
    assert!(parse_json("{").is_err());
    assert!(parse_and_show("{").is_err());
    assert_eq!(pretty_text("{"), None);
    assert_eq!(pretty_text("[1]"), Some("[\n  1\n]".to_string()));
    let (json, shown) = parse_and_show("{\"b\":1,\"a\":2}").expect("json");
    assert_eq!(compact_json(&json), "{\"a\":2,\"b\":1}");
    assert_eq!(shown, "{\n  \"a\": 2,\n  \"b\": 1\n}");
}

#[test]
fn compact_objects_are_objects() {
    assert_eq!(compact_object_text("{ \"b\" : 1 }"), Ok("{\"b\":1}".to_string()));
    assert_eq!(object_text(&empty_object(), "shown".to_string()), Ok("shown".to_string()));
    assert_eq!(
        object_text(&Json::Null, "shown".to_string()),
        Err("expected a JSON object".to_string())
    );
    assert_eq!(compact_object_text("[1]"), Err("expected a JSON object".to_string()));
    assert!(compact_object_text("nothing").is_err());
}

#[test]
fn maps_of_texts_come_back() {
    let mut map = StrMap::new();
    map.insert("k".to_string(), "line\nbreak".to_string());
    map.insert("a".to_string(), String::new());
    let written = text_map_json(&map).expect("text");
    assert_eq!(written, "{\n  \"a\": \"\",\n  \"k\": \"line\\nbreak\"\n}");
    let read = parse_text_map(&written).expect("map");
    assert_eq!(read.len(), 2);
    assert_eq!(read.get("k"), Some(&"line\nbreak".to_string()));
    assert!(parse_text_map("{\"k\":1}").is_err());
}
