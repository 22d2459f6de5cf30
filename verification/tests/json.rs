use gnome_mcp_bridge::json::Json;
use gnome_mcp_bridge::tools::{tools_from, ToolInfo};

fn text(s: &str) -> Json {
    Json::Text(s.to_string())
}

fn number(n: u64) -> Json {
    Json::Number(serde_json::Number::from(n))
}

fn object(members: Vec<(&str, Json)>) -> Json {
    Json::Object(members.into_iter().map(|(n, v)| (n.to_string(), v)).collect())
}

#[test]
fn read_gives_the_document() {
    let json = Json::read(br#" {"b":[1,null,true,"x"],"a":{}} "#).unwrap();
    assert_eq!(
        json,
        object(vec![
            ("a", object(vec![])),
            ("b", Json::Array(vec![number(1), Json::Null, Json::Bool(true), text("x")])),
        ])
    );
}

#[test]
fn read_reports_what_is_wrong() {
    assert_eq!(
        Json::read(b"{").unwrap_err(),
        serde_json::from_reader::<_, serde_json::Value>(&b"{"[..]).unwrap_err().to_string()
    );
    assert!(Json::read(b"").unwrap_err().starts_with("EOF while parsing a value"));
    assert!(Json::read(b"\"\xff\"").is_err());
}

#[test]
fn parse_takes_json_only() {
    assert_eq!(Json::parse("[1]"), Some(Json::Array(vec![number(1)])));
    assert_eq!(Json::parse("null"), Some(Json::Null));
    assert_eq!(Json::parse("[1"), None);
    assert_eq!(Json::parse(""), None);
}

#[test]
fn compact_form() {
    let json = object(vec![
        ("jsonrpc", text("2.0")),
        ("id", number(1)),
        ("list", Json::Array(vec![Json::Null, Json::Bool(false), text("a\"b")])),
    ]);
    assert_eq!(json.compact(), r#"{"id":1,"jsonrpc":"2.0","list":[null,false,"a\"b"]}"#);
    assert_eq!(Json::parse("-1.5e3").unwrap().compact(), "-1500.0");
}

#[test]
fn pretty_form() {
    let json = object(vec![("a", Json::Array(vec![number(1), number(2)])), ("b", object(vec![]))]);
    assert_eq!(json.pretty(), "{\n  \"a\": [\n    1,\n    2\n  ],\n  \"b\": {}\n}");
    assert_eq!(Json::Null.pretty(), "null");
}

#[test]
fn of_two_members_with_one_name_the_later_counts() {
    let json = object(vec![("x", number(1)), ("y", number(2)), ("x", number(3))]);
    assert_eq!(json.get("x"), Some(&number(3)));
    assert_eq!(json.get("y"), Some(&number(2)));
    assert_eq!(json.compact(), r#"{"x":3,"y":2}"#);
    assert_eq!(json.into_member("x"), Some(number(3)));
    let read = Json::parse(r#"{"x":1,"x":3}"#).unwrap();
    assert_eq!(read, object(vec![("x", number(3))]));
}

#[test]
fn members_of_objects_only() {
    let json = object(vec![("a", Json::Null)]);
    assert_eq!(json.get("a"), Some(&Json::Null));
    assert_eq!(json.get("b"), None);
    assert_eq!(Json::Array(vec![Json::Null]).get("a"), None);
    assert_eq!(text("a").into_member("a"), None);
    assert_eq!(json.into_member("b"), None);
}

fn tool(name: &str, description: &str, input_schema: Json) -> ToolInfo {
    ToolInfo { name: name.to_string(), description: description.to_string(), input_schema }
}

#[test]
fn a_tool_from_an_object() {
    let json = object(vec![
        ("name", text("read")),
        ("description", text("Reads a file")),
        ("inputSchema", object(vec![("type", text("object"))])),
        ("title", text("ignored")),
    ]);
    assert_eq!(
        ToolInfo::from_json(json),
        Some(tool("read", "Reads a file", object(vec![("type", text("object"))])))
    );
}

#[test]
fn a_tool_from_an_array() {
    let json = Json::Array(vec![text("read"), text("Reads"), Json::Null]);
    assert_eq!(ToolInfo::from_json(json), Some(tool("read", "Reads", Json::Null)));
    let long = Json::Array(vec![text("read"), text("Reads"), Json::Null, Json::Null]);
    assert_eq!(ToolInfo::from_json(long), None);
    let short = Json::Array(vec![text("read"), text("Reads")]);
    assert_eq!(ToolInfo::from_json(short), None);
    let wrong = Json::Array(vec![text("read"), number(1), Json::Null]);
    assert_eq!(ToolInfo::from_json(wrong), None);
}

#[test]
fn what_is_no_tool() {
    assert_eq!(ToolInfo::from_json(Json::Null), None);
    assert_eq!(ToolInfo::from_json(text("read")), None);
    let no_schema = object(vec![("name", text("a")), ("description", text("b"))]);
    assert_eq!(ToolInfo::from_json(no_schema), None);
    let no_name = object(vec![("description", text("b")), ("inputSchema", Json::Null)]);
    assert_eq!(ToolInfo::from_json(no_name), None);
    let no_description = object(vec![("name", text("a")), ("inputSchema", Json::Null)]);
    assert_eq!(ToolInfo::from_json(no_description), None);
    let odd_name =
        object(vec![("name", number(1)), ("description", text("b")), ("inputSchema", Json::Null)]);
    assert_eq!(ToolInfo::from_json(odd_name), None);
    let null_description =
        object(vec![("name", text("a")), ("description", Json::Null), ("inputSchema", Json::Null)]);
    assert_eq!(ToolInfo::from_json(null_description), None);
}

#[test]
fn tools_keep_their_order_and_odd_items_are_passed_over() {
    let items = vec![
        Json::Array(vec![text("b"), text(""), Json::Null]),
        Json::Null,
        Json::Array(vec![text("a"), text(""), Json::Null]),
        object(vec![]),
    ];
    assert_eq!(tools_from(items), vec![tool("b", "", Json::Null), tool("a", "", Json::Null)]);
}
