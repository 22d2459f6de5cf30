use gnome_mcp_bridge::json::Json;
use gnome_mcp_bridge::rpc::{
    call_tool_reply, call_tool_request, do_call_tool, do_healthz, do_list_tools, healthz_request,
    list_tools_reply, list_tools_request,
};

#[test]
fn healthz_address() {
    let get = healthz_request("http://127.0.0.1:18765");
    assert_eq!(get.url, "http://127.0.0.1:18765/healthz");
    assert_eq!(get.timeout_secs, 2);
}

#[test]
fn a_slash_at_the_end_of_the_address_is_ignored() {
    assert_eq!(healthz_request("http://h/"), healthz_request("http://h"));
    assert_eq!(healthz_request("http://h///"), healthz_request("http://h"));
    assert_eq!(list_tools_request("http://h/", "t"), list_tools_request("http://h", "t"));
}

#[test]
fn list_tools_call() {
    let post = list_tools_request("http://h:1/", "secret");
    assert_eq!(post.url, "http://h:1/rpc");
    assert_eq!(post.authorization, "Bearer secret");
    assert_eq!(post.content_type, "application/json");
    assert_eq!(post.timeout_secs, 5);
    assert_eq!(post.body, r#"{"id":1,"jsonrpc":"2.0","method":"tools/list"}"#);
}

#[test]
fn call_tool_call() {
    let args = Json::parse(r#"{"path":"/tmp/x.txt","depth":2}"#).unwrap();
    let post = call_tool_request("http://h:1", "t", "read \"it\"", args);
    assert_eq!(post.url, "http://h:1/rpc");
    assert_eq!(post.authorization, "Bearer t");
    assert_eq!(post.content_type, "application/json");
    assert_eq!(post.timeout_secs, 30);
    let mut body = String::from(r#"{"id":2,"jsonrpc":"2.0","method":"tools/call","#);
    body.push_str(r#""params":{"arguments":{"depth":2,"path":"/tmp/x.txt"},"#);
    body.push_str(r#""name":"read \"it\""}}"#);
    assert_eq!(post.body, body);
}

#[test]
fn healthz_outcomes() {
    assert_eq!(do_healthz(Ok(Some("ok\n".to_string()))), Ok("ok\n".to_string()));
    assert_eq!(do_healthz(Ok(None)), Ok(String::new()));
    assert_eq!(do_healthz(Err("refused".to_string())), Err("refused".to_string()));
}

fn bytes(text: &str) -> Result<Vec<u8>, String> {
    Ok(text.as_bytes().to_vec())
}

#[test]
fn listed_tools() {
    let reply = r#"{"jsonrpc":"2.0","id":1,"result":{"tools":[
        {"name":"read","description":"Reads","inputSchema":{"properties":{"path":1}}},
        {"name":"broken"},
        {"name":"write","description":"Writes","inputSchema":null}]}}"#;
    let tools = do_list_tools(bytes(reply)).unwrap();
    assert_eq!(tools.len(), 2);
    assert_eq!(tools[0].name, "read");
    assert_eq!(tools[0].description, "Reads");
    assert_eq!(tools[0].input_schema.compact(), r#"{"properties":{"path":1}}"#);
    assert_eq!(tools[1].name, "write");
    assert_eq!(tools[1].input_schema, Json::Null);
}

#[test]
fn an_error_in_the_reply_refuses_the_list() {
    let reply = r#"{"error":{"code":-32600,"message":"no"},"result":{"tools":[]}}"#;
    assert_eq!(do_list_tools(bytes(reply)), Err(r#"{"code":-32600,"message":"no"}"#.to_string()));
    assert_eq!(do_list_tools(bytes(r#"{"error":null}"#)), Err("null".to_string()));
}

#[test]
fn a_reply_without_tools_is_unexpected() {
    for reply in [r#"{"result":{}}"#, r#"{"result":{"tools":{}}}"#, "{}", "[1,2]", "null"] {
        let expected = format!("unexpected response: {}", reply);
        assert_eq!(do_list_tools(bytes(reply)), Err(expected));
    }
}

#[test]
fn an_empty_list_is_no_error() {
    assert_eq!(do_list_tools(bytes(r#"{"result":{"tools":[]}}"#)), Ok(vec![]));
}

#[test]
fn a_reply_that_is_no_json_is_refused() {
    let error = do_list_tools(bytes("<html>")).unwrap_err();
    assert_eq!(error, "Failed to read JSON: expected value at line 1 column 1");
    let error = do_call_tool(bytes("")).unwrap_err();
    assert!(error.starts_with("Failed to read JSON: EOF while parsing a value"));
}

#[test]
fn no_reply_at_all() {
    assert_eq!(do_list_tools(Err("timed out".to_string())), Err("timed out".to_string()));
    assert_eq!(do_call_tool(Err("timed out".to_string())), Err("timed out".to_string()));
}

#[test]
fn call_results() {
    let json = do_call_tool(bytes(r#"{"id":2,"result":{"content":[1]}}"#)).unwrap();
    assert_eq!(json.compact(), r#"{"content":[1]}"#);
    assert_eq!(do_call_tool(bytes(r#"{"id":2}"#)), Ok(Json::Null));
    assert_eq!(do_call_tool(bytes("7")), Ok(Json::Null));
    assert_eq!(do_call_tool(bytes(r#"{"result":null}"#)), Ok(Json::Null));
}

#[test]
fn an_error_in_the_reply_refuses_the_call() {
    let reply = r#"{"error":{"code":1},"result":2}"#;
    assert_eq!(do_call_tool(bytes(reply)), Err("{\n  \"code\": 1\n}".to_string()));
}

#[test]
fn replies_as_documents() {
    let json = Json::parse(r#"{"error":"x"}"#).unwrap();
    assert_eq!(list_tools_reply(json), Err("\"x\"".to_string()));
    let json = Json::parse(r#"{"error":"x"}"#).unwrap();
    assert_eq!(call_tool_reply(json), Err("\"x\"".to_string()));
}
