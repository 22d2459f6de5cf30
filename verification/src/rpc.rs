//! What is asked of the server over HTTP, and what its replies mean.

use crate::json::{
    by_name, lemma_members_view_push, member, members_view, number_from, whole_number, Json,
    JsonView,
};
use crate::json_text::{compact_text, pretty_or_empty, pretty_text, read_document};
use crate::text::{trim_end_slashes, without_end_slashes};
use crate::tools::{tools_from, tools_of, tools_view, ToolInfo, ToolView};
use vstd::prelude::*;

verus! {

/// A GET request.
#[derive(Debug, PartialEq, Eq)]
pub struct HttpGet {
    pub url: String,
    pub timeout_secs: u64,
}

/// A POST request.
#[derive(Debug, PartialEq, Eq)]
pub struct HttpPost {
    pub url: String,
    /// The `Authorization` header.
    pub authorization: String,
    /// The `Content-Type` header.
    pub content_type: String,
    pub timeout_secs: u64,
    pub body: String,
}

/// A POST request as a mathematical value.
pub struct PostView {
    pub url: Seq<char>,
    pub authorization: Seq<char>,
    pub content_type: Seq<char>,
    pub timeout_secs: int,
    pub body: Seq<char>,
}

impl View for HttpPost {
    type V = PostView;

    open spec fn view(&self) -> PostView {
        PostView {
            url: self.url@,
            authorization: self.authorization@,
            content_type: self.content_type@,
            timeout_secs: self.timeout_secs as int,
            body: self.body@,
        }
    }
}

/// What a text or the text of an error stands for.
pub open spec fn text_outcome(outcome: Result<String, String>) -> Result<Seq<char>, Seq<char>> {
    match outcome {
        Ok(text) => Ok(text@),
        Err(text) => Err(text@),
    }
}

/// What the tools or the text of an error stand for.
pub open spec fn tools_outcome(outcome: Result<Vec<ToolInfo>, String>) -> Result<
    Seq<ToolView>,
    Seq<char>,
> {
    match outcome {
        Ok(tools) => Ok(tools_view(tools@)),
        Err(text) => Err(text@),
    }
}

/// What a document or the text of an error stands for.
pub open spec fn json_outcome(outcome: Result<Json, String>) -> Result<JsonView, Seq<char>> {
    match outcome {
        Ok(json) => Ok(json@),
        Err(text) => Err(text@),
    }
}

/// The address of `path` on the server at `url`, whether or not `url` ends with slashes.
pub open spec fn endpoint(url: Seq<char>, path: Seq<char>) -> Seq<char> {
    without_end_slashes(url) + path
}

/// The address of `path` on the server at `url`.
fn endpoint_text(url: &str, path: &str) -> (address: String)
    ensures
        address@ == endpoint(url@, path@),
{
    let mut address = trim_end_slashes(url);
    address.append(path);
    address
}

/// The header that carries the bearer token.
fn bearer(token: &str) -> (header: String)
    ensures
        header@ == "Bearer "@ + token@,
{
    let mut header = "Bearer ".to_owned();
    header.append(token);
    header
}

/// Asks whether the server is up.
pub fn healthz_request(url: &str) -> (request: HttpGet)
    ensures
        request.url@ == endpoint(url@, "/healthz"@),
        request.timeout_secs == 2,
{
    HttpGet { url: endpoint_text(url, "/healthz"), timeout_secs: 2 }
}

/// The state of the server by its reply: the body, empty where it could not be read, or why there
/// is no reply.
pub fn do_healthz(reply: Result<Option<String>, String>) -> (outcome: Result<String, String>)
    ensures
        text_outcome(outcome) == match reply {
            Ok(Some(body)) => Ok::<Seq<char>, Seq<char>>(body@),
            Ok(None) => Ok(Seq::empty()),
            Err(text) => Err(text@),
        },
{
    match reply {
        Ok(Some(body)) => Ok(body),
        Ok(None) => Ok(String::new()),
        Err(text) => Err(text),
    }
}

/// The call that lists the tools.
pub open spec fn list_tools_body() -> JsonView {
    JsonView::Object(
        map![
            "jsonrpc"@ => JsonView::Text("2.0"@),
            "id"@ => JsonView::Number(whole_number(1)),
            "method"@ => JsonView::Text("tools/list"@),
        ],
    )
}

/// The call of `tool` with `args`.
pub open spec fn call_tool_body(tool: Seq<char>, args: JsonView) -> JsonView {
    JsonView::Object(
        map![
            "jsonrpc"@ => JsonView::Text("2.0"@),
            "id"@ => JsonView::Number(whole_number(2)),
            "method"@ => JsonView::Text("tools/call"@),
            "params"@ => JsonView::Object(
                map![
                    "name"@ => JsonView::Text(tool),
                    "arguments"@ => args,
                ],
            ),
        ],
    )
}

/// A call that is sent to the server at `url` on behalf of the bearer of `token`.
pub open spec fn rpc_post(
    url: Seq<char>,
    token: Seq<char>,
    timeout_secs: int,
    body: JsonView,
) -> PostView {
    PostView {
        url: endpoint(url, "/rpc"@),
        authorization: "Bearer "@ + token,
        content_type: "application/json"@,
        timeout_secs,
        body: compact_text(body),
    }
}

/// A call that is sent to the server at `url` on behalf of the bearer of `token`.
fn rpc_request(url: &str, token: &str, timeout_secs: u64, body: &Json) -> (request: HttpPost)
    ensures
        request@ == rpc_post(url@, token@, timeout_secs as int, body@),
{
    HttpPost {
        url: endpoint_text(url, "/rpc"),
        authorization: bearer(token),
        content_type: "application/json".to_owned(),
        timeout_secs,
        body: body.compact(),
    }
}

/// Adds a member at the end of an object.
fn add_member(members: &mut Vec<(String, Json)>, name: &str, value: Json)
    ensures
        by_name(members_view(final(members)@)) == by_name(members_view(old(members)@)).insert(
            name@,
            value@,
        ),
{
    let member = (name.to_owned(), value);
    proof {
        lemma_members_view_push(members@, member);
        assert(members_view(members@).push((name@, value@)).drop_last() =~= members_view(members@));
    }
    members.push(member);
}

/// An object without members.
fn no_members() -> (members: Vec<(String, Json)>)
    ensures
        by_name(members_view(members@)) == Map::<Seq<char>, JsonView>::empty(),
{
    Vec::new()
}

/// Asks for the list of tools.
pub fn list_tools_request(url: &str, token: &str) -> (request: HttpPost)
    ensures
        request@ == rpc_post(url@, token@, 5, list_tools_body()),
{
    let mut members = no_members();
    add_member(&mut members, "jsonrpc", Json::Text("2.0".to_owned()));
    add_member(&mut members, "id", Json::Number(number_from(1)));
    add_member(&mut members, "method", Json::Text("tools/list".to_owned()));
    let body = Json::Object(members);
    rpc_request(url, token, 5, &body)
}

/// Asks for a call of `tool` with `args`.
pub fn call_tool_request(url: &str, token: &str, tool: &str, args: Json) -> (request: HttpPost)
    ensures
        request@ == rpc_post(url@, token@, 30, call_tool_body(tool@, args@)),
{
    let mut params = no_members();
    add_member(&mut params, "name", Json::Text(tool.to_owned()));
    add_member(&mut params, "arguments", args);
    let mut members = no_members();
    add_member(&mut members, "jsonrpc", Json::Text("2.0".to_owned()));
    add_member(&mut members, "id", Json::Number(number_from(2)));
    add_member(&mut members, "method", Json::Text("tools/call".to_owned()));
    add_member(&mut members, "params", Json::Object(params));
    let body = Json::Object(members);
    rpc_request(url, token, 30, &body)
}

/// The document that a reply carries: what its bytes spell, or why there is none.
pub open spec fn reply_document(reply: Result<Seq<u8>, Seq<char>>) -> Result<JsonView, Seq<char>> {
    match reply {
        Ok(bytes) => match read_document(bytes) {
            Ok(json) => Ok(json),
            Err(text) => Err("Failed to read JSON: "@ + text),
        },
        Err(text) => Err(text),
    }
}

/// What the bytes of a reply or the text of an error stand for.
pub open spec fn bytes_outcome(reply: Result<Vec<u8>, String>) -> Result<Seq<u8>, Seq<char>> {
    match reply {
        Ok(bytes) => Ok(bytes@),
        Err(text) => Err(text@),
    }
}

/// The document that a reply carries.
fn read_reply(reply: Result<Vec<u8>, String>) -> (outcome: Result<Json, String>)
    ensures
        json_outcome(outcome) == reply_document(bytes_outcome(reply)),
{
    match reply {
        Ok(bytes) => match Json::read(bytes.as_slice()) {
            Ok(json) => Ok(json),
            Err(text) => {
                let mut message = "Failed to read JSON: ".to_owned();
                message.append(text.as_str());
                Err(message)
            },
        },
        Err(text) => Err(text),
    }
}

/// The tools that the reply `json` lists. A reply with an `error` is refused with that error; one
/// without an array of tools in its `result` is refused as a whole.
pub open spec fn listed_tools(json: JsonView) -> Result<Seq<ToolView>, Seq<char>> {
    match member(json, "error"@) {
        Some(error) => Err(compact_text(error)),
        None => match member(json, "result"@) {
            Some(result) => match member(result, "tools"@) {
                Some(JsonView::Array(items)) => Ok(tools_of(items)),
                _ => Err("unexpected response: "@ + compact_text(json)),
            },
            None => Err("unexpected response: "@ + compact_text(json)),
        },
    }
}

/// Whether `json` has an array of tools in its `result`.
fn has_tools(json: &Json) -> (answer: bool)
    ensures
        answer == (member(json@, "result"@) matches Some(result) && member(
            result,
            "tools"@,
        ) matches Some(JsonView::Array(_))),
{
    match json.get("result") {
        Some(result) => match result.get("tools") {
            Some(Json::Array(_)) => true,
            _ => false,
        },
        None => false,
    }
}

/// The tools that the reply `json` lists.
pub fn list_tools_reply(json: Json) -> (outcome: Result<Vec<ToolInfo>, String>)
    ensures
        tools_outcome(outcome) == listed_tools(json@),
{
    if let Some(error) = json.get("error") {
        return Err(error.compact());
    }
    if !has_tools(&json) {
        let mut message = "unexpected response: ".to_owned();
        message.append(json.compact().as_str());
        return Err(message);
    }
    match json.into_member("result") {
        Some(result) => match result.into_member("tools") {
            Some(Json::Array(items)) => Ok(tools_from(items)),
            _ => Ok(Vec::new()),
        },
        None => Ok(Vec::new()),
    }
}

/// The tools that the server lists in its reply, or why there are none.
pub fn do_list_tools(reply: Result<Vec<u8>, String>) -> (outcome: Result<Vec<ToolInfo>, String>)
    ensures
        tools_outcome(outcome) == match reply_document(bytes_outcome(reply)) {
            Ok(json) => listed_tools(json),
            Err(text) => Err(text),
        },
{
    match read_reply(reply) {
        Ok(json) => list_tools_reply(json),
        Err(text) => Err(text),
    }
}

/// What the reply `json` gives for a call: its `result`, null where it has none. A reply with an
/// `error` is refused with that error.
pub open spec fn call_result(json: JsonView) -> Result<JsonView, Seq<char>> {
    match member(json, "error"@) {
        Some(error) => Err(pretty_or_empty(error)),
        None => match member(json, "result"@) {
            Some(result) => Ok(result),
            None => Ok(JsonView::Null),
        },
    }
}

/// What the reply `json` gives for a call.
pub fn call_tool_reply(json: Json) -> (outcome: Result<Json, String>)
    ensures
        json_outcome(outcome) == call_result(json@),
{
    if let Some(error) = json.get("error") {
        return Err(error.pretty());
    }
    match json.into_member("result") {
        Some(result) => Ok(result),
        None => Ok(Json::Null),
    }
}

/// What the server's reply gives for a call, or why it gives nothing.
pub fn do_call_tool(reply: Result<Vec<u8>, String>) -> (outcome: Result<Json, String>)
    ensures
        json_outcome(outcome) == match reply_document(bytes_outcome(reply)) {
            Ok(json) => call_result(json),
            Err(text) => Err(text),
        },
{
    match read_reply(reply) {
        Ok(json) => call_tool_reply(json),
        Err(text) => Err(text),
    }
}

/// Slashes at the end of the server's address, however many, make no difference.
pub proof fn law_end_slashes_are_ignored(url: Seq<char>, n: nat, path: Seq<char>)
    ensures
        endpoint(url + Seq::new(n, |i: int| '/'), path) == endpoint(url, path),
    decreases n,
{
    let slashes = Seq::new(n, |i: int| '/');
    if n == 0 {
        assert(url + slashes =~= url);
    } else {
        let fewer = Seq::new((n - 1) as nat, |i: int| '/');
        assert((url + slashes).drop_last() =~= url + fewer);
        assert((url + slashes).last() == '/');
        law_end_slashes_are_ignored(url, (n - 1) as nat, path);
    }
}

/// A reply with an `error`, whatever else it has, is refused by both calls.
pub proof fn law_error_is_refused(json: JsonView)
    requires
        member(json, "error"@) is Some,
    ensures
        listed_tools(json) is Err,
        call_result(json) is Err,
{
}

/// A tool in the list is one that an item of the reply describes.
pub proof fn law_listed_tools_are_described(json: JsonView, tool: ToolView)
    requires
        listed_tools(json) matches Ok(tools) && tools.contains(tool),
    ensures
        member(json, "result"@) matches Some(result) && member(result, "tools"@) matches Some(
            JsonView::Array(items),
        ) && exists|item: JsonView| #[trigger]
            items.contains(item) && crate::tools::tool_of(item) == Some(tool),
{
    let result = member(json, "result"@)->0;
    let items = member(result, "tools"@)->0->Array_0;
    items.lemma_filter_map_contains(|item: JsonView| crate::tools::tool_of(item), tool);
}

/// An address that does not end with a slash is used as it stands, with the path behind it.
pub proof fn law_address_is_kept(url: Seq<char>, path: Seq<char>)
    requires
        url.len() > 0 ==> url.last() != '/',
    ensures
        endpoint(url, path) == url + path,
{
}

/// A call goes to the path `/rpc` under the address, with the token as it stands behind the word
/// `Bearer`, as JSON, and its body is the text of the document.
pub proof fn law_call_is_sent_whole(
    url: Seq<char>,
    token: Seq<char>,
    timeout_secs: int,
    body: JsonView,
)
    ensures
        ({
            let post = rpc_post(url, token, timeout_secs, body);
            &&& post.url == without_end_slashes(url) + seq!['/', 'r', 'p', 'c']
            &&& post.authorization.len() == 7 + token.len()
            &&& post.authorization.take(7) == seq!['B', 'e', 'a', 'r', 'e', 'r', ' ']
            &&& post.authorization.skip(7) == token
            &&& post.content_type == "application/json"@
            &&& post.timeout_secs == timeout_secs
            &&& post.body == compact_text(body)
        }),
{
    reveal_strlit("/rpc");
    reveal_strlit("Bearer ");
    assert("/rpc"@ =~= seq!['/', 'r', 'p', 'c']);
    let header = "Bearer "@ + token;
    assert(header.take(7) =~= seq!['B', 'e', 'a', 'r', 'e', 'r', ' ']);
    assert(header.skip(7) =~= token);
}

/// The call that lists the tools is a JSON-RPC 2.0 call of `tools/list` and nothing more.
pub proof fn law_list_call()
    ensures
        list_tools_body() matches JsonView::Object(call) && {
            &&& forall|name: Seq<char>| #[trigger]
                call.contains_key(name) <==> name == "jsonrpc"@ || name == "id"@ || name
                    == "method"@
            &&& call["jsonrpc"@] == JsonView::Text("2.0"@)
            &&& call["id"@] == JsonView::Number(whole_number(1))
            &&& call["method"@] == JsonView::Text("tools/list"@)
        },
{
    lemma_call_names();
}

/// The call of a tool carries the tool's name and the arguments as they are, whatever they are.
pub proof fn law_tool_call_carries_arguments(tool: Seq<char>, args: JsonView)
    ensures
        call_tool_body(tool, args) matches JsonView::Object(call) && {
            &&& forall|name: Seq<char>| #[trigger]
                call.contains_key(name) <==> name == "jsonrpc"@ || name == "id"@ || name
                    == "method"@ || name == "params"@
            &&& call["jsonrpc"@] == JsonView::Text("2.0"@)
            &&& call["id"@] == JsonView::Number(whole_number(2))
            &&& call["method"@] == JsonView::Text("tools/call"@)
            &&& call["params"@] matches JsonView::Object(params) && {
                &&& forall|name: Seq<char>| #[trigger]
                    params.contains_key(name) <==> name == "name"@ || name == "arguments"@
                &&& params["name"@] == JsonView::Text(tool)
                &&& params["arguments"@] == args
            }
        },
{
    lemma_call_names();
}

/// The names in a call differ.
proof fn lemma_call_names()
    ensures
        "jsonrpc"@ != "id"@,
        "jsonrpc"@ != "method"@,
        "jsonrpc"@ != "params"@,
        "id"@ != "method"@,
        "id"@ != "params"@,
        "method"@ != "params"@,
        "name"@ != "arguments"@,
{
    reveal_strlit("jsonrpc");
    reveal_strlit("id");
    reveal_strlit("method");
    reveal_strlit("params");
    reveal_strlit("name");
    reveal_strlit("arguments");
    assert("jsonrpc"@.len() == 7 && "id"@.len() == 2 && "method"@.len() == 6);
    assert("params"@.len() == 6 && "name"@.len() == 4 && "arguments"@.len() == 9);
    assert("method"@[0] != "params"@[0]);
}

/// A list of tools is taken from a reply exactly where the reply is an object without an `error`
/// whose `result` is an object whose `tools` are an array; then every item counts. An `error`, be it
/// null, is given back as its text, and any other reply as a whole.
pub proof fn law_list_reply(json: JsonView)
    ensures
        ({
            let reply = json->Object_0;
            let result = reply["result"@]->Object_0;
            let refused = json is Object && reply.contains_key("error"@);
            let listed = json is Object && !reply.contains_key("error"@) && reply.contains_key(
                "result"@,
            ) && reply["result"@] is Object && result.contains_key("tools"@)
                && result["tools"@] is Array;
            &&& refused ==> listed_tools(json) == Err::<Seq<ToolView>, Seq<char>>(
                compact_text(reply["error"@]),
            )
            &&& listed ==> listed_tools(json) == Ok::<Seq<ToolView>, Seq<char>>(
                tools_of(result["tools"@]->Array_0),
            )
            &&& !refused && !listed ==> listed_tools(json) == Err::<Seq<ToolView>, Seq<char>>(
                "unexpected response: "@ + compact_text(json),
            )
        }),
{
}

/// A tool that the reply describes is in the list, with its name, its description and its schema as
/// they are, whatever the schema holds.
pub proof fn law_described_tools_are_listed(
    reply: Map<Seq<char>, JsonView>,
    result: Map<Seq<char>, JsonView>,
    items: Seq<JsonView>,
    tool: Map<Seq<char>, JsonView>,
    name: Seq<char>,
    description: Seq<char>,
    schema: JsonView,
)
    requires
        !reply.contains_key("error"@),
        reply.contains_pair("result"@, JsonView::Object(result)),
        result.contains_pair("tools"@, JsonView::Array(items)),
        items.contains(JsonView::Object(tool)),
        tool.contains_pair("name"@, JsonView::Text(name)),
        tool.contains_pair("description"@, JsonView::Text(description)),
        tool.contains_pair("inputSchema"@, schema),
    ensures
        listed_tools(JsonView::Object(reply)) matches Ok(tools) && tools.contains(
            ToolView { name, description, input_schema: schema },
        ),
{
    let item = JsonView::Object(tool);
    let k = choose|k: int| 0 <= k < items.len() && items[k] == item;
    let front = items.take(k);
    let back = items.skip(k + 1);
    assert(items =~= front + (seq![item] + back));
    crate::tools::law_tools_of_lists(front, seq![item] + back);
    crate::tools::law_tools_of_lists(seq![item], back);
    crate::tools::law_tool_of_object(tool);
    assert(tools_of(items)[tools_of(front).len() as int] == (ToolView {
        name,
        description,
        input_schema: schema,
    }));
}

/// A call gives the `result` of the reply as it is, null where the reply has none; an `error`, be it
/// null, is given back as its text, whatever the result.
pub proof fn law_call_reply(json: JsonView)
    ensures
        json matches JsonView::Object(reply) ==> {
            &&& reply.contains_key("error"@) ==> {
                &&& pretty_text(reply["error"@]) matches Some(text) ==> call_result(json) == Err::<
                    JsonView,
                    Seq<char>,
                >(text)
                &&& pretty_text(reply["error"@]) is None ==> call_result(json) == Err::<
                    JsonView,
                    Seq<char>,
                >(Seq::empty())
            }
            &&& !reply.contains_key("error"@) && reply.contains_key("result"@) ==> call_result(json)
                == Ok::<JsonView, Seq<char>>(reply["result"@])
            &&& !reply.contains_key("error"@) && !reply.contains_key("result"@) ==> call_result(
                json,
            ) == Ok::<JsonView, Seq<char>>(JsonView::Null)
        },
        !(json is Object) ==> call_result(json) == Ok::<JsonView, Seq<char>>(JsonView::Null),
{
}

/// A reply that came is the document that its bytes spell, or an error that says why they spell
/// none; where none came, the reason is passed on.
pub proof fn law_reply_is_read(reply: Result<Seq<u8>, Seq<char>>)
    ensures
        match reply {
            Ok(bytes) => match read_document(bytes) {
                Ok(json) => reply_document(reply) == Ok::<JsonView, Seq<char>>(json),
                Err(why) => reply_document(reply) matches Err(text) && text
                    == "Failed to read JSON: "@ + why,
            },
            Err(why) => reply_document(reply) == Err::<JsonView, Seq<char>>(why),
        },
{
}

/// Outcomes stand for what they hold: text for its characters, bytes for themselves, tools and
/// documents for what they describe, an error for its text.
pub proof fn law_outcomes_hide_nothing(
    text: Result<String, String>,
    bytes: Result<Vec<u8>, String>,
    json: Result<Json, String>,
    tools: Result<Vec<ToolInfo>, String>,
)
    ensures
        match text {
            Ok(t) => text_outcome(text) == Ok::<Seq<char>, Seq<char>>(t@),
            Err(e) => text_outcome(text) == Err::<Seq<char>, Seq<char>>(e@),
        },
        match bytes {
            Ok(b) => bytes_outcome(bytes) == Ok::<Seq<u8>, Seq<char>>(b@),
            Err(e) => bytes_outcome(bytes) == Err::<Seq<u8>, Seq<char>>(e@),
        },
        match json {
            Ok(j) => json_outcome(json) == Ok::<JsonView, Seq<char>>(j@),
            Err(e) => json_outcome(json) == Err::<JsonView, Seq<char>>(e@),
        },
        match tools {
            Ok(t) => tools_outcome(tools) matches Ok(views) && views.len() == t@.len() && (forall|
                i: int,
            |
                0 <= i < views.len() ==> #[trigger] views[i] == t@[i]@),
            Err(e) => tools_outcome(tools) == Err::<Seq<ToolView>, Seq<char>>(e@),
        },
{
}

/// A request in memory stands for what it holds.
pub proof fn law_post_view(post: HttpPost)
    ensures
        post@.url == post.url@,
        post@.authorization == post.authorization@,
        post@.content_type == post.content_type@,
        post@.timeout_secs == post.timeout_secs,
        post@.body == post.body@,
{
}

/// Asking whether the server is up: one request to `/healthz` under the address, without the
/// slashes that it may end with, for two seconds at most.
pub proof fn law_asking_for_health(url: &str, request: HttpGet)
    requires
        call_ensures(healthz_request, (url,), request),
    ensures
        request.timeout_secs == 2,
        url@.len() > 0 && url@.last() != '/' ==> request.url@ == url@ + "/healthz"@,
        request.url@ == without_end_slashes(url@) + "/healthz"@,
{
}

/// Whatever the server says of its state is passed on as it is.
pub proof fn law_hearing_of_health(
    reply: Result<Option<String>, String>,
    outcome: Result<String, String>,
)
    requires
        call_ensures(do_healthz, (reply,), outcome),
    ensures
        match reply {
            Ok(Some(body)) => outcome matches Ok(text) && text@ == body@,
            Ok(None) => outcome matches Ok(text) && text@.len() == 0,
            Err(why) => outcome matches Err(text) && text@ == why@,
        },
{
}

/// Asking for the list of tools, for five seconds at most.
pub proof fn law_asking_for_tools(url: &str, token: &str, request: HttpPost)
    requires
        call_ensures(list_tools_request, (url, token), request),
    ensures
        request.url@ == without_end_slashes(url@) + "/rpc"@,
        request.authorization@ == "Bearer "@ + token@,
        request.content_type@ == "application/json"@,
        request.timeout_secs == 5,
        request.body@ == compact_text(list_tools_body()),
{
}

/// Asking for a call, for thirty seconds at most, with the tool and the arguments as they are.
pub proof fn law_asking_for_a_call(
    url: &str,
    token: &str,
    tool: &str,
    args: Json,
    request: HttpPost,
)
    requires
        call_ensures(call_tool_request, (url, token, tool, args), request),
    ensures
        request.url@ == without_end_slashes(url@) + "/rpc"@,
        request.authorization@ == "Bearer "@ + token@,
        request.content_type@ == "application/json"@,
        request.timeout_secs == 30,
        request.body@ == compact_text(call_tool_body(tool@, args@)),
{
}

/// What a reply with a list of tools gives: an error for an `error`, the tools of every item, in
/// order, for an array of tools, and an error for anything else.
pub proof fn law_hearing_of_tools(json: Json, outcome: Result<Vec<ToolInfo>, String>)
    requires
        call_ensures(list_tools_reply, (json,), outcome),
    ensures
        ({
            let reply = json@->Object_0;
            let result = reply["result"@]->Object_0;
            let refused = json@ is Object && reply.contains_key("error"@);
            let listed = json@ is Object && !reply.contains_key("error"@) && reply.contains_key(
                "result"@,
            ) && reply["result"@] is Object && result.contains_key("tools"@)
                && result["tools"@] is Array;
            &&& refused ==> (outcome matches Err(text) && text@ == compact_text(reply["error"@]))
            &&& listed ==> (outcome matches Ok(tools) && tools_view(tools@) == tools_of(
                result["tools"@]->Array_0,
            ))
            &&& !refused && !listed ==> (outcome matches Err(text) && text@
                == "unexpected response: "@ + compact_text(json@))
        }),
{
    law_list_reply(json@);
}

/// What a reply to a call gives: an error for an `error`, otherwise the `result` as it is, or null.
pub proof fn law_hearing_of_a_call(json: Json, outcome: Result<Json, String>)
    requires
        call_ensures(call_tool_reply, (json,), outcome),
    ensures
        ({
            let reply = json@->Object_0;
            let refused = json@ is Object && reply.contains_key("error"@);
            let given = json@ is Object && reply.contains_key("result"@);
            &&& refused ==> (outcome matches Err(text) && text@ == pretty_or_empty(
                reply["error"@],
            ))
            &&& !refused && given ==> (outcome matches Ok(value) && value@ == reply["result"@])
            &&& !refused && !given ==> (outcome matches Ok(value) && value@ == JsonView::Null)
        }),
{
    law_call_reply(json@);
}

/// The bytes of a reply are read and understood; bytes that are no JSON are an error, and where no
/// reply came the reason is passed on.
pub proof fn law_hearing_from_the_server(
    reply: Result<Vec<u8>, String>,
    tools: Result<Vec<ToolInfo>, String>,
    result: Result<Json, String>,
)
    requires
        call_ensures(do_list_tools, (reply,), tools),
        call_ensures(do_call_tool, (reply,), result),
    ensures
        match reply {
            Ok(bytes) => match read_document(bytes@) {
                Ok(json) => tools_outcome(tools) == listed_tools(json) && json_outcome(result)
                    == call_result(json),
                Err(why) => {
                    &&& tools matches Err(text) && text@ == "Failed to read JSON: "@ + why
                    &&& result matches Err(text) && text@ == "Failed to read JSON: "@ + why
                },
            },
            Err(why) => {
                &&& tools matches Err(text) && text@ == why@
                &&& result matches Err(text) && text@ == why@
            },
        },
{
}

} // verus!
