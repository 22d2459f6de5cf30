//! The tools that the server offers.

use crate::json::{items_view, member, Json, JsonView};
use vstd::prelude::*;

verus! {

/// A tool of the server.
#[derive(Debug, PartialEq, Eq)]
pub struct ToolInfo {
    pub name: String,
    pub description: String,
    /// The schema of the tool's arguments.
    pub input_schema: Json,
}

/// A tool as a mathematical value.
pub struct ToolView {
    pub name: Seq<char>,
    pub description: Seq<char>,
    pub input_schema: JsonView,
}

impl View for ToolInfo {
    type V = ToolView;

    open spec fn view(&self) -> ToolView {
        ToolView {
            name: self.name@,
            description: self.description@,
            input_schema: self.input_schema@,
        }
    }
}

/// What `tools` stand for, one by one.
pub open spec fn tools_view(tools: Seq<ToolInfo>) -> Seq<ToolView> {
    tools.map_values(|tool: ToolInfo| tool@)
}

/// The tool that `json` describes, if it describes one: an object with a `name`, a `description`
/// and an `inputSchema`, or an array of just these three. The first two are strings; the schema may
/// be anything. An object may have further members.
pub open spec fn tool_of(json: JsonView) -> Option<ToolView> {
    match json {
        JsonView::Object(_) => match (
            member(json, "name"@),
            member(json, "description"@),
            member(json, "inputSchema"@),
        ) {
            (
                Some(JsonView::Text(name)),
                Some(JsonView::Text(description)),
                Some(input_schema),
            ) => Some(ToolView { name, description, input_schema }),
            _ => None,
        },
        JsonView::Array(items) => if items.len() == 3 {
            match (items[0], items[1]) {
                (JsonView::Text(name), JsonView::Text(description)) => Some(
                    ToolView { name, description, input_schema: items[2] },
                ),
                _ => None,
            }
        } else {
            None
        },
        _ => None,
    }
}

/// The tools that `items` describe, in order; an item that describes none is passed over.
pub open spec fn tools_of(items: Seq<JsonView>) -> Seq<ToolView> {
    items.filter_map(|item: JsonView| tool_of(item))
}

/// What an optional tool stands for.
pub open spec fn tool_option_view(tool: Option<ToolInfo>) -> Option<ToolView> {
    match tool {
        Some(t) => Some(t@),
        None => None,
    }
}

impl ToolInfo {
    /// The tool that `json` describes, if it describes one.
    pub fn from_json(json: Json) -> (tool: Option<ToolInfo>)
        ensures
            tool_option_view(tool) == tool_of(json@),
    {
        match json {
            Json::Object(_) => {
                let name = match json.get("name") {
                    Some(Json::Text(text)) => text.clone(),
                    _ => {
                        return None;
                    },
                };
                let description = match json.get("description") {
                    Some(Json::Text(text)) => text.clone(),
                    _ => {
                        return None;
                    },
                };
                match json.into_member("inputSchema") {
                    Some(input_schema) => Some(ToolInfo { name, description, input_schema }),
                    None => None,
                }
            },
            Json::Array(items) => {
                assert(json@ == JsonView::Array(items_view(items@)));
                if items.len() != 3 {
                    return None;
                }
                let mut items = items;
                let third = items.pop();
                let second = items.pop();
                let first = items.pop();
                match (first, second, third) {
                    (
                        Some(Json::Text(name)),
                        Some(Json::Text(description)),
                        Some(input_schema),
                    ) => Some(ToolInfo { name, description, input_schema }),
                    _ => None,
                }
            },
            _ => None,
        }
    }
}

/// The tools that `items` describe, in order; an item that describes none is passed over.
pub fn tools_from(items: Vec<Json>) -> (tools: Vec<ToolInfo>)
    ensures
        tools_view(tools@) == tools_of(items_view(items@)),
{
    let mut tools: Vec<ToolInfo> = Vec::new();
    let ghost views = items_view(items@);
    let ghost describe = |item: JsonView| tool_of(item);
    assert(views.take(0) =~= Seq::empty());
    assert(tools_view(tools@) =~= views.take(0).filter_map(describe));
    for item in it: items
        invariant
            it.seq() == items@,
            views == items_view(items@),
            describe == (|item: JsonView| tool_of(item)),
            tools_view(tools@) == views.take(it.index() as int).filter_map(describe),
    {
        let ghost n = it.index() as int;
        let ghost shown = tools_view(tools@);
        assert(views[n] == item@);
        assert(views.take(n + 1).drop_last() =~= views.take(n));
        match ToolInfo::from_json(item) {
            Some(tool) => {
                tools.push(tool);
                assert(tools_view(tools@) =~= shown.push(tool@));
                assert(shown + seq![tool@] =~= shown.push(tool@));
            },
            None => {
                assert(shown + Seq::<ToolView>::empty() =~= shown);
            },
        }
    }
    assert(views.take(views.len() as int) =~= views);
    tools
}

/// An object with a text for a name, a text for a description and a schema is a tool with exactly
/// these three, whatever the schema is and whatever else the object holds; an object that lacks one
/// of them is none.
pub proof fn law_tool_of_object(members: Map<Seq<char>, JsonView>)
    ensures
        ({
            let tools = tools_of(seq![JsonView::Object(members)]);
            let described = members.contains_key("name"@) && members.contains_key("description"@)
                && members.contains_key("inputSchema"@) && members["name"@] is Text
                && members["description"@] is Text;
            &&& described ==> tools == seq![
                ToolView {
                    name: members["name"@]->Text_0,
                    description: members["description"@]->Text_0,
                    input_schema: members["inputSchema"@],
                },
            ]
            &&& !described ==> tools == Seq::<ToolView>::empty()
        }),
{
    lemma_tools_of_one(JsonView::Object(members));
}

/// An array of a text, a text and a schema is a tool with exactly these three; no other array is
/// one.
pub proof fn law_tool_of_array(items: Seq<JsonView>)
    ensures
        ({
            let tools = tools_of(seq![JsonView::Array(items)]);
            let described = items.len() == 3 && items[0] is Text && items[1] is Text;
            &&& described ==> tools == seq![
                ToolView {
                    name: items[0]->Text_0,
                    description: items[1]->Text_0,
                    input_schema: items[2],
                },
            ]
            &&& !described ==> tools == Seq::<ToolView>::empty()
        }),
{
    lemma_tools_of_one(JsonView::Array(items));
}

/// What is neither an object nor an array is no tool.
pub proof fn law_no_tool_of_scalar(item: JsonView)
    requires
        !(item is Object),
        !(item is Array),
    ensures
        tools_of(seq![item]) == Seq::<ToolView>::empty(),
{
    lemma_tools_of_one(item);
}

/// Every item is looked at by itself: the tools of two lists, one after the other, are those of the
/// first and then those of the second.
pub proof fn law_tools_of_lists(front: Seq<JsonView>, back: Seq<JsonView>)
    ensures
        tools_of(front + back) == tools_of(front) + tools_of(back),
    decreases back.len(),
{
    let describe = |item: JsonView| tool_of(item);
    if back.len() == 0 {
        assert(front + back =~= front);
        assert(tools_of(front) + tools_of(back) =~= tools_of(front));
    } else {
        law_tools_of_lists(front, back.drop_last());
        assert((front + back).drop_last() =~= front + back.drop_last());
        assert((front + back).last() == back.last());
        assert(tools_of(front + back) =~= tools_of(front) + tools_of(back));
    }
}

/// A list of one item has that item's tool, if it is one.
proof fn lemma_tools_of_one(item: JsonView)
    ensures
        tools_of(seq![item]) == (match tool_of(item) {
            Some(tool) => seq![tool],
            None => Seq::<ToolView>::empty(),
        }),
{
    let describe = |json: JsonView| tool_of(json);
    reveal_with_fuel(Seq::filter_map, 2);
    assert(seq![item].drop_last() =~= Seq::empty());
    assert(seq![item].last() == item);
    assert(Seq::<JsonView>::empty().filter_map(describe) =~= Seq::<ToolView>::empty());
    assert(tools_of(seq![item]) =~= (match tool_of(item) {
        Some(tool) => seq![tool],
        None => Seq::<ToolView>::empty(),
    }));
}

/// A tool in memory stands for what it holds.
pub proof fn law_tools_view(tools: Seq<ToolInfo>)
    ensures
        tools_view(tools).len() == tools.len(),
        forall|i: int|
            0 <= i < tools.len() ==> {
                &&& (#[trigger] tools_view(tools)[i]).name == tools[i].name@
                &&& tools_view(tools)[i].description == tools[i].description@
                &&& tools_view(tools)[i].input_schema == tools[i].input_schema@
            },
{
}

/// A document is taken for a tool exactly where it is an object with a text `name`, a text
/// `description` and an `inputSchema`, or an array of just these, and then for that tool, whatever
/// the schema holds.
pub proof fn law_taking_a_tool(json: Json, tool: Option<ToolInfo>)
    requires
        call_ensures(ToolInfo::from_json, (json,), tool),
    ensures
        match json@ {
            JsonView::Object(members) => {
                let described = members.contains_key("name"@) && members.contains_key(
                    "description"@,
                ) && members.contains_key("inputSchema"@) && members["name"@] is Text
                    && members["description"@] is Text;
                &&& tool is Some <==> described
                &&& tool matches Some(t) ==> JsonView::Text(t.name@) == members["name"@]
                    && JsonView::Text(t.description@) == members["description"@]
                    && t.input_schema@ == members["inputSchema"@]
            },
            JsonView::Array(items) => {
                &&& tool is Some <==> items.len() == 3 && items[0] is Text && items[1] is Text
                &&& tool matches Some(t) ==> JsonView::Text(t.name@) == items[0] && JsonView::Text(
                    t.description@,
                ) == items[1] && t.input_schema@ == items[2]
            },
            _ => tool is None,
        },
{
}

} // verus!
