//! What the window asks of the background worker, and how the worker answers.
//!
//! The worker takes a request, does the work that [`Req::work`] names, and turns what came of it
//! into the answer with [`handle`].

use crate::approve::{approval, approve_command, do_approve, Command, RunOutput};
use crate::json::{Json, JsonView};
use crate::order::newest_first;
use crate::records::{
    do_read_audit, do_read_pending, newest_shown, pendings_in, understood, AuditEntry, Fetched,
    PendingEntry, PendingFile,
};
use crate::rpc::{
    bytes_outcome, call_result, call_tool_body, call_tool_request, do_call_tool, do_healthz,
    do_list_tools, endpoint, healthz_request, json_outcome, list_tools_body, list_tools_request,
    listed_tools, reply_document, rpc_post, text_outcome, tools_outcome, HttpGet, HttpPost,
};
use crate::text::{decimal, strings_view};
use crate::tools::{ToolInfo, ToolView};
use vstd::prelude::*;

verus! {

/// A request to the worker.
#[derive(Debug, PartialEq, Eq)]
pub enum Req {
    Healthz { url: String },
    ListTools { url: String, token: String },
    CallTool { url: String, token: String, tool: String, args: Json },
    ReloadAudit { path: String, limit: usize },
    ReloadPending { dir: String },
    Approve { op_id: String, ttl_secs: u64 },
}

/// A request as a mathematical value.
pub enum ReqView {
    Healthz { url: Seq<char> },
    ListTools { url: Seq<char>, token: Seq<char> },
    CallTool { url: Seq<char>, token: Seq<char>, tool: Seq<char>, args: JsonView },
    ReloadAudit { path: Seq<char>, limit: nat },
    ReloadPending { dir: Seq<char> },
    Approve { op_id: Seq<char>, ttl_secs: nat },
}

impl View for Req {
    type V = ReqView;

    open spec fn view(&self) -> ReqView {
        match *self {
            Req::Healthz { url } => ReqView::Healthz { url: url@ },
            Req::ListTools { url, token } => ReqView::ListTools { url: url@, token: token@ },
            Req::CallTool { url, token, tool, args } => ReqView::CallTool {
                url: url@,
                token: token@,
                tool: tool@,
                args: args@,
            },
            Req::ReloadAudit { path, limit } => ReqView::ReloadAudit {
                path: path@,
                limit: limit as nat,
            },
            Req::ReloadPending { dir } => ReqView::ReloadPending { dir: dir@ },
            Req::Approve { op_id, ttl_secs } => ReqView::Approve {
                op_id: op_id@,
                ttl_secs: ttl_secs as nat,
            },
        }
    }
}

/// An answer of the worker.
#[derive(Debug, PartialEq, Eq)]
pub enum Resp {
    Healthz(Result<String, String>),
    Tools(Result<Vec<ToolInfo>, String>),
    CallResult { tool: String, result: Result<Json, String> },
    Audit(Result<Vec<AuditEntry>, String>),
    Pending(Result<Vec<PendingEntry>, String>),
    ApproveResult(Result<String, String>),
}

/// An answer as a mathematical value.
pub enum RespView {
    Healthz(Result<Seq<char>, Seq<char>>),
    Tools(Result<Seq<ToolView>, Seq<char>>),
    CallResult { tool: Seq<char>, result: Result<JsonView, Seq<char>> },
    Audit(Result<Seq<AuditEntry>, Seq<char>>),
    Pending(Result<Seq<PendingEntry>, Seq<char>>),
    ApproveResult(Result<Seq<char>, Seq<char>>),
}

/// What a list or the text of an error stands for.
pub open spec fn list_outcome<E>(outcome: Result<Vec<E>, String>) -> Result<Seq<E>, Seq<char>> {
    match outcome {
        Ok(list) => Ok(list@),
        Err(text) => Err(text@),
    }
}

impl View for Resp {
    type V = RespView;

    open spec fn view(&self) -> RespView {
        match *self {
            Resp::Healthz(outcome) => RespView::Healthz(text_outcome(outcome)),
            Resp::Tools(outcome) => RespView::Tools(tools_outcome(outcome)),
            Resp::CallResult { tool, result } => RespView::CallResult {
                tool: tool@,
                result: json_outcome(result),
            },
            Resp::Audit(outcome) => RespView::Audit(list_outcome(outcome)),
            Resp::Pending(outcome) => RespView::Pending(list_outcome(outcome)),
            Resp::ApproveResult(outcome) => RespView::ApproveResult(text_outcome(outcome)),
        }
    }
}

/// Work to be done outside.
#[derive(Debug, PartialEq, Eq)]
pub enum Work {
    Healthz { get: HttpGet },
    ListTools { post: HttpPost },
    CallTool { tool: String, post: HttpPost },
    ReadAudit { path: String, limit: usize },
    ReadPending { dir: String },
    Approve { command: Command },
}

/// What came of the work.
#[derive(Debug, PartialEq, Eq)]
pub enum Done {
    /// The body of the reply, if it could be read.
    Healthz { body: Result<Option<String>, String> },
    ListTools { reply: Result<Vec<u8>, String> },
    CallTool { tool: String, reply: Result<Vec<u8>, String> },
    /// The lines of the log, and how many entries are wanted.
    ReadAudit { log: Fetched<Vec<Option<AuditEntry>>>, limit: usize },
    ReadPending { directory: Fetched<Vec<Option<PendingFile>>> },
    Approve { run: Result<RunOutput, String> },
}

/// `work` is what `req` calls for.
pub open spec fn is_work_of(work: Work, req: ReqView) -> bool {
    match req {
        ReqView::Healthz { url } => work matches Work::Healthz { get } && get.url@ == endpoint(
            url,
            "/healthz"@,
        ) && get.timeout_secs == 2,
        ReqView::ListTools { url, token } => work matches Work::ListTools { post } && post@
            == rpc_post(url, token, 5, list_tools_body()),
        ReqView::CallTool { url, token, tool, args } => work matches Work::CallTool { tool: t, post }
            && t@ == tool && post@ == rpc_post(url, token, 30, call_tool_body(tool, args)),
        ReqView::ReloadAudit { path, limit } => work matches Work::ReadAudit { path: p, limit: l }
            && p@ == path && l == limit,
        ReqView::ReloadPending { dir } => work matches Work::ReadPending { dir: d } && d@ == dir,
        ReqView::Approve { op_id, ttl_secs } => work matches Work::Approve { command }
            && command.program@ == "gfb"@ && strings_view(command.args@) == seq![
            "approve"@,
            "--operation-id"@,
            op_id,
        ] && command.env_name@ == "GFB_APPROVE_TTL_SECS"@ && command.env_value@ == decimal(
            ttl_secs,
        ),
    }
}

impl Req {
    /// The work that this request calls for.
    pub fn work(self) -> (work: Work)
        ensures
            is_work_of(work, self@),
    {
        match self {
            Req::Healthz { url } => Work::Healthz { get: healthz_request(url.as_str()) },
            Req::ListTools { url, token } => Work::ListTools {
                post: list_tools_request(url.as_str(), token.as_str()),
            },
            Req::CallTool { url, token, tool, args } => {
                let post = call_tool_request(url.as_str(), token.as_str(), tool.as_str(), args);
                Work::CallTool { tool, post }
            },
            Req::ReloadAudit { path, limit } => Work::ReadAudit { path, limit },
            Req::ReloadPending { dir } => Work::ReadPending { dir },
            Req::Approve { op_id, ttl_secs } => Work::Approve {
                command: approve_command(op_id.as_str(), ttl_secs),
            },
        }
    }
}

/// `resp` is what follows from `done`.
pub open spec fn is_answer_to(resp: RespView, done: Done) -> bool {
    match done {
        Done::Healthz { body } => resp == RespView::Healthz(
            match body {
                Ok(Some(text)) => Ok(text@),
                Ok(None) => Ok(Seq::empty()),
                Err(text) => Err(text@),
            },
        ),
        Done::ListTools { reply } => resp == RespView::Tools(
            match reply_document(bytes_outcome(reply)) {
                Ok(json) => listed_tools(json),
                Err(text) => Err(text),
            },
        ),
        Done::CallTool { tool, reply } => resp == (RespView::CallResult {
            tool: tool@,
            result: match reply_document(bytes_outcome(reply)) {
                Ok(json) => call_result(json),
                Err(text) => Err(text),
            },
        }),
        Done::ReadAudit { log, limit } => match log {
            Fetched::Missing => resp == RespView::Audit(Ok(Seq::empty())),
            Fetched::Failed(text) => resp == RespView::Audit(Err(text@)),
            Fetched::Found(parsed) => resp matches RespView::Audit(Ok(shown)) && newest_shown(
                shown,
                understood(parsed@),
                limit as nat,
            ),
        },
        Done::ReadPending { directory } => match directory {
            Fetched::Missing => resp == RespView::Pending(Ok(Seq::empty())),
            Fetched::Failed(text) => resp == RespView::Pending(Err(text@)),
            Fetched::Found(files) => resp matches RespView::Pending(Ok(shown)) && newest_first(
                shown,
                pendings_in(files@),
            ),
        },
        Done::Approve { run } => resp == RespView::ApproveResult(approval(run)),
    }
}

/// The answer that follows from what came of the work.
pub fn handle(done: Done) -> (resp: Resp)
    ensures
        is_answer_to(resp@, done),
{
    match done {
        Done::Healthz { body } => Resp::Healthz(do_healthz(body)),
        Done::ListTools { reply } => Resp::Tools(do_list_tools(reply)),
        Done::CallTool { tool, reply } => Resp::CallResult { tool, result: do_call_tool(reply) },
        Done::ReadAudit { log, limit } => Resp::Audit(do_read_audit(log, limit)),
        Done::ReadPending { directory } => Resp::Pending(do_read_pending(directory)),
        Done::Approve { run } => Resp::ApproveResult(do_approve(run)),
    }
}

/// `done` reports on `work`: it is of the same kind, and carries over what the answer needs.
pub open spec fn reports_on(done: Done, work: Work) -> bool {
    match work {
        Work::Healthz { get } => done is Healthz,
        Work::ListTools { post } => done is ListTools,
        Work::CallTool { tool, post } => done matches Done::CallTool { tool: t, reply } && t@
            == tool@,
        Work::ReadAudit { path, limit } => done matches Done::ReadAudit { log, limit: l } && l
            == limit,
        Work::ReadPending { dir } => done is ReadPending,
        Work::Approve { command } => done is Approve,
    }
}

/// Every request is answered in kind: a check of the server by its state, a list by the tools, a
/// call by the result for the same tool, a reload by what was to be reloaded, with no more audit
/// entries than were asked for, and an approval by whether it was granted.
pub proof fn law_answer_fits_request(req: ReqView, work: Work, done: Done, resp: RespView)
    requires
        is_work_of(work, req),
        reports_on(done, work),
        is_answer_to(resp, done),
    ensures
        match req {
            ReqView::Healthz { url } => resp is Healthz,
            ReqView::ListTools { url, token } => resp is Tools,
            ReqView::CallTool { url, token, tool, args } => resp matches RespView::CallResult {
                tool: t,
                result,
            } && t == tool,
            ReqView::ReloadAudit { path, limit } => resp matches RespView::Audit(outcome) && (
            outcome matches Ok(shown) ==> shown.len() <= limit),
            ReqView::ReloadPending { dir } => resp is Pending,
            ReqView::Approve { op_id, ttl_secs } => resp is ApproveResult,
        },
{
    match done {
        Done::ReadAudit { log, limit } => match log {
            Fetched::Found(parsed) => {
                let shown = resp->Audit_0->Ok_0;
                crate::records::law_shown_len(shown, understood(parsed@), limit as nat);
            },
            _ => {},
        },
        _ => {},
    }
}

/// What each request calls for: one address asked, one call sent, one file or directory read, one
/// program run, with what the request names and nothing else.
pub proof fn law_work_of_request(work: Work, req: ReqView)
    requires
        is_work_of(work, req),
    ensures
        match req {
            ReqView::Healthz { url } => work matches Work::Healthz { get } && get.url@ == endpoint(
                url,
                "/healthz"@,
            ) && get.timeout_secs == 2,
            ReqView::ListTools { url, token } => work matches Work::ListTools { post } && {
                &&& post.url@ == endpoint(url, "/rpc"@)
                &&& post.authorization@ == "Bearer "@ + token
                &&& post.content_type@ == "application/json"@
                &&& post.timeout_secs == 5
                &&& post.body@ == crate::json_text::compact_text(list_tools_body())
            },
            ReqView::CallTool { url, token, tool, args } => work matches Work::CallTool {
                tool: named,
                post,
            } && {
                &&& named@ == tool
                &&& post.url@ == endpoint(url, "/rpc"@)
                &&& post.authorization@ == "Bearer "@ + token
                &&& post.content_type@ == "application/json"@
                &&& post.timeout_secs == 30
                &&& post.body@ == crate::json_text::compact_text(call_tool_body(tool, args))
            },
            ReqView::ReloadAudit { path, limit } => work matches Work::ReadAudit {
                path: p,
                limit: l,
            } && p@ == path && l == limit,
            ReqView::ReloadPending { dir } => work matches Work::ReadPending { dir: d } && d@ == dir,
            ReqView::Approve { op_id, ttl_secs } => work matches Work::Approve { command } && {
                &&& command.program@ == "gfb"@
                &&& command.args@.len() == 3
                &&& command.args@[0]@ == "approve"@
                &&& command.args@[1]@ == "--operation-id"@
                &&& command.args@[2]@ == op_id
                &&& command.env_name@ == "GFB_APPROVE_TTL_SECS"@
                &&& crate::text::digits_value(command.env_value@) == ttl_secs
                &&& command.env_value@.len() > 1 ==> command.env_value@[0] != '0'
            },
        },
{
    match (req, work) {
        (ReqView::Approve { op_id, ttl_secs }, Work::Approve { command }) => {
            crate::text::law_decimal_stands_for_its_number(ttl_secs);
            let args = strings_view(command.args@);
            assert(args.len() == command.args@.len());
            assert(args[0] == command.args@[0]@);
            assert(args[1] == command.args@[1]@);
            assert(args[2] == command.args@[2]@);
        },
        _ => {},
    }
}

/// What was found out is answered as it is: a body, the tools or the result of a reply, the entries
/// of a log or a directory, or why there are none.
pub proof fn law_answer_tells_what_was_found(resp: RespView, done: Done)
    requires
        is_answer_to(resp, done),
    ensures
        match done {
            Done::Healthz { body } => resp matches RespView::Healthz(outcome) && match body {
                Ok(Some(text)) => outcome == Ok::<Seq<char>, Seq<char>>(text@),
                Ok(None) => outcome == Ok::<Seq<char>, Seq<char>>(Seq::empty()),
                Err(text) => outcome == Err::<Seq<char>, Seq<char>>(text@),
            },
            Done::ListTools { reply } => resp matches RespView::Tools(outcome) && match reply {
                Ok(bytes) => match crate::json_text::read_document(bytes@) {
                    Ok(json) => outcome == listed_tools(json),
                    Err(why) => outcome matches Err(text) && text == "Failed to read JSON: "@ + why,
                },
                Err(why) => outcome == Err::<Seq<ToolView>, Seq<char>>(why@),
            },
            Done::CallTool { tool, reply } => resp matches RespView::CallResult {
                tool: named,
                result,
            } && named == tool@ && match reply {
                Ok(bytes) => match crate::json_text::read_document(bytes@) {
                    Ok(json) => result == call_result(json),
                    Err(why) => result matches Err(text) && text == "Failed to read JSON: "@ + why,
                },
                Err(why) => result == Err::<JsonView, Seq<char>>(why@),
            },
            Done::ReadAudit { log, limit } => resp matches RespView::Audit(outcome) && match log {
                Fetched::Missing => outcome == Ok::<Seq<AuditEntry>, Seq<char>>(Seq::empty()),
                Fetched::Failed(text) => outcome == Err::<Seq<AuditEntry>, Seq<char>>(text@),
                Fetched::Found(parsed) => outcome matches Ok(shown) && newest_shown(
                    shown,
                    understood(parsed@),
                    limit as nat,
                ),
            },
            Done::ReadPending { directory } => resp matches RespView::Pending(outcome)
                && match directory {
                Fetched::Missing => outcome == Ok::<Seq<PendingEntry>, Seq<char>>(Seq::empty()),
                Fetched::Failed(text) => outcome == Err::<Seq<PendingEntry>, Seq<char>>(text@),
                Fetched::Found(files) => outcome matches Ok(shown) && newest_first(
                    shown,
                    pendings_in(files@),
                ),
            },
            Done::Approve { run } => resp matches RespView::ApproveResult(outcome) && match run {
                Ok(output) => (output.success ==> outcome == Ok::<Seq<char>, Seq<char>>(
                    crate::approve::lossy_text(output.stdout@),
                )) && (!output.success ==> outcome == Err::<Seq<char>, Seq<char>>(
                    crate::approve::lossy_text(output.stderr@),
                )),
                Err(why) => outcome matches Err(text) && text == "failed to run `gfb approve`: "@
                    + why@,
            },
        },
{
}

/// Requests and answers stand for what they hold.
pub proof fn law_messages_hide_nothing(req: Req, resp: Resp)
    ensures
        match req {
            Req::Healthz { url } => req@ == (ReqView::Healthz { url: url@ }),
            Req::ListTools { url, token } => req@ == (ReqView::ListTools {
                url: url@,
                token: token@,
            }),
            Req::CallTool { url, token, tool, args } => req@ == (ReqView::CallTool {
                url: url@,
                token: token@,
                tool: tool@,
                args: args@,
            }),
            Req::ReloadAudit { path, limit } => req@ == (ReqView::ReloadAudit {
                path: path@,
                limit: limit as nat,
            }),
            Req::ReloadPending { dir } => req@ == (ReqView::ReloadPending { dir: dir@ }),
            Req::Approve { op_id, ttl_secs } => req@ == (ReqView::Approve {
                op_id: op_id@,
                ttl_secs: ttl_secs as nat,
            }),
        },
        match resp {
            Resp::Healthz(Ok(text)) => resp@ == RespView::Healthz(Ok(text@)),
            Resp::Healthz(Err(text)) => resp@ == RespView::Healthz(Err(text@)),
            Resp::Tools(Ok(tools)) => resp@ == RespView::Tools(
                Ok(tools@.map_values(|tool: ToolInfo| tool@)),
            ),
            Resp::Tools(Err(text)) => resp@ == RespView::Tools(Err(text@)),
            Resp::CallResult { tool, result: Ok(json) } => resp@ == (RespView::CallResult {
                tool: tool@,
                result: Ok(json@),
            }),
            Resp::CallResult { tool, result: Err(text) } => resp@ == (RespView::CallResult {
                tool: tool@,
                result: Err(text@),
            }),
            Resp::Audit(Ok(entries)) => resp@ == RespView::Audit(Ok(entries@)),
            Resp::Audit(Err(text)) => resp@ == RespView::Audit(Err(text@)),
            Resp::Pending(Ok(entries)) => resp@ == RespView::Pending(Ok(entries@)),
            Resp::Pending(Err(text)) => resp@ == RespView::Pending(Err(text@)),
            Resp::ApproveResult(Ok(text)) => resp@ == RespView::ApproveResult(Ok(text@)),
            Resp::ApproveResult(Err(text)) => resp@ == RespView::ApproveResult(Err(text@)),
        },
{
    if let Resp::Tools(Ok(tools)) = resp {
        assert(crate::tools::tools_view(tools@) =~= tools@.map_values(|tool: ToolInfo| tool@));
    }
}

/// The worker does what a request calls for, and tells what came of it.
pub proof fn law_working(req: Req, work: Work, done: Done, resp: Resp)
    requires
        call_ensures(Req::work, (req,), work),
        call_ensures(handle, (done,), resp),
    ensures
        is_work_of(work, req@),
        is_answer_to(resp@, done),
{
}

} // verus!
