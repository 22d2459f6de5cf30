//! The state of the window, and how answers and clicks change it.

use crate::json::{by_name, member, members_view, Json, JsonView};
use crate::json_text::{parse_document, pretty_or_empty, pretty_text};
use crate::paths::{
    bearer_token, default_audit_path, default_bearer_token, default_pending_dir, path_in_home,
};
use crate::records::{option_view, AuditEntry, PendingEntry};
use crate::text::{trim, trimmed};
use crate::tools::{tools_view, ToolInfo, ToolView};
use crate::worker::{Req, ReqView, Resp, RespView};
use vstd::prelude::*;

verus! {

/// The fewest entries of the audit log that can be asked for.
pub const MIN_AUDIT_LIMIT: usize = 10;

/// The most entries of the audit log that can be asked for.
pub const MAX_AUDIT_LIMIT: usize = 500;

/// `entries`, or the nearest number of entries that can be asked for.
pub open spec fn clamped(entries: nat) -> nat {
    if entries < MIN_AUDIT_LIMIT {
        MIN_AUDIT_LIMIT as nat
    } else if entries > MAX_AUDIT_LIMIT {
        MAX_AUDIT_LIMIT as nat
    } else {
        entries
    }
}

/// How many entries of the audit log are asked for: never fewer than `MIN_AUDIT_LIMIT`, nor more
/// than `MAX_AUDIT_LIMIT`.
#[derive(Clone, Copy, Debug, PartialEq, Eq)]
pub struct AuditLimit {
    entries: usize,
}

impl View for AuditLimit {
    type V = nat;

    closed spec fn view(&self) -> nat {
        self.entries as nat
    }
}

impl AuditLimit {
    #[verifier::type_invariant]
    spec fn in_range(self) -> bool {
        MIN_AUDIT_LIMIT <= self.entries <= MAX_AUDIT_LIMIT
    }

    /// A limit of `entries`, or the nearest one that there is.
    pub fn new(entries: usize) -> (limit: AuditLimit)
        ensures
            limit@ == clamped(entries as nat),
    {
        if entries < MIN_AUDIT_LIMIT {
            AuditLimit { entries: MIN_AUDIT_LIMIT }
        } else if entries > MAX_AUDIT_LIMIT {
            AuditLimit { entries: MAX_AUDIT_LIMIT }
        } else {
            AuditLimit { entries }
        }
    }

    /// The number of entries.
    pub fn entries(&self) -> (entries: usize)
        ensures
            entries == self@,
            MIN_AUDIT_LIMIT <= entries <= MAX_AUDIT_LIMIT,
    {
        proof {
            use_type_invariant(self);
        }
        self.entries
    }
}

/// The state of the window.
///
/// Times are in nanoseconds, by a clock that never runs backwards.
pub struct App {
    pub url: String,
    pub token: String,
    pub health: String,
    /// When the server was last heard of.
    pub last_health: Option<u128>,
    /// When the window last asked for the state of the server of its own accord.
    pub last_poll: Option<u128>,
    pub tools: Vec<ToolInfo>,
    pub tools_err: Option<String>,
    pub selected_tool: Option<String>,
    pub args_json: String,
    pub call_status: Option<String>,
    pub call_response: Option<String>,
    pub audit_path: String,
    pub audit: Vec<AuditEntry>,
    pub audit_err: Option<String>,
    pub audit_limit: AuditLimit,
    /// When the window last asked for the audit log of its own accord.
    pub last_audit_poll: Option<u128>,
    pub pending_dir: String,
    pub pending: Vec<PendingEntry>,
    pub pending_err: Option<String>,
    pub approve_status: Option<String>,
    pub selected_audit: Option<usize>,
}

/// The state of the window as a mathematical value.
pub struct AppView {
    pub url: Seq<char>,
    pub token: Seq<char>,
    pub health: Seq<char>,
    pub last_health: Option<nat>,
    pub last_poll: Option<nat>,
    pub tools: Seq<ToolView>,
    pub tools_err: Option<Seq<char>>,
    pub selected_tool: Option<Seq<char>>,
    pub args_json: Seq<char>,
    pub call_status: Option<Seq<char>>,
    pub call_response: Option<Seq<char>>,
    pub audit_path: Seq<char>,
    pub audit: Seq<AuditEntry>,
    pub audit_err: Option<Seq<char>>,
    pub audit_limit: nat,
    pub last_audit_poll: Option<nat>,
    pub pending_dir: Seq<char>,
    pub pending: Seq<PendingEntry>,
    pub pending_err: Option<Seq<char>>,
    pub approve_status: Option<Seq<char>>,
    pub selected_audit: Option<nat>,
}

/// What an optional time stands for.
pub open spec fn time_option_view(time: Option<u128>) -> Option<nat> {
    match time {
        Some(t) => Some(t as nat),
        None => None,
    }
}

impl View for App {
    type V = AppView;

    open spec fn view(&self) -> AppView {
        AppView {
            url: self.url@,
            token: self.token@,
            health: self.health@,
            last_health: time_option_view(self.last_health),
            last_poll: time_option_view(self.last_poll),
            tools: tools_view(self.tools@),
            tools_err: option_view(self.tools_err),
            selected_tool: option_view(self.selected_tool),
            args_json: self.args_json@,
            call_status: option_view(self.call_status),
            call_response: option_view(self.call_response),
            audit_path: self.audit_path@,
            audit: self.audit@,
            audit_err: option_view(self.audit_err),
            audit_limit: self.audit_limit@,
            last_audit_poll: time_option_view(self.last_audit_poll),
            pending_dir: self.pending_dir@,
            pending: self.pending@,
            pending_err: option_view(self.pending_err),
            approve_status: option_view(self.approve_status),
            selected_audit: match self.selected_audit {
                Some(i) => Some(i as nat),
                None => None,
            },
        }
    }
}

/// What `reqs` stand for, one by one.
pub open spec fn reqs_view(reqs: Seq<Req>) -> Seq<ReqView> {
    reqs.map_values(|req: Req| req@)
}

/// What an optional request stands for.
pub open spec fn req_option_view(req: Option<Req>) -> Option<ReqView> {
    match req {
        Some(r) => Some(r@),
        None => None,
    }
}

/// The state in which the window opens at the time `now`. What it asks for first counts as asked
/// of its own accord.
pub open spec fn opening_state(
    token_file: Option<Seq<char>>,
    home: Option<Seq<char>>,
    now: nat,
) -> AppView {
    AppView {
        url: "http://127.0.0.1:18765"@,
        token: bearer_token(token_file),
        health: "(not checked yet)"@,
        last_health: None,
        last_poll: Some(now),
        tools: Seq::empty(),
        tools_err: None,
        selected_tool: None,
        args_json: "{\"path\":\"/tmp/x.txt\"}"@,
        call_status: None,
        call_response: None,
        audit_path: path_in_home(home, ".gfb/audit.log"@),
        audit: Seq::empty(),
        audit_err: None,
        audit_limit: 100,
        last_audit_poll: Some(now),
        pending_dir: path_in_home(home, ".gfb/pending"@),
        pending: Seq::empty(),
        pending_err: None,
        approve_status: None,
        selected_audit: None,
    }
}

/// Asks for the state of the server.
pub open spec fn healthz_req(state: AppView) -> ReqView {
    ReqView::Healthz { url: state.url }
}

/// Asks for the list of tools.
pub open spec fn list_tools_req(state: AppView) -> ReqView {
    ReqView::ListTools { url: state.url, token: state.token }
}

/// Asks for the audit log.
pub open spec fn audit_req(state: AppView) -> ReqView {
    ReqView::ReloadAudit { path: state.audit_path, limit: state.audit_limit }
}

/// Asks for the pending approvals.
pub open spec fn pending_req(state: AppView) -> ReqView {
    ReqView::ReloadPending { dir: state.pending_dir }
}

/// Asks for a call of the selected tool, if one is selected, with `args`, or with no arguments
/// where they made no sense.
pub open spec fn call_req(state: AppView, args: Option<JsonView>) -> Option<ReqView> {
    match state.selected_tool {
        Some(tool) => Some(
            ReqView::CallTool {
                url: state.url,
                token: state.token,
                tool,
                args: match args {
                    Some(json) => json,
                    None => JsonView::Object(Map::empty()),
                },
            },
        ),
        None => None,
    }
}

/// How long the state of the server is taken to hold, in nanoseconds: five seconds.
pub const HEALTH_NANOS: u128 = 5_000_000_000;

/// How long the audit log is taken to hold, in nanoseconds: three seconds.
pub const AUDIT_NANOS: u128 = 3_000_000_000;

/// How long an approval holds, in seconds.
pub const APPROVE_TTL_SECS: u64 = 300;

/// At the time `now`, something last happened more than `span` ago, or never.
pub open spec fn is_past(last: Option<nat>, span: nat, now: nat) -> bool {
    match last {
        Some(t) => now > t + span,
        None => true,
    }
}

/// What is known of the server is out of date: it was never heard of, or more than five seconds
/// ago.
pub open spec fn health_is_due(state: AppView, now: nat) -> bool {
    is_past(state.last_health, HEALTH_NANOS as nat, now)
}

/// The window is to ask for the state of the server of its own accord: what is known of it is out
/// of date, and it last did so more than five seconds ago.
pub open spec fn poll_is_due(state: AppView, now: nat) -> bool {
    health_is_due(state, now) && is_past(state.last_poll, HEALTH_NANOS as nat, now)
}

/// The window is to ask for the audit log of its own accord: it last did so more than three
/// seconds ago.
pub open spec fn audit_poll_is_due(state: AppView, now: nat) -> bool {
    is_past(state.last_audit_poll, AUDIT_NANOS as nat, now)
}

/// The state after the window has asked for the state of the server, if that was due.
pub open spec fn after_poll(state: AppView, now: nat) -> AppView {
    if poll_is_due(state, now) {
        AppView { last_poll: Some(now), ..state }
    } else {
        state
    }
}

/// What the window asks of the server, if that is due.
pub open spec fn poll_req(state: AppView, now: nat) -> Option<ReqView> {
    if poll_is_due(state, now) {
        Some(healthz_req(state))
    } else {
        None
    }
}

/// The state after the window has asked for the audit log, if that was due.
pub open spec fn after_audit_poll(state: AppView, now: nat) -> AppView {
    if audit_poll_is_due(state, now) {
        AppView { last_audit_poll: Some(now), ..state }
    } else {
        state
    }
}

/// How the window asks for the audit log, if that is due.
pub open spec fn audit_poll_req(state: AppView, now: nat) -> Option<ReqView> {
    if audit_poll_is_due(state, now) {
        Some(audit_req(state))
    } else {
        None
    }
}

/// Whether something last happened more than `span` ago, or never.
fn past(last: Option<u128>, span: u128, now: u128) -> (answer: bool)
    ensures
        answer == is_past(time_option_view(last), span as nat, now as nat),
{
    match last {
        Some(t) => now > t && now - t > span,
        None => true,
    }
}

/// How an outcome is reported: a check mark and the text without white space around it, or a cross
/// and the text of the error.
pub open spec fn mark(outcome: Result<Seq<char>, Seq<char>>) -> Seq<char> {
    match outcome {
        Ok(text) => "✓ "@ + trimmed(text),
        Err(text) => "✗ "@ + text,
    }
}

/// The state after the answer `resp` has come in at the time `now`.
pub open spec fn after_response(state: AppView, resp: RespView, now: nat) -> AppView {
    match resp {
        RespView::Healthz(outcome) => AppView {
            health: mark(outcome),
            last_health: Some(now),
            ..state
        },
        RespView::Tools(Ok(tools)) => AppView {
            tools,
            tools_err: None,
            selected_tool: if state.selected_tool is None && tools.len() > 0 {
                Some(tools[0].name)
            } else {
                state.selected_tool
            },
            ..state
        },
        RespView::Tools(Err(text)) => AppView { tools_err: Some(text), ..state },
        RespView::CallResult { tool, result: Ok(json) } => AppView {
            call_status: Some("ok: "@ + tool),
            call_response: Some(pretty_or_empty(json)),
            ..state
        },
        RespView::CallResult { tool, result: Err(text) } => AppView {
            call_status: Some("err: "@ + tool),
            call_response: Some(text),
            ..state
        },
        RespView::Audit(Ok(audit)) => AppView { audit, audit_err: None, ..state },
        RespView::Audit(Err(text)) => AppView { audit_err: Some(text), ..state },
        RespView::Pending(Ok(pending)) => AppView { pending, pending_err: None, ..state },
        RespView::Pending(Err(text)) => AppView { pending_err: Some(text), ..state },
        RespView::ApproveResult(outcome) => AppView {
            approve_status: Some(mark(outcome)),
            ..state
        },
    }
}

/// What is asked for in turn: after an approval, the pending approvals.
pub open spec fn follow_up(state: AppView, resp: RespView) -> Option<ReqView> {
    match resp {
        RespView::ApproveResult(_) => Some(pending_req(state)),
        _ => None,
    }
}

/// The state after all of `arrived` has come in, one answer after the other, each with its time.
pub open spec fn after_responses(state: AppView, arrived: Seq<(RespView, nat)>) -> AppView
    decreases arrived.len(),
{
    if arrived.len() == 0 {
        state
    } else {
        after_response(
            after_responses(state, arrived.drop_last()),
            arrived.last().0,
            arrived.last().1,
        )
    }
}

/// What is asked for in turn while all of `arrived` comes in.
pub open spec fn follow_ups(state: AppView, arrived: Seq<(RespView, nat)>) -> Seq<ReqView>
    decreases arrived.len(),
{
    if arrived.len() == 0 {
        Seq::empty()
    } else {
        and_then_ask(
            follow_ups(state, arrived.drop_last()),
            follow_up(after_responses(state, arrived.drop_last()), arrived.last().0),
        )
    }
}

/// What `arrived` stands for, one by one.
pub open spec fn arrivals_view(arrived: Seq<(Resp, u128)>) -> Seq<(RespView, nat)> {
    arrived.map_values(|arrival: (Resp, u128)| (arrival.0@, arrival.1 as nat))
}

/// `reqs`, and `req` where there is one.
pub open spec fn and_then_ask(reqs: Seq<ReqView>, req: Option<ReqView>) -> Seq<ReqView> {
    match req {
        Some(r) => reqs.push(r),
        None => reqs,
    }
}

/// The state after a frame at the time `now`: all of `arrived` is taken in first, and what is then
/// due is asked for.
pub open spec fn after_frame(
    state: AppView,
    arrived: Seq<(RespView, nat)>,
    now: nat,
) -> AppView {
    after_audit_poll(after_poll(after_responses(state, arrived), now), now)
}

/// What a frame at the time `now` asks for: what the answers call for, then the state of the server
/// and the audit log, each where it is due.
pub open spec fn frame_reqs(
    state: AppView,
    arrived: Seq<(RespView, nat)>,
    now: nat,
) -> Seq<ReqView> {
    let drained = after_responses(state, arrived);
    and_then_ask(
        and_then_ask(follow_ups(state, arrived), poll_req(drained, now)),
        audit_poll_req(drained, now),
    )
}

/// Adds a request to a list, where there is one.
fn push_req(reqs: &mut Vec<Req>, req: Option<Req>)
    ensures
        reqs_view(final(reqs)@) == and_then_ask(reqs_view(old(reqs)@), req_option_view(req)),
{
    let ghost asked = reqs_view(reqs@);
    match req {
        Some(r) => {
            reqs.push(r);
            assert(reqs_view(reqs@) =~= asked.push(r@));
        },
        None => {},
    }
}

/// How an outcome is reported.
fn mark_text(outcome: Result<String, String>) -> (text: String)
    ensures
        text@ == mark(crate::rpc::text_outcome(outcome)),
{
    match outcome {
        Ok(body) => {
            let mut text = "✓ ".to_owned();
            text.append(trim(body.as_str()).as_str());
            text
        },
        Err(error) => {
            let mut text = "✗ ".to_owned();
            text.append(error.as_str());
            text
        },
    }
}

/// `front` followed by `back`.
fn joined(front: &str, back: &str) -> (text: String)
    ensures
        text@ == front@ + back@,
{
    let mut text = front.to_owned();
    text.append(back);
    text
}

/// The first of `tools` that is called `name`.
pub open spec fn first_named(tools: Seq<ToolView>, name: Seq<char>) -> Option<ToolView>
    decreases tools.len(),
{
    if tools.len() == 0 {
        None
    } else if tools.first().name == name {
        Some(tools.first())
    } else {
        first_named(tools.drop_first(), name)
    }
}

/// The selected tool, if it is among those that are loaded.
pub open spec fn tool_in_use(state: AppView) -> Option<ToolView> {
    match state.selected_tool {
        Some(name) => first_named(state.tools, name),
        None => None,
    }
}

/// The arguments that the schema of a tool suggests: its `properties`, or none.
pub open spec fn suggested_args(tool: ToolView) -> JsonView {
    match member(tool.input_schema, "properties"@) {
        Some(properties) => properties,
        None => JsonView::Object(Map::empty()),
    }
}

/// The entry of the audit log that is selected, if there is one in that row.
pub open spec fn entry_in_use(state: AppView) -> Option<AuditEntry> {
    match state.selected_audit {
        Some(i) => if i < state.audit.len() {
            Some(state.audit[i as int])
        } else {
            None
        },
        None => None,
    }
}

impl App {
    /// The window as it opens, and what it asks for first: the state of the server, the audit log
    /// and the pending approvals. `token_file` is what the token file holds, if there is one, and
    /// `now` is the time.
    pub fn new(token_file: Option<String>, home: Option<String>, now: u128) -> (opened: (
        App,
        Vec<Req>,
    ))
        ensures
            opened.0@ == opening_state(option_view(token_file), option_view(home), now as nat),
            reqs_view(opened.1@) == seq![
                healthz_req(opened.0@),
                audit_req(opened.0@),
                pending_req(opened.0@),
            ],
    {
        let app = App {
            url: "http://127.0.0.1:18765".to_owned(),
            token: default_bearer_token(&token_file),
            health: "(not checked yet)".to_owned(),
            last_health: None,
            last_poll: Some(now),
            tools: Vec::new(),
            tools_err: None,
            selected_tool: None,
            args_json: "{\"path\":\"/tmp/x.txt\"}".to_owned(),
            call_status: None,
            call_response: None,
            audit_path: default_audit_path(&home),
            audit: Vec::new(),
            audit_err: None,
            audit_limit: AuditLimit::new(100),
            last_audit_poll: Some(now),
            pending_dir: default_pending_dir(&home),
            pending: Vec::new(),
            pending_err: None,
            approve_status: None,
            selected_audit: None,
        };
        assert(app@.tools =~= Seq::empty());
        let mut reqs: Vec<Req> = Vec::new();
        reqs.push(app.dispatch_healthz());
        reqs.push(app.dispatch_audit());
        reqs.push(app.dispatch_pending());
        assert(reqs_view(reqs@) =~= seq![
            healthz_req(app@),
            audit_req(app@),
            pending_req(app@),
        ]);
        (app, reqs)
    }

    /// Asks for the state of the server.
    pub fn dispatch_healthz(&self) -> (req: Req)
        ensures
            req@ == healthz_req(self@),
    {
        Req::Healthz { url: self.url.clone() }
    }

    /// Asks for the list of tools.
    pub fn dispatch_list_tools(&self) -> (req: Req)
        ensures
            req@ == list_tools_req(self@),
    {
        Req::ListTools { url: self.url.clone(), token: self.token.clone() }
    }

    /// Asks for a call of the selected tool, if one is selected, with the arguments that were
    /// typed in, or with none where they are no JSON.
    pub fn dispatch_call(&self) -> (req: Option<Req>)
        ensures
            req_option_view(req) == call_req(self@, parse_document(self@.args_json)),
    {
        self.call_with(Json::parse(self.args_json.as_str()))
    }

    /// Asks for a call of the selected tool, if one is selected, with `args`, or with none where
    /// there are none.
    pub fn call_with(&self, args: Option<Json>) -> (req: Option<Req>)
        ensures
            req_option_view(req) == call_req(
                self@,
                match args {
                    Some(json) => Some(json@),
                    None => None,
                },
            ),
    {
        match &self.selected_tool {
            Some(tool) => {
                let args = match args {
                    Some(json) => json,
                    None => empty_object(),
                };
                Some(
                    Req::CallTool {
                        url: self.url.clone(),
                        token: self.token.clone(),
                        tool: tool.clone(),
                        args,
                    },
                )
            },
            None => None,
        }
    }

    /// Asks for the audit log. The limit is in its range in every state.
    pub fn dispatch_audit(&self) -> (req: Req)
        ensures
            req@ == audit_req(self@),
            MIN_AUDIT_LIMIT <= self@.audit_limit <= MAX_AUDIT_LIMIT,
    {
        Req::ReloadAudit { path: self.audit_path.clone(), limit: self.audit_limit.entries() }
    }

    /// Sets how many entries of the audit log are asked for, to `limit` or the nearest number that
    /// can be.
    pub fn set_audit_limit(&mut self, limit: usize)
        ensures
            final(self)@ == (AppView { audit_limit: clamped(limit as nat), ..old(self)@ }),
    {
        self.audit_limit = AuditLimit::new(limit);
    }

    /// Asks for the pending approvals.
    pub fn dispatch_pending(&self) -> (req: Req)
        ensures
            req@ == pending_req(self@),
    {
        Req::ReloadPending { dir: self.pending_dir.clone() }
    }

    /// Asks for everything anew.
    pub fn refresh_all(&self) -> (reqs: Vec<Req>)
        ensures
            reqs_view(reqs@) == seq![
                healthz_req(self@),
                list_tools_req(self@),
                audit_req(self@),
                pending_req(self@),
            ],
    {
        let mut reqs: Vec<Req> = Vec::new();
        reqs.push(self.dispatch_healthz());
        reqs.push(self.dispatch_list_tools());
        reqs.push(self.dispatch_audit());
        reqs.push(self.dispatch_pending());
        assert(reqs_view(reqs@) =~= seq![
            healthz_req(self@),
            list_tools_req(self@),
            audit_req(self@),
            pending_req(self@),
        ]);
        reqs
    }

    /// Asks for the state of the server, if that is due at the time `now`.
    pub fn poll(&mut self, now: u128) -> (req: Option<Req>)
        ensures
            final(self)@ == after_poll(old(self)@, now as nat),
            req_option_view(req) == poll_req(old(self)@, now as nat),
    {
        if past(self.last_health, HEALTH_NANOS, now) && past(self.last_poll, HEALTH_NANOS, now) {
            self.last_poll = Some(now);
            Some(self.dispatch_healthz())
        } else {
            None
        }
    }

    /// Asks for the audit log, if that is due at the time `now`.
    pub fn poll_audit(&mut self, now: u128) -> (req: Option<Req>)
        ensures
            final(self)@ == after_audit_poll(old(self)@, now as nat),
            req_option_view(req) == audit_poll_req(old(self)@, now as nat),
    {
        if past(self.last_audit_poll, AUDIT_NANOS, now) {
            self.last_audit_poll = Some(now);
            Some(self.dispatch_audit())
        } else {
            None
        }
    }

    /// Begins a frame at the time `now`: takes in all answers that have arrived, and asks for what
    /// follows and for what is then due.
    pub fn frame(&mut self, arrived: Vec<(Resp, u128)>, now: u128) -> (reqs: Vec<Req>)
        ensures
            final(self)@ == after_frame(old(self)@, arrivals_view(arrived@), now as nat),
            reqs_view(reqs@) == frame_reqs(old(self)@, arrivals_view(arrived@), now as nat),
    {
        let mut reqs = self.drain_responses(arrived);
        let health = self.poll(now);
        push_req(&mut reqs, health);
        let audit = self.poll_audit(now);
        push_req(&mut reqs, audit);
        reqs
    }

    /// Takes in all answers that have arrived, each with its time, and asks for what follows.
    pub fn drain_responses(&mut self, arrived: Vec<(Resp, u128)>) -> (reqs: Vec<Req>)
        ensures
            final(self)@ == after_responses(old(self)@, arrivals_view(arrived@)),
            reqs_view(reqs@) == follow_ups(old(self)@, arrivals_view(arrived@)),
    {
        let mut reqs: Vec<Req> = Vec::new();
        let ghost first = self@;
        let ghost views = arrivals_view(arrived@);
        assert(reqs_view(reqs@) =~= Seq::empty());
        for (resp, now) in it: arrived
            invariant
                it.seq() == arrived@,
                views == arrivals_view(arrived@),
                self@ == after_responses(first, views.take(it.index() as int)),
                reqs_view(reqs@) == follow_ups(first, views.take(it.index() as int)),
        {
            let ghost n = it.index() as int;
            assert(views[n] == (resp@, now as nat));
            assert(views.take(n + 1).drop_last() =~= views.take(n));
            let req = self.drain_response(resp, now);
            push_req(&mut reqs, req);
        }
        assert(views.take(views.len() as int) =~= views);
        reqs
    }

    /// Takes in the answer `resp`, which came at the time `now`, and asks for what follows.
    pub fn drain_response(&mut self, resp: Resp, now: u128) -> (req: Option<Req>)
        ensures
            final(self)@ == after_response(old(self)@, resp@, now as nat),
            req_option_view(req) == follow_up(old(self)@, resp@),
    {
        match resp {
            Resp::Healthz(outcome) => {
                self.health = mark_text(outcome);
                self.last_health = Some(now);
                None
            },
            Resp::Tools(outcome) => {
                match outcome {
                    Ok(tools) => {
                        if self.selected_tool.is_none() && tools.len() > 0 {
                            self.selected_tool = Some(tools[0].name.clone());
                        }
                        self.tools = tools;
                        self.tools_err = None;
                    },
                    Err(text) => {
                        self.tools_err = Some(text);
                    },
                }
                None
            },
            Resp::CallResult { tool, result } => {
                match result {
                    Ok(json) => {
                        self.call_status = Some(joined("ok: ", tool.as_str()));
                        self.call_response = Some(json.pretty());
                    },
                    Err(text) => {
                        self.call_status = Some(joined("err: ", tool.as_str()));
                        self.call_response = Some(text);
                    },
                }
                None
            },
            Resp::Audit(outcome) => {
                match outcome {
                    Ok(audit) => {
                        self.audit = audit;
                        self.audit_err = None;
                    },
                    Err(text) => {
                        self.audit_err = Some(text);
                    },
                }
                None
            },
            Resp::Pending(outcome) => {
                match outcome {
                    Ok(pending) => {
                        self.pending = pending;
                        self.pending_err = None;
                    },
                    Err(text) => {
                        self.pending_err = Some(text);
                    },
                }
                None
            },
            Resp::ApproveResult(outcome) => {
                self.approve_status = Some(mark_text(outcome));
                Some(self.dispatch_pending())
            },
        }
    }

    /// Asks for the approval of the pending operation in row `row`, if there is one that is not
    /// approved yet.
    pub fn approve(&self, row: usize) -> (req: Option<Req>)
        ensures
            req_option_view(req) == if row < self@.pending.len() && !self@.pending[row as int].approved {
                Some(
                    ReqView::Approve {
                        op_id: self@.pending[row as int].op_id@,
                        ttl_secs: APPROVE_TTL_SECS as nat,
                    },
                )
            } else {
                None
            },
    {
        if row < self.pending.len() && !self.pending[row].approved {
            Some(
                Req::Approve { op_id: self.pending[row].op_id.clone(), ttl_secs: APPROVE_TTL_SECS },
            )
        } else {
            None
        }
    }

    /// Selects the entry of the audit log in row `row`.
    pub fn select_audit(&mut self, row: usize)
        ensures
            final(self)@ == (AppView { selected_audit: Some(row as nat), ..old(self)@ }),
    {
        self.selected_audit = Some(row);
    }

    /// The entry of the audit log that is selected, if there is one in that row.
    pub fn selected_entry(&self) -> (entry: Option<&AuditEntry>)
        ensures
            match entry {
                Some(e) => entry_in_use(self@) == Some(*e),
                None => entry_in_use(self@) is None,
            },
    {
        match self.selected_audit {
            Some(i) => if i < self.audit.len() {
                Some(&self.audit[i])
            } else {
                None
            },
            None => None,
        }
    }

    /// Selects the tool in row `row`, if there is one.
    pub fn select_tool(&mut self, row: usize)
        ensures
            final(self)@ == if row < old(self)@.tools.len() {
                AppView { selected_tool: Some(old(self)@.tools[row as int].name), ..old(self)@ }
            } else {
                old(self)@
            },
    {
        if row < self.tools.len() {
            self.selected_tool = Some(self.tools[row].name.clone());
        }
    }

    /// The selected tool, if it is among those that are loaded.
    pub fn described_tool(&self) -> (tool: Option<&ToolInfo>)
        ensures
            match tool {
                Some(t) => tool_in_use(self@) == Some(t@),
                None => tool_in_use(self@) is None,
            },
    {
        match &self.selected_tool {
            Some(name) => {
                let ghost views = tools_view(self.tools@);
                assert(views.skip(0) =~= views);
                for i in 0..self.tools.len()
                    invariant
                        views == tools_view(self.tools@),
                        self.selected_tool == Some(*name),
                        tool_in_use(self@) == first_named(views.skip(i as int), name@),
                {
                    assert(views.skip(i as int).first() == self.tools@[i as int]@);
                    assert(views.skip(i as int).drop_first() =~= views.skip(i + 1));
                    if self.tools[i].name == *name {
                        return Some(&self.tools[i]);
                    }
                }
                None
            },
            None => None,
        }
    }

    /// Puts the arguments that the schema of the selected tool suggests in the place of those
    /// that were typed in, if that tool is loaded.
    pub fn copy_schema(&mut self)
        ensures
            final(self)@ == match tool_in_use(old(self)@) {
                Some(tool) => AppView {
                    args_json: pretty_or_empty(suggested_args(tool)),
                    ..old(self)@
                },
                None => old(self)@,
            },
    {
        let text = match self.described_tool() {
            Some(tool) => match tool.input_schema.get("properties") {
                Some(properties) => properties.pretty(),
                None => empty_object().pretty(),
            },
            None => {
                return;
            },
        };
        self.args_json = text;
    }
}

/// An object without members.
fn empty_object() -> (json: Json)
    ensures
        json@ == JsonView::Object(Map::empty()),
{
    let members: Vec<(String, Json)> = Vec::new();
    assert(by_name(members_view(members@)) == Map::<Seq<char>, JsonView>::empty());
    Json::Object(members)
}

/// What is known of the server is out of date once five seconds have passed since it was heard of,
/// and not before; no other answer puts that off.
pub proof fn law_health_is_polled(state: AppView, resp: RespView, heard: nat, now: nat)
    ensures
        resp is Healthz ==> (health_is_due(after_response(state, resp, heard), now) <==> now
            > heard + 5_000_000_000),
        !(resp is Healthz) ==> health_is_due(after_response(state, resp, heard), now)
            == health_is_due(state, now),
{
}

/// Answers do not change when the window last asked of its own accord.
proof fn lemma_answers_keep_polls(state: AppView, arrived: Seq<(RespView, nat)>)
    ensures
        after_responses(state, arrived).last_poll == state.last_poll,
        after_responses(state, arrived).last_audit_poll == state.last_audit_poll,
        after_responses(state, arrived).audit_limit == state.audit_limit,
    decreases arrived.len(),
{
    if arrived.len() > 0 {
        lemma_answers_keep_polls(state, arrived.drop_last());
    }
}

/// The window asks for the state of the server of its own accord at most once in five seconds,
/// whether or not answers come in between.
pub proof fn law_polls_are_apart(
    state: AppView,
    first: nat,
    arrived: Seq<(RespView, nat)>,
    second: nat,
)
    requires
        poll_is_due(after_responses(AppView { last_poll: Some(first), ..state }, arrived), second),
    ensures
        second > first + HEALTH_NANOS,
{
    lemma_answers_keep_polls(AppView { last_poll: Some(first), ..state }, arrived);
}

/// The window asks for the audit log of its own accord at most once in three seconds, whatever
/// answers come in between, and does ask once they have passed.
pub proof fn law_audit_polls_are_apart(
    state: AppView,
    first: nat,
    arrived: Seq<(RespView, nat)>,
    second: nat,
)
    ensures
        audit_poll_is_due(
            after_responses(AppView { last_audit_poll: Some(first), ..state }, arrived),
            second,
        ) <==> second > first + AUDIT_NANOS,
{
    lemma_answers_keep_polls(AppView { last_audit_poll: Some(first), ..state }, arrived);
}

/// A frame: the state in which it finds the window, the answers that have arrived, and its time.
pub struct Frame {
    pub before: AppView,
    pub arrived: Seq<(RespView, nat)>,
    pub now: nat,
}

/// The state in which `frame` leaves the window.
pub open spec fn frame_end(frame: Frame) -> AppView {
    after_frame(frame.before, frame.arrived, frame.now)
}

/// `frame` asks for the state of the server because it is due.
pub open spec fn frame_polls(frame: Frame) -> bool {
    poll_is_due(after_responses(frame.before, frame.arrived), frame.now)
}

/// `frame` asks for the audit log because it is due.
pub open spec fn frame_polls_audit(frame: Frame) -> bool {
    audit_poll_is_due(after_responses(frame.before, frame.arrived), frame.now)
}

/// `frames` follow one another. Between two of them the user may change anything but when the
/// window last asked of its own accord.
pub open spec fn frames_follow(frames: Seq<Frame>) -> bool {
    forall|k: int|
        #![trigger frames[k]]
        0 < k < frames.len() ==> {
            &&& frames[k].before.last_poll == frame_end(frames[k - 1]).last_poll
            &&& frames[k].before.last_audit_poll == frame_end(frames[k - 1]).last_audit_poll
        }
}

/// A frame asks on top of what the answers call for exactly where it is due: for the state of the
/// server with the address typed in, for the audit log with the path and the limit chosen.
pub proof fn law_frame_asks_what_is_due(frame: Frame)
    ensures
        ({
            let reqs = frame_reqs(frame.before, frame.arrived, frame.now);
            let asked = follow_ups(frame.before, frame.arrived);
            let health = ReqView::Healthz { url: frame.before.url };
            let audit = ReqView::ReloadAudit {
                path: frame.before.audit_path,
                limit: frame.before.audit_limit,
            };
            reqs == asked + (if frame_polls(frame) {
                seq![health]
            } else {
                Seq::empty()
            }) + (if frame_polls_audit(frame) {
                seq![audit]
            } else {
                Seq::empty()
            })
        }),
        forall|k: int|
            0 <= k < follow_ups(frame.before, frame.arrived).len() ==> #[trigger] follow_ups(
                frame.before,
                frame.arrived,
            )[k] is ReloadPending,
{
    lemma_answers_keep_requests(frame.before, frame.arrived);
    let asked = follow_ups(frame.before, frame.arrived);
    let drained = after_responses(frame.before, frame.arrived);
    let with_health = and_then_ask(asked, poll_req(drained, frame.now));
    assert(with_health =~= asked + (if frame_polls(frame) {
        seq![healthz_req(drained)]
    } else {
        Seq::empty()
    }));
    assert(and_then_ask(with_health, audit_poll_req(drained, frame.now)) =~= with_health + (
    if frame_polls_audit(frame) {
        seq![audit_req(drained)]
    } else {
        Seq::empty()
    }));
}

/// Answers do not change what the window asks with, and call for pending approvals only.
proof fn lemma_answers_keep_requests(state: AppView, arrived: Seq<(RespView, nat)>)
    ensures
        healthz_req(after_responses(state, arrived)) == healthz_req(state),
        audit_req(after_responses(state, arrived)) == audit_req(state),
        forall|k: int|
            0 <= k < follow_ups(state, arrived).len() ==> #[trigger] follow_ups(state, arrived)[k]
                is ReloadPending,
    decreases arrived.len(),
{
    if arrived.len() > 0 {
        lemma_answers_keep_requests(state, arrived.drop_last());
    }
}

/// Over any run of frames, the window asks for the state of the server of its own accord at times
/// more than five seconds apart, and for the audit log at times more than three seconds apart.
pub proof fn law_frames_poll_apart(frames: Seq<Frame>, i: int, j: int)
    requires
        frames_follow(frames),
        0 <= i < j < frames.len(),
    ensures
        frame_polls(frames[i]) && frame_polls(frames[j]) ==> frames[j].now > frames[i].now
            + HEALTH_NANOS,
        frame_polls_audit(frames[i]) && frame_polls_audit(frames[j]) ==> frames[j].now
            > frames[i].now + AUDIT_NANOS,
{
    lemma_last_polls_grow(frames, i, j);
    lemma_answers_keep_polls(frames[j].before, frames[j].arrived);
}

/// What a frame asked for is remembered, or replaced by what a later frame asked for.
proof fn lemma_last_polls_grow(frames: Seq<Frame>, i: int, j: int)
    requires
        frames_follow(frames),
        0 <= i < j < frames.len(),
    ensures
        frame_polls(frames[i]) ==> (frames[j].before.last_poll matches Some(t) && t
            >= frames[i].now),
        frame_polls_audit(frames[i]) ==> (frames[j].before.last_audit_poll matches Some(t) && t
            >= frames[i].now),
    decreases j - i,
{
    lemma_answers_keep_polls(frames[j - 1].before, frames[j - 1].arrived);
    if i < j - 1 {
        lemma_last_polls_grow(frames, i, j - 1);
    }
}

/// An answer that is waiting holds the poll back: where the server is found to have been heard of
/// in the last five seconds, the frame does not ask for its state.
pub proof fn law_waiting_answer_holds_poll_back(frame: Frame, i: int)
    requires
        0 <= i < frame.arrived.len(),
        frame.arrived[i].0 is Healthz,
        forall|j: int|
            i <= j < frame.arrived.len() && (#[trigger] frame.arrived[j]).0 is Healthz ==> frame.now
                <= frame.arrived[j].1 + HEALTH_NANOS,
    ensures
        !frame_polls(frame),
{
    lemma_heard(frame.before, frame.arrived, i, frame.now);
}

/// After answers of which the last about the server is not old, what is known of it is not out of
/// date.
proof fn lemma_heard(state: AppView, arrived: Seq<(RespView, nat)>, i: int, now: nat)
    requires
        0 <= i < arrived.len(),
        arrived[i].0 is Healthz,
        forall|j: int|
            i <= j < arrived.len() && (#[trigger] arrived[j]).0 is Healthz ==> now <= arrived[j].1
                + HEALTH_NANOS,
    ensures
        !health_is_due(after_responses(state, arrived), now),
    decreases arrived.len(),
{
    let front = arrived.drop_last();
    assert(arrived.last() == arrived[arrived.len() - 1]);
    if !(arrived.last().0 is Healthz) {
        assert forall|j: int|
            i <= j < front.len() && (#[trigger] front[j]).0 is Healthz implies now <= front[j].1
            + HEALTH_NANOS by {
            assert(front[j] == arrived[j]);
        }
        assert(front[i] == arrived[i]);
        lemma_heard(state, front, i, now);
    }
}

/// The limit of the window that opens is in its range; frames leave it as it is, and a new one is
/// in its range again.
pub proof fn law_limit_stays_in_range(
    token_file: Option<Seq<char>>,
    home: Option<Seq<char>>,
    frame: Frame,
    entries: nat,
)
    ensures
        MIN_AUDIT_LIMIT <= opening_state(token_file, home, frame.now).audit_limit
            <= MAX_AUDIT_LIMIT,
        frame_end(frame).audit_limit == frame.before.audit_limit,
        MIN_AUDIT_LIMIT <= clamped(entries) <= MAX_AUDIT_LIMIT,
        MIN_AUDIT_LIMIT <= entries <= MAX_AUDIT_LIMIT ==> clamped(entries) == entries,
{
    lemma_answers_keep_polls(frame.before, frame.arrived);
}

/// An answer that brings an error leaves what was loaded before as it is; one that brings
/// something takes the error away.
pub proof fn law_errors_keep_what_was_loaded(state: AppView, resp: RespView, now: nat)
    ensures
        ({
            let next = after_response(state, resp, now);
            &&& resp matches RespView::Tools(Err(text)) ==> next.tools == state.tools
                && next.tools_err == Some(text)
            &&& resp matches RespView::Audit(Err(text)) ==> next.audit == state.audit
                && next.audit_err == Some(text)
            &&& resp matches RespView::Pending(Err(text)) ==> next.pending == state.pending
                && next.pending_err == Some(text)
            &&& resp matches RespView::Tools(Ok(tools)) ==> next.tools == tools
                && next.tools_err is None
            &&& resp matches RespView::Audit(Ok(audit)) ==> next.audit == audit
                && next.audit_err is None
            &&& resp matches RespView::Pending(Ok(pending)) ==> next.pending == pending
                && next.pending_err is None
        }),
{
}

/// No answer changes what the user typed in or picked, save that the first list of tools picks
/// its first tool where none is picked.
pub proof fn law_answers_leave_input_alone(state: AppView, resp: RespView, now: nat)
    ensures
        ({
            let next = after_response(state, resp, now);
            &&& next.url == state.url
            &&& next.token == state.token
            &&& next.args_json == state.args_json
            &&& next.audit_path == state.audit_path
            &&& next.audit_limit == state.audit_limit
            &&& next.last_poll == state.last_poll
            &&& next.last_audit_poll == state.last_audit_poll
            &&& next.pending_dir == state.pending_dir
            &&& next.selected_audit == state.selected_audit
            &&& state.selected_tool is Some ==> next.selected_tool == state.selected_tool
            &&& state.selected_tool is None && next.selected_tool != state.selected_tool ==> (
            resp matches RespView::Tools(Ok(tools)) && tools.len() > 0 && next.selected_tool
                == Some(tools[0].name))
        }),
{
}

/// Each answer changes its own panel only: answers about different things can come in either
/// order.
pub proof fn law_answers_commute(
    state: AppView,
    a: RespView,
    b: RespView,
    at_a: nat,
    at_b: nat,
)
    requires
        a is Healthz && !(b is Healthz) || a is Tools && !(b is Tools) || a is CallResult && !(
        b is CallResult) || a is Audit && !(b is Audit) || a is Pending && !(b is Pending)
            || a is ApproveResult && !(b is ApproveResult),
    ensures
        after_response(after_response(state, a, at_a), b, at_b) == after_response(
            after_response(state, b, at_b),
            a,
            at_a,
        ),
{
}

/// It makes no difference how many answers are taken in at a time.
pub proof fn law_answers_come_in_parts(
    state: AppView,
    front: Seq<(RespView, nat)>,
    back: Seq<(RespView, nat)>,
)
    ensures
        after_responses(state, front + back) == after_responses(
            after_responses(state, front),
            back,
        ),
        follow_ups(state, front + back) == follow_ups(state, front) + follow_ups(
            after_responses(state, front),
            back,
        ),
    decreases back.len(),
{
    if back.len() == 0 {
        assert(front + back =~= front);
        assert(follow_ups(state, front) + Seq::<ReqView>::empty() =~= follow_ups(state, front));
    } else {
        assert((front + back).drop_last() =~= front + back.drop_last());
        assert((front + back).last() == back.last());
        law_answers_come_in_parts(state, front, back.drop_last());
    }
}

/// Whatever came of an approval, the pending approvals are loaded anew; no other answer asks for
/// anything.
pub proof fn law_approval_reloads_pending(state: AppView, resp: RespView, now: nat)
    ensures
        resp is ApproveResult <==> follow_up(state, resp) is Some,
        resp is ApproveResult ==> follow_up(state, resp) == Some(
            pending_req(after_response(state, resp, now)),
        ),
{
}

/// A tool in use is one of those that are loaded, and is called by the selected name.
pub proof fn law_tool_in_use_is_loaded(state: AppView)
    requires
        tool_in_use(state) is Some,
    ensures
        state.tools.contains(tool_in_use(state)->0),
        state.selected_tool == Some(tool_in_use(state)->0.name),
{
    lemma_first_named(state.tools, state.selected_tool->0);
}

/// Once tools are loaded with none picked before, the first of them is in use.
pub proof fn law_first_tool_is_in_use(state: AppView, tools: Seq<ToolView>, now: nat)
    requires
        state.selected_tool is None,
        tools.len() > 0,
    ensures
        tool_in_use(after_response(state, RespView::Tools(Ok(tools)), now)) == Some(tools[0]),
{
}

/// What is found by name is among the tools and has that name.
proof fn lemma_first_named(tools: Seq<ToolView>, name: Seq<char>)
    ensures
        first_named(tools, name) matches Some(tool) ==> tools.contains(tool) && tool.name == name,
    decreases tools.len(),
{
    if tools.len() > 0 {
        if tools.first().name == name {
            assert(tools[0] == tools.first());
        } else {
            let rest = tools.drop_first();
            lemma_first_named(rest, name);
            if let Some(tool) = first_named(rest, name) {
                let i = choose|i: int| 0 <= i < rest.len() && rest[i] == tool;
                assert(tools[i + 1] == tool);
            }
        }
    }
}

/// What an answer shows depends on the answer alone, whatever was shown before: the state of the
/// server with a check mark or a cross, the tools, the result of a call in its pretty form with the
/// name of the tool, the entries, the outcome of an approval, or the error.
pub proof fn law_answer_is_shown(state: AppView, resp: RespView, now: nat)
    ensures
        ({
            let next = after_response(state, resp, now);
            match resp {
                RespView::Healthz(Ok(body)) => next.health == "✓ "@ + trimmed(body)
                    && next.last_health == Some(now),
                RespView::Healthz(Err(text)) => next.health == "✗ "@ + text && next.last_health
                    == Some(now),
                RespView::Tools(Ok(tools)) => next.tools == tools && next.tools_err is None,
                RespView::Tools(Err(text)) => next.tools_err == Some(text),
                RespView::CallResult { tool, result: Ok(json) } => next.call_status == Some(
                    "ok: "@ + tool,
                ) && match pretty_text(json) {
                    Some(text) => next.call_response == Some(text),
                    None => next.call_response == Some(Seq::<char>::empty()),
                },
                RespView::CallResult { tool, result: Err(text) } => next.call_status == Some(
                    "err: "@ + tool,
                ) && next.call_response == Some(text),
                RespView::Audit(Ok(audit)) => next.audit == audit && next.audit_err is None,
                RespView::Audit(Err(text)) => next.audit_err == Some(text),
                RespView::Pending(Ok(pending)) => next.pending == pending
                    && next.pending_err is None,
                RespView::Pending(Err(text)) => next.pending_err == Some(text),
                RespView::ApproveResult(Ok(text)) => next.approve_status == Some(
                    "✓ "@ + trimmed(text),
                ),
                RespView::ApproveResult(Err(text)) => next.approve_status == Some("✗ "@ + text),
            }
        }),
{
}

/// After the answer to a call, the status and the response shown are those of that call, whatever
/// was shown before it.
pub proof fn law_latest_call_is_shown(
    one: AppView,
    other: AppView,
    tool: Seq<char>,
    result: Result<JsonView, Seq<char>>,
    at_one: nat,
    at_other: nat,
)
    ensures
        ({
            let resp = RespView::CallResult { tool, result };
            let (a, b) = (
                after_response(one, resp, at_one),
                after_response(other, resp, at_other),
            );
            &&& a.call_status == b.call_status
            &&& a.call_response == b.call_response
            &&& a.call_status is Some
            &&& a.call_response is Some
        }),
{
}

/// An answer leaves what it is not about as it is.
pub proof fn law_answer_leaves_the_rest(state: AppView, resp: RespView, now: nat)
    ensures
        ({
            let next = after_response(state, resp, now);
            &&& !(resp is Healthz) ==> next.health == state.health && next.last_health
                == state.last_health
            &&& !(resp is Tools) ==> next.tools == state.tools && next.tools_err == state.tools_err
                && next.selected_tool == state.selected_tool
            &&& !(resp is CallResult) ==> next.call_status == state.call_status
                && next.call_response == state.call_response
            &&& !(resp is Audit) ==> next.audit == state.audit && next.audit_err == state.audit_err
            &&& !(resp is Pending) ==> next.pending == state.pending && next.pending_err
                == state.pending_err
            &&& !(resp is ApproveResult) ==> next.approve_status == state.approve_status
        }),
{
}

/// A list of tools picks its first tool exactly where none is picked and there is one.
pub proof fn law_first_tool_is_picked(state: AppView, tools: Seq<ToolView>, now: nat)
    ensures
        ({
            let next = after_response(state, RespView::Tools(Ok(tools)), now);
            &&& state.selected_tool is None && tools.len() > 0 ==> next.selected_tool == Some(
                tools[0].name,
            )
            &&& state.selected_tool is None && tools.len() == 0 ==> next.selected_tool is None
            &&& state.selected_tool is Some ==> next.selected_tool == state.selected_tool
        }),
{
}

/// Of several answers each counts; no answers change nothing and ask for nothing. Only the outcome
/// of an approval, good or bad, asks for something: for the pending approvals.
pub proof fn law_one_answer(state: AppView, resp: RespView, now: nat)
    ensures
        after_responses(state, Seq::empty()) == state,
        follow_ups(state, Seq::empty()) == Seq::<ReqView>::empty(),
        after_responses(state, seq![(resp, now)]) == after_response(state, resp, now),
        resp is ApproveResult ==> follow_ups(state, seq![(resp, now)]) == seq![
            ReqView::ReloadPending { dir: state.pending_dir },
        ],
        !(resp is ApproveResult) ==> follow_ups(state, seq![(resp, now)])
            == Seq::<ReqView>::empty(),
{
    reveal_with_fuel(after_responses, 2);
    reveal_with_fuel(follow_ups, 2);
    assert(seq![(resp, now)].drop_last() =~= Seq::empty());
    assert(seq![(resp, now)].last() == (resp, now));
    assert(Seq::<ReqView>::empty().push(pending_req(state)) =~= seq![pending_req(state)]);
}

/// A frame asks for the state of the server exactly where, after the answers, it was never heard of
/// or more than five seconds ago, and the window never asked of its own accord or more than five
/// seconds ago; for the audit log exactly where the window never asked of its own accord or more
/// than three seconds ago. What was heard makes no difference.
pub proof fn law_frame_asks_in_time(frame: Frame)
    ensures
        ({
            let reqs = frame_reqs(frame.before, frame.arrived, frame.now);
            let heard = after_responses(frame.before, frame.arrived).last_health;
            let health_due = (heard is None || frame.now > heard->0 + 5_000_000_000) && (
            frame.before.last_poll is None || frame.now > frame.before.last_poll->0
                + 5_000_000_000);
            let audit_due = frame.before.last_audit_poll is None || frame.now
                > frame.before.last_audit_poll->0 + 3_000_000_000;
            &&& health_due <==> reqs.contains(ReqView::Healthz { url: frame.before.url })
            &&& audit_due <==> reqs.contains(
                ReqView::ReloadAudit {
                    path: frame.before.audit_path,
                    limit: frame.before.audit_limit,
                },
            )
        }),
{
    lemma_answers_keep_polls(frame.before, frame.arrived);
    law_frame_asks_what_is_due(frame);
    let asked = follow_ups(frame.before, frame.arrived);
    let health = ReqView::Healthz { url: frame.before.url };
    let audit = ReqView::ReloadAudit {
        path: frame.before.audit_path,
        limit: frame.before.audit_limit,
    };
    let reqs = frame_reqs(frame.before, frame.arrived, frame.now);
    if frame_polls(frame) {
        assert(reqs[asked.len() as int] == health);
    } else if reqs.contains(health) {
        let k = choose|k: int| 0 <= k < reqs.len() && reqs[k] == health;
        if k < asked.len() {
            assert(reqs[k] == asked[k]);
        }
    }
    if frame_polls_audit(frame) {
        assert(reqs.last() == audit);
    } else if reqs.contains(audit) {
        let k = choose|k: int| 0 <= k < reqs.len() && reqs[k] == audit;
        if k < asked.len() {
            assert(reqs[k] == asked[k]);
        }
    }
}

/// Once more than five seconds have passed since the server was last heard of, well or badly, and
/// since the window last asked, polling asks; polling changes nothing but when it last asked.
pub proof fn law_polling_goes_on(state: AppView, now: nat)
    ensures
        ({
            let health_due = (state.last_health is None || now > state.last_health->0
                + 5_000_000_000) && (state.last_poll is None || now > state.last_poll->0
                + 5_000_000_000);
            let audit_due = state.last_audit_poll is None || now > state.last_audit_poll->0
                + 3_000_000_000;
            &&& health_due ==> poll_req(state, now) == Some(ReqView::Healthz { url: state.url })
            &&& !health_due ==> poll_req(state, now) is None
            &&& health_due ==> after_poll(state, now) == (AppView { last_poll: Some(now), ..state })
            &&& !health_due ==> after_poll(state, now) == state
            &&& audit_due ==> audit_poll_req(state, now) == Some(
                ReqView::ReloadAudit { path: state.audit_path, limit: state.audit_limit },
            )
            &&& !audit_due ==> audit_poll_req(state, now) is None
            &&& audit_due ==> after_audit_poll(state, now) == (AppView {
                last_audit_poll: Some(now),
                ..state
            })
            &&& !audit_due ==> after_audit_poll(state, now) == state
        }),
{
}

/// A server that was found down is asked again like one that was found up.
pub proof fn law_server_found_down_is_asked_again(
    state: AppView,
    outcome: Result<Seq<char>, Seq<char>>,
    heard: nat,
    now: nat,
)
    requires
        now > heard + 5_000_000_000,
        state.last_poll is None || now > state.last_poll->0 + 5_000_000_000,
    ensures
        frame_reqs(state, seq![(RespView::Healthz(outcome), heard)], now).contains(
            ReqView::Healthz { url: state.url },
        ),
{
    let resp = RespView::Healthz(outcome);
    law_one_answer(state, resp, heard);
    law_frame_asks_in_time(Frame { before: state, arrived: seq![(resp, heard)], now });
}

/// A frame is the answers that have arrived and then a frame without any: it does what that does to
/// the state that the answers left, and what it asks comes after what they call for.
pub proof fn law_frame_takes_answers_first(
    state: AppView,
    arrived: Seq<(RespView, nat)>,
    now: nat,
)
    ensures
        after_frame(state, arrived, now) == after_frame(
            after_responses(state, arrived),
            Seq::empty(),
            now,
        ),
        frame_reqs(state, arrived, now) == follow_ups(state, arrived) + frame_reqs(
            after_responses(state, arrived),
            Seq::empty(),
            now,
        ),
        after_frame(state, Seq::empty(), now) == after_audit_poll(after_poll(state, now), now),
{
    let drained = after_responses(state, arrived);
    assert(frame_reqs(state, arrived, now) =~= follow_ups(state, arrived) + frame_reqs(
        drained,
        Seq::empty(),
        now,
    ));
}

/// What the window asks with is what is typed in and chosen, as it stands.
pub proof fn law_requests_carry_the_input(state: AppView, args: Option<JsonView>)
    ensures
        healthz_req(state) == (ReqView::Healthz { url: state.url }),
        list_tools_req(state) == (ReqView::ListTools { url: state.url, token: state.token }),
        audit_req(state) == (ReqView::ReloadAudit {
            path: state.audit_path,
            limit: state.audit_limit,
        }),
        pending_req(state) == (ReqView::ReloadPending { dir: state.pending_dir }),
        state.selected_tool is None ==> call_req(state, args) is None,
        state.selected_tool is Some ==> (call_req(state, args) matches Some(
            ReqView::CallTool { url, token, tool, args: sent },
        ) && {
            &&& url == state.url
            &&& token == state.token
            &&& tool == state.selected_tool->0
            &&& args matches Some(json) ==> sent == json
            &&& args is None ==> sent == JsonView::Object(Map::empty())
        }),
{
}

/// The window opens on the local server with the token of its file and the log and the approvals of
/// the home directory, with nothing loaded, picked or reported.
pub proof fn law_opening(token_file: Option<Seq<char>>, home: Option<Seq<char>>, now: nat)
    ensures
        ({
            let state = opening_state(token_file, home, now);
            &&& state.url == "http://127.0.0.1:18765"@
            &&& token_file matches Some(text) ==> state.token == trimmed(text)
            &&& token_file is None ==> state.token == Seq::<char>::empty()
            &&& state.health == "(not checked yet)"@
            &&& state.last_health is None
            &&& state.last_poll == Some(now)
            &&& state.last_audit_poll == Some(now)
            &&& state.args_json == "{\"path\":\"/tmp/x.txt\"}"@
            &&& state.audit_limit == 100
            &&& state.audit_path == path_in_home(home, ".gfb/audit.log"@)
            &&& state.pending_dir == path_in_home(home, ".gfb/pending"@)
            &&& state.tools.len() == 0 && state.audit.len() == 0 && state.pending.len() == 0
            &&& state.tools_err is None && state.audit_err is None && state.pending_err is None
            &&& state.selected_tool is None && state.selected_audit is None
            &&& state.call_status is None && state.call_response is None
            &&& state.approve_status is None
        }),
{
}

/// The tool in use is the first of the loaded ones that has the selected name; there is none only
/// where none has it or nothing is selected.
pub proof fn law_tool_in_use_is_the_first(state: AppView, i: int)
    ensures
        state.selected_tool is None ==> tool_in_use(state) is None,
        0 <= i < state.tools.len() && state.selected_tool == Some(state.tools[i].name) && (forall|
            j: int,
        |
            0 <= j < i ==> Some((#[trigger] state.tools[j]).name) != state.selected_tool)
            ==> tool_in_use(state) == Some(state.tools[i]),
        (forall|j: int|
            0 <= j < state.tools.len() ==> Some((#[trigger] state.tools[j]).name)
                != state.selected_tool) ==> tool_in_use(state) is None,
{
    if let Some(name) = state.selected_tool {
        if 0 <= i < state.tools.len() && state.tools[i].name == name && (forall|j: int|
            0 <= j < i ==> Some((#[trigger] state.tools[j]).name) != state.selected_tool) {
            assert forall|j: int| 0 <= j < i implies (#[trigger] state.tools[j]).name != name by {}
            lemma_first_named_at(state.tools, name, i);
        }
        if forall|j: int|
            0 <= j < state.tools.len() ==> Some((#[trigger] state.tools[j]).name)
                != state.selected_tool {
            lemma_first_named(state.tools, name);
        }
    }
}

/// The first tool of a name is found.
proof fn lemma_first_named_at(tools: Seq<ToolView>, name: Seq<char>, i: int)
    requires
        0 <= i < tools.len(),
        tools[i].name == name,
        forall|j: int| 0 <= j < i ==> (#[trigger] tools[j]).name != name,
    ensures
        first_named(tools, name) == Some(tools[i]),
    decreases i,
{
    if i > 0 {
        assert(tools[0].name != name);
        let rest = tools.drop_first();
        assert forall|j: int| 0 <= j < i - 1 implies (#[trigger] rest[j]).name != name by {
            assert(tools[j + 1].name != name);
        }
        lemma_first_named_at(rest, name, i - 1);
    }
}

/// The arguments that a schema suggests are its `properties`, whatever they are; a schema that is no
/// object or has none suggests an empty object.
pub proof fn law_suggested_args(tool: ToolView)
    ensures
        tool.input_schema matches JsonView::Object(schema) && schema.contains_key("properties"@)
            ==> suggested_args(tool) == tool.input_schema->Object_0["properties"@],
        !(tool.input_schema is Object) || !tool.input_schema->Object_0.contains_key("properties"@)
            ==> suggested_args(tool) == JsonView::Object(Map::empty()),
{
}

/// The entry in use is the one in the selected row, if there is such a row.
pub proof fn law_entry_in_use(state: AppView)
    ensures
        state.selected_audit matches Some(i) && i < state.audit.len() ==> entry_in_use(state)
            == Some(state.audit[state.selected_audit->0 as int]),
        state.selected_audit is None || state.selected_audit->0 >= state.audit.len()
            ==> entry_in_use(state) is None,
{
}

/// A limit outside the range becomes the end of the range that is nearest.
pub proof fn law_limit_is_clamped(entries: nat)
    ensures
        entries <= 10 ==> clamped(entries) == 10,
        10 <= entries <= 500 ==> clamped(entries) == entries,
        entries >= 500 ==> clamped(entries) == 500,
{
}

/// The window's state stands for what it holds.
pub proof fn law_state_hides_nothing(app: App)
    ensures
        app@.url == app.url@,
        app@.token == app.token@,
        app@.health == app.health@,
        app.last_health matches Some(t) ==> app@.last_health == Some(t as nat),
        app.last_health is None ==> app@.last_health is None,
        app.last_poll matches Some(t) ==> app@.last_poll == Some(t as nat),
        app.last_poll is None ==> app@.last_poll is None,
        app@.tools.len() == app.tools@.len(),
        forall|i: int| 0 <= i < app.tools@.len() ==> #[trigger] app@.tools[i] == app.tools@[i]@,
        app@.tools_err == option_view(app.tools_err),
        app@.selected_tool == option_view(app.selected_tool),
        app@.args_json == app.args_json@,
        app@.call_status == option_view(app.call_status),
        app@.call_response == option_view(app.call_response),
        app@.audit_path == app.audit_path@,
        app@.audit == app.audit@,
        app@.audit_err == option_view(app.audit_err),
        app@.audit_limit == app.audit_limit@,
        app.last_audit_poll matches Some(t) ==> app@.last_audit_poll == Some(t as nat),
        app.last_audit_poll is None ==> app@.last_audit_poll is None,
        app@.pending_dir == app.pending_dir@,
        app@.pending == app.pending@,
        app@.pending_err == option_view(app.pending_err),
        app@.approve_status == option_view(app.approve_status),
        app.selected_audit matches Some(i) ==> app@.selected_audit == Some(i as nat),
        app.selected_audit is None ==> app@.selected_audit is None,
{
}

/// Lists of requests and of answers stand for what they hold, one by one.
pub proof fn law_lists_hide_nothing(reqs: Seq<Req>, arrived: Seq<(Resp, u128)>, req: Option<Req>)
    ensures
        reqs_view(reqs).len() == reqs.len(),
        forall|i: int| 0 <= i < reqs.len() ==> #[trigger] reqs_view(reqs)[i] == reqs[i]@,
        arrivals_view(arrived).len() == arrived.len(),
        forall|i: int|
            0 <= i < arrived.len() ==> #[trigger] arrivals_view(arrived)[i] == (
                arrived[i].0@,
                arrived[i].1 as nat,
            ),
        req matches Some(r) ==> req_option_view(req) == Some(r@),
        req is None ==> req_option_view(req) is None,
{
}

/// A click on `Approve` asks for the approval of the operation in that row, whoever asked for it and
/// whatever it is, for five minutes, exactly where it is not approved yet.
pub proof fn law_approve_asks_for_its_row(app: &App, row: usize, req: Option<Req>)
    requires
        call_ensures(App::approve, (app, row), req),
    ensures
        req is Some <==> row < app.pending@.len() && !app.pending@[row as int].approved,
        req matches Some(r) ==> (r matches Req::Approve { op_id, ttl_secs } && op_id@
            == app.pending@[row as int].op_id@ && ttl_secs == 300),
{
}

/// Each button asks for what it names, with what is typed in and chosen, as it stands.
pub proof fn law_asking(
    app: &App,
    health: Req,
    tools: Req,
    audit: Req,
    pending: Req,
    all: Vec<Req>,
)
    requires
        call_ensures(App::dispatch_healthz, (app,), health),
        call_ensures(App::dispatch_list_tools, (app,), tools),
        call_ensures(App::dispatch_audit, (app,), audit),
        call_ensures(App::dispatch_pending, (app,), pending),
        call_ensures(App::refresh_all, (app,), all),
    ensures
        health@ == (ReqView::Healthz { url: app.url@ }),
        tools@ == (ReqView::ListTools { url: app.url@, token: app.token@ }),
        audit@ == (ReqView::ReloadAudit { path: app.audit_path@, limit: app.audit_limit@ }),
        pending@ == (ReqView::ReloadPending { dir: app.pending_dir@ }),
        all@.len() == 4,
        all@[0]@ == health@,
        all@[1]@ == tools@,
        all@[2]@ == audit@,
        all@[3]@ == pending@,
{
    let views = reqs_view(all@);
    assert(views.len() == all@.len());
    assert(views[0] == all@[0]@);
    assert(views[1] == all@[1]@);
    assert(views[2] == all@[2]@);
    assert(views[3] == all@[3]@);
}

/// Sending asks for a call exactly where a tool is selected, loaded or not, with the arguments typed
/// in where they are JSON, whatever they are, and with an empty object where they are not.
pub proof fn law_sending(app: &App, req: Option<Req>)
    requires
        call_ensures(App::dispatch_call, (app,), req),
    ensures
        req is Some <==> app.selected_tool is Some,
        req matches Some(r) ==> (r matches Req::CallTool { url, token, tool, args } && {
            &&& url@ == app.url@
            &&& token@ == app.token@
            &&& tool@ == app.selected_tool->0@
            &&& parse_document(app.args_json@) matches Some(json) ==> args@ == json
            &&& parse_document(app.args_json@) is None ==> args@ == JsonView::Object(Map::empty())
        }),
{
    law_requests_carry_the_input(app@, parse_document(app.args_json@));
}

/// The entry shown below the table is the one in the selected row, if there is such a row.
pub proof fn law_selecting_an_entry(app: &App, entry: Option<&AuditEntry>)
    requires
        call_ensures(App::selected_entry, (app,), entry),
    ensures
        entry is Some <==> app.selected_audit is Some && app.selected_audit->0 < app.audit@.len(),
        entry matches Some(e) ==> *e == app.audit@[app.selected_audit->0 as int],
{
    law_entry_in_use(app@);
}

/// Opening the window asks for the state of the server, the audit log and the pending approvals, and
/// counts the first two as asked of its own accord.
pub proof fn law_opening_the_window(
    token_file: Option<String>,
    home: Option<String>,
    now: u128,
    opened: (App, Vec<Req>),
)
    requires
        call_ensures(App::new, (token_file, home, now), opened),
    ensures
        opened.0@ == opening_state(option_view(token_file), option_view(home), now as nat),
        opened.0.last_poll == Some(now),
        opened.0.last_audit_poll == Some(now),
        opened.1@.len() == 3,
        opened.1@[0]@ == (ReqView::Healthz { url: "http://127.0.0.1:18765"@ }),
        opened.1@[1]@ == (ReqView::ReloadAudit { path: opened.0.audit_path@, limit: 100 }),
        opened.1@[2]@ == (ReqView::ReloadPending { dir: opened.0.pending_dir@ }),
{
    let views = reqs_view(opened.1@);
    assert(views.len() == opened.1@.len());
    assert(views[0] == opened.1@[0]@);
    assert(views[1] == opened.1@[1]@);
    assert(views[2] == opened.1@[2]@);
    law_opening(option_view(token_file), option_view(home), now as nat);
}

/// Taking in an answer shows what it brings in the place of what was shown, and nothing else
/// changes.
pub proof fn law_taking_in_an_answer(app: &mut App, resp: Resp, now: u128, req: Option<Req>)
    requires
        call_ensures(App::drain_response, (app, resp, now), req),
    ensures
        match resp {
            Resp::Healthz(Ok(body)) => final(app)@ == (AppView {
                health: "✓ "@ + trimmed(body@),
                last_health: Some(now as nat),
                ..old(app)@
            }),
            Resp::Healthz(Err(text)) => final(app)@ == (AppView {
                health: "✗ "@ + text@,
                last_health: Some(now as nat),
                ..old(app)@
            }),
            Resp::Tools(Ok(tools)) => {
                let picked = final(app)@.selected_tool;
                &&& final(app)@ == (AppView {
                    tools: tools_view(tools@),
                    tools_err: None,
                    selected_tool: picked,
                    ..old(app)@
                })
                &&& old(app)@.selected_tool is Some ==> picked == old(app)@.selected_tool
                &&& old(app)@.selected_tool is None && tools@.len() > 0 ==> picked == Some(
                    tools@[0].name@,
                )
                &&& old(app)@.selected_tool is None && tools@.len() == 0 ==> picked is None
            },
            Resp::Tools(Err(text)) => final(app)@ == (AppView {
                tools_err: Some(text@),
                ..old(app)@
            }),
            Resp::CallResult { tool, result: Ok(json) } => {
                &&& final(app)@ == (AppView {
                    call_status: Some("ok: "@ + tool@),
                    call_response: final(app)@.call_response,
                    ..old(app)@
                })
                &&& pretty_text(json@) matches Some(text) ==> final(app)@.call_response == Some(text)
                &&& pretty_text(json@) is None ==> final(app)@.call_response == Some(
                    Seq::<char>::empty(),
                )
            },
            Resp::CallResult { tool, result: Err(text) } => final(app)@ == (AppView {
                call_status: Some("err: "@ + tool@),
                call_response: Some(text@),
                ..old(app)@
            }),
            Resp::Audit(Ok(audit)) => final(app)@ == (AppView {
                audit: audit@,
                audit_err: None,
                ..old(app)@
            }),
            Resp::Audit(Err(text)) => final(app)@ == (AppView {
                audit_err: Some(text@),
                ..old(app)@
            }),
            Resp::Pending(Ok(pending)) => final(app)@ == (AppView {
                pending: pending@,
                pending_err: None,
                ..old(app)@
            }),
            Resp::Pending(Err(text)) => final(app)@ == (AppView {
                pending_err: Some(text@),
                ..old(app)@
            }),
            Resp::ApproveResult(Ok(text)) => final(app)@ == (AppView {
                approve_status: Some("✓ "@ + trimmed(text@)),
                ..old(app)@
            }),
            Resp::ApproveResult(Err(text)) => final(app)@ == (AppView {
                approve_status: Some("✗ "@ + text@),
                ..old(app)@
            }),
        },
        req is Some <==> resp is ApproveResult,
        req matches Some(r) ==> r@ == (ReqView::ReloadPending { dir: old(app)@.pending_dir }),
{
    if let Resp::Tools(Ok(tools)) = resp {
        if tools@.len() > 0 {
            assert(tools_view(tools@)[0].name == tools@[0].name@);
        }
    }
}

/// Polling asks for the state of the server exactly where it was not heard of, well or badly, in the
/// last five seconds, and was not asked for in the last five seconds; it remembers that it asked.
pub proof fn law_polling(app: &mut App, now: u128, req: Option<Req>)
    requires
        call_ensures(App::poll, (app, now), req),
    ensures
        req is Some <==> (old(app)@.last_health is None || now > old(app)@.last_health->0
            + 5_000_000_000) && (old(app)@.last_poll is None || now > old(app)@.last_poll->0
            + 5_000_000_000),
        req matches Some(r) ==> r@ == (ReqView::Healthz { url: old(app)@.url }) && final(app)@ == (
        AppView { last_poll: Some(now as nat), ..old(app)@ }),
        req is None ==> final(app)@ == old(app)@,
{
    law_polling_goes_on(old(app)@, now as nat);
}

/// Polling the audit log asks for it exactly where it did not in the last three seconds, and
/// remembers that it asked.
pub proof fn law_polling_the_audit_log(app: &mut App, now: u128, req: Option<Req>)
    requires
        call_ensures(App::poll_audit, (app, now), req),
    ensures
        req is Some <==> old(app)@.last_audit_poll is None || now > old(app)@.last_audit_poll->0
            + 3_000_000_000,
        req matches Some(r) ==> r@ == (ReqView::ReloadAudit {
            path: old(app)@.audit_path,
            limit: old(app)@.audit_limit,
        }) && final(app)@ == (AppView { last_audit_poll: Some(now as nat), ..old(app)@ }),
        req is None ==> final(app)@ == old(app)@,
{
    law_polling_goes_on(old(app)@, now as nat);
}

/// Beginning a frame asks for the state of the server and for the audit log exactly where each is
/// due once the answers are taken in, and leaves what they left but for when it last asked.
pub proof fn law_beginning_a_frame(
    app: &mut App,
    arrived: Vec<(Resp, u128)>,
    now: u128,
    reqs: Vec<Req>,
)
    requires
        call_ensures(App::frame, (app, arrived, now), reqs),
    ensures
        ({
            let drained = after_responses(old(app)@, arrivals_view(arrived@));
            let health_due = (drained.last_health is None || now > drained.last_health->0
                + 5_000_000_000) && (old(app)@.last_poll is None || now > old(app)@.last_poll->0
                + 5_000_000_000);
            let audit_due = old(app)@.last_audit_poll is None || now
                > old(app)@.last_audit_poll->0 + 3_000_000_000;
            &&& health_due <==> reqs_view(reqs@).contains(ReqView::Healthz { url: old(app)@.url })
            &&& audit_due <==> reqs_view(reqs@).contains(
                ReqView::ReloadAudit {
                    path: old(app)@.audit_path,
                    limit: old(app)@.audit_limit,
                },
            )
            &&& final(app)@ == (AppView {
                last_poll: if health_due {
                    Some(now as nat)
                } else {
                    old(app)@.last_poll
                },
                last_audit_poll: if audit_due {
                    Some(now as nat)
                } else {
                    old(app)@.last_audit_poll
                },
                ..drained
            })
        }),
{
    let views = arrivals_view(arrived@);
    law_frame_asks_in_time(Frame { before: old(app)@, arrived: views, now: now as nat });
    lemma_answers_keep_polls(old(app)@, views);
}

/// Choosing an entry selects its row, and changes nothing else.
pub proof fn law_choosing_an_entry(app: &mut App, row: usize)
    requires
        call_ensures(App::select_audit, (app, row), ()),
    ensures
        final(app)@ == (AppView { selected_audit: Some(row as nat), ..old(app)@ }),
{
}

/// Choosing a tool picks the name of the tool in that row, and changes nothing else.
pub proof fn law_choosing_a_tool(app: &mut App, row: usize)
    requires
        call_ensures(App::select_tool, (app, row), ()),
    ensures
        row < old(app)@.tools.len() ==> final(app)@ == (AppView {
            selected_tool: Some(old(app)@.tools[row as int].name),
            ..old(app)@
        }),
        row >= old(app)@.tools.len() ==> final(app)@ == old(app)@,
{
}

/// Choosing a limit sets it, or the end of the range that is nearest, and changes nothing else.
pub proof fn law_choosing_a_limit(app: &mut App, limit: usize)
    requires
        call_ensures(App::set_audit_limit, (app, limit), ()),
    ensures
        final(app)@ == (AppView { audit_limit: final(app)@.audit_limit, ..old(app)@ }),
        limit < 10 ==> final(app)@.audit_limit == 10,
        10 <= limit <= 500 ==> final(app)@.audit_limit == limit,
        limit > 500 ==> final(app)@.audit_limit == 500,
{
}

/// Copying the schema puts the pretty form of its `properties`, whatever they are, in the place of
/// the arguments typed in, and that of an empty object where it has none; where the selected tool is
/// not loaded, nothing changes.
pub proof fn law_copying_the_schema(app: &mut App, i: int)
    requires
        call_ensures(App::copy_schema, (app,), ()),
        0 <= i < old(app)@.tools.len(),
        old(app)@.selected_tool == Some(old(app)@.tools[i].name),
        forall|j: int| 0 <= j < i ==> (#[trigger] old(app)@.tools[j]).name != old(app)@.tools[i].name,
    ensures
        ({
            let schema = old(app)@.tools[i].input_schema;
            let args = if schema is Object && schema->Object_0.contains_key("properties"@) {
                schema->Object_0["properties"@]
            } else {
                JsonView::Object(Map::empty())
            };
            &&& final(app)@ == (AppView { args_json: final(app)@.args_json, ..old(app)@ })
            &&& pretty_text(args) matches Some(text) ==> final(app)@.args_json == text
            &&& pretty_text(args) is None ==> final(app)@.args_json.len() == 0
        }),
{
    assert forall|j: int| 0 <= j < i implies Some((#[trigger] old(app)@.tools[j]).name)
        != old(app)@.selected_tool by {}
    law_tool_in_use_is_the_first(old(app)@, i);
    law_suggested_args(old(app)@.tools[i]);
}

/// Copying the schema of a tool that is not loaded, or of none, changes nothing.
pub proof fn law_copying_no_schema(app: &mut App)
    requires
        call_ensures(App::copy_schema, (app,), ()),
        forall|j: int|
            0 <= j < old(app)@.tools.len() ==> Some((#[trigger] old(app)@.tools[j]).name)
                != old(app)@.selected_tool,
    ensures
        final(app)@ == old(app)@,
{
    law_tool_in_use_is_the_first(old(app)@, 0);
}

/// The tool that is described is the first of the loaded ones that has the selected name.
pub proof fn law_describing_a_tool(app: &App, i: int, tool: Option<&ToolInfo>)
    requires
        call_ensures(App::described_tool, (app,), tool),
    ensures
        tool matches Some(t) ==> Some(t.name@) == app@.selected_tool,
        0 <= i < app.tools@.len() && Some(app.tools@[i].name@) == app@.selected_tool && (forall|
            j: int,
        |
            0 <= j < i ==> Some((#[trigger] app.tools@[j]).name@) != app@.selected_tool) ==> (
        tool matches Some(t) && t@ == app.tools@[i]@),
        (forall|j: int|
            0 <= j < app.tools@.len() ==> Some((#[trigger] app.tools@[j]).name@)
                != app@.selected_tool) ==> tool is None,
{
    assert forall|j: int| 0 <= j < app.tools@.len() implies (#[trigger] app@.tools[j]).name
        == app.tools@[j].name@ by {}
    law_tool_in_use_is_the_first(app@, i);
    if tool is Some {
        law_tool_in_use_is_loaded(app@);
    }
}

} // verus!
