use gnome_mcp_bridge::approve::{approve_command, do_approve, RunOutput};
use gnome_mcp_bridge::json::Json;
use gnome_mcp_bridge::panels::{error_label, time_label, tint_of, Tint, ToolRow};
use gnome_mcp_bridge::paths::{
    default_audit_path, default_bearer_token, default_pending_dir, token_file,
};
use gnome_mcp_bridge::records::{AuditEntry, Fetched, PendingEntry, PendingFile};
use gnome_mcp_bridge::rpc::{call_tool_request, healthz_request, list_tools_request};
use gnome_mcp_bridge::state::{App, AuditLimit};
use gnome_mcp_bridge::time::Timestamp;
use gnome_mcp_bridge::tools::ToolInfo;
use gnome_mcp_bridge::worker::{handle, Done, Req, Resp, Work};

fn s(text: &str) -> String {
    text.to_string()
}

fn opened() -> App {
    App::new(Some(s(" tok\n")), Some(s("/home/u")), 0).0
}

fn audit(secs: i64, status: &str) -> AuditEntry {
    AuditEntry {
        timestamp: Timestamp::new(secs, 0).unwrap(),
        agent_id: s("kimi"),
        operation: s("write"),
        target_path: s("/tmp/x"),
        status: s(status),
        duration_ms: 12,
        before_hash: None,
        after_hash: None,
        diff: None,
    }
}

fn pending(op_id: &str, approved: bool) -> PendingEntry {
    PendingEntry {
        op_id: s(op_id),
        agent_id: s("kimi"),
        tool: s("write"),
        summary: s("writes a file"),
        approved,
        created_at: Timestamp::new(0, 0).unwrap(),
    }
}

fn tool(name: &str, schema: &str) -> ToolInfo {
    ToolInfo {
        name: s(name),
        description: s("does it"),
        input_schema: Json::parse(schema).unwrap(),
    }
}

#[test]
fn the_token_is_trimmed() {
    assert_eq!(default_bearer_token(&Some(s("  abc\n"))), "abc");
    assert_eq!(default_bearer_token(&Some(s("\n"))), "");
    assert_eq!(default_bearer_token(&None), "");
    assert_eq!(token_file(), ".gfb/agents/kimi-desktop.token");
}

#[test]
fn default_paths() {
    assert_eq!(default_audit_path(&Some(s("/home/u"))), "/home/u/.gfb/audit.log");
    assert_eq!(default_audit_path(&Some(s("/"))), "/.gfb/audit.log");
    assert_eq!(default_audit_path(&Some(s(""))), ".gfb/audit.log");
    assert_eq!(default_audit_path(&None), ".gfb/audit.log");
    assert_eq!(default_pending_dir(&Some(s("/home/u"))), "/home/u/.gfb/pending");
    assert_eq!(default_pending_dir(&None), ".gfb/pending");
}

#[test]
fn paths_agree_with_std() {
    for home in ["/home/u", "/home/u/", "/", "", "relative"] {
        let joined = std::path::Path::new(home).join(".gfb/audit.log");
        assert_eq!(default_audit_path(&Some(s(home))), joined.to_string_lossy());
    }
}

#[test]
fn the_window_opens() {
    let (app, reqs) = App::new(Some(s(" tok\n")), Some(s("/home/u")), 0);
    assert_eq!(app.url, "http://127.0.0.1:18765");
    assert_eq!(app.token, "tok");
    assert_eq!(app.health, "(not checked yet)");
    assert_eq!(app.last_health, None);
    assert_eq!(app.last_poll, Some(0));
    assert_eq!(app.last_audit_poll, Some(0));
    assert_eq!(app.args_json, r#"{"path":"/tmp/x.txt"}"#);
    assert_eq!(app.audit_path, "/home/u/.gfb/audit.log");
    assert_eq!(app.audit_limit.entries(), 100);
    assert_eq!(app.pending_dir, "/home/u/.gfb/pending");
    assert!(app.tools.is_empty() && app.audit.is_empty() && app.pending.is_empty());
    assert!(app.tools_err.is_none() && app.audit_err.is_none() && app.pending_err.is_none());
    assert!(app.selected_tool.is_none() && app.selected_audit.is_none());
    assert!(app.call_status.is_none() && app.call_response.is_none());
    assert!(app.approve_status.is_none());
    assert_eq!(
        reqs,
        vec![
            Req::Healthz { url: s("http://127.0.0.1:18765") },
            Req::ReloadAudit { path: s("/home/u/.gfb/audit.log"), limit: 100 },
            Req::ReloadPending { dir: s("/home/u/.gfb/pending") },
        ]
    );
}

#[test]
fn refresh_asks_for_everything() {
    let app = opened();
    assert_eq!(
        app.refresh_all(),
        vec![
            app.dispatch_healthz(),
            Req::ListTools { url: s("http://127.0.0.1:18765"), token: s("tok") },
            app.dispatch_audit(),
            app.dispatch_pending(),
        ]
    );
}

const SECOND: u128 = 1_000_000_000;

#[test]
fn the_server_is_asked_every_five_seconds() {
    let mut app = opened();
    let ask = Some(app.dispatch_healthz());
    assert_eq!(app.poll(0), None);
    assert_eq!(app.poll(5 * SECOND), None);
    assert_eq!(app.poll(5 * SECOND + 1), ask);
    assert_eq!(app.last_poll, Some(5 * SECOND + 1));
    assert_eq!(app.drain_response(Resp::Healthz(Ok(s("ok\n"))), 6 * SECOND), None);
    assert_eq!(app.poll(10 * SECOND + 2), None);
    assert_eq!(app.poll(11 * SECOND), None);
    assert_eq!(app.poll(11 * SECOND + 1), ask);
    assert_eq!(app.poll(0), None);
    app.drain_response(Resp::Tools(Err(s("x"))), 12 * SECOND);
    assert_eq!(app.poll(16 * SECOND + 1), None);
    assert_eq!(app.poll(16 * SECOND + 2), ask);
}

#[test]
fn a_server_that_hangs_is_not_asked_again_at_once() {
    let mut app = opened();
    let mut asked = vec![];
    for frame in 0..1200u128 {
        let now = frame * SECOND / 60;
        for req in app.frame(vec![], now) {
            if matches!(req, Req::Healthz { .. }) {
                asked.push(now);
            }
        }
    }
    assert_eq!(asked.len(), 3);
    assert!(asked[0] > 5 * SECOND);
    for pair in asked.windows(2) {
        assert!(pair[1] > pair[0] + 5 * SECOND);
    }
}

#[test]
fn a_window_that_never_asked_asks_at_once() {
    let mut app = opened();
    app.last_poll = None;
    app.last_audit_poll = None;
    assert_eq!(app.frame(vec![], 0), vec![app.dispatch_healthz(), app.dispatch_audit()]);
    assert_eq!(app.frame(vec![], 1), vec![]);
}

#[test]
fn the_audit_log_is_read_every_three_seconds() {
    let mut app = opened();
    app.audit_path = s("/var/log/gfb");
    app.set_audit_limit(42);
    assert_eq!(app.poll_audit(0), None);
    assert_eq!(app.poll_audit(3 * SECOND), None);
    let ask = Some(Req::ReloadAudit { path: s("/var/log/gfb"), limit: 42 });
    assert_eq!(app.poll_audit(3 * SECOND + 1), ask);
    assert_eq!(app.last_audit_poll, Some(3 * SECOND + 1));
    assert_eq!(app.drain_response(Resp::Audit(Ok(vec![])), 4 * SECOND), None);
    assert_eq!(app.poll_audit(6 * SECOND + 1), None);
    assert_eq!(app.poll_audit(6 * SECOND + 2), ask);
}

#[test]
fn a_frame_takes_answers_in_before_it_asks() {
    let mut app = opened();
    let arrived = vec![
        (Resp::ApproveResult(Ok(s("done"))), 8 * SECOND),
        (Resp::Healthz(Ok(s("up"))), 8 * SECOND),
    ];
    let reqs = app.frame(arrived, 8 * SECOND);
    assert_eq!(reqs, vec![app.dispatch_pending(), app.dispatch_audit()]);
    assert_eq!(app.health, "✓ up");
    assert_eq!(app.last_poll, Some(0));
    assert_eq!(app.last_audit_poll, Some(8 * SECOND));
    let reqs = app.frame(vec![], 13 * SECOND + 1);
    assert_eq!(reqs, vec![app.dispatch_healthz(), app.dispatch_audit()]);
}

#[test]
fn the_limit_stays_in_its_range() {
    let mut app = opened();
    for (wanted, kept) in [(0, 10), (9, 10), (10, 10), (250, 250), (500, 500), (501, 500)] {
        app.set_audit_limit(wanted);
        assert_eq!(app.audit_limit.entries(), kept);
        let path = app.audit_path.to_string();
        assert_eq!(app.dispatch_audit(), Req::ReloadAudit { path, limit: kept });
    }
    assert_eq!(AuditLimit::new(usize::MAX).entries(), 500);
}

#[test]
fn health_is_reported() {
    let mut app = opened();
    app.drain_response(Resp::Healthz(Ok(s(" ok \n"))), 5);
    assert_eq!(app.health, "✓ ok");
    assert_eq!(app.last_health, Some(5));
    assert_eq!(app.server_label(), "server: ✓ ok");
    app.drain_response(Resp::Healthz(Err(s(" refused "))), 9);
    assert_eq!(app.health, "✗  refused ");
    assert_eq!(app.last_health, Some(9));
}

#[test]
fn the_first_tool_is_picked_where_none_is() {
    let mut app = opened();
    app.drain_response(Resp::Tools(Ok(vec![])), 0);
    assert_eq!(app.selected_tool, None);
    app.drain_response(Resp::Tools(Ok(vec![tool("a", "{}"), tool("b", "{}")])), 0);
    assert_eq!(app.selected_tool, Some(s("a")));
    assert_eq!(app.described_tool(), Some(&tool("a", "{}")));
    app.drain_response(Resp::Tools(Ok(vec![tool("b", "{}")])), 0);
    assert_eq!(app.selected_tool, Some(s("a")));
    assert_eq!(app.described_tool(), None);
    assert_eq!(app.tool_count(), 1);
}

#[test]
fn an_error_keeps_what_was_loaded() {
    let mut app = opened();
    app.drain_response(Resp::Tools(Ok(vec![tool("a", "{}")])), 0);
    app.drain_response(Resp::Tools(Err(s("no tools"))), 0);
    assert_eq!(app.tools.len(), 1);
    assert_eq!(app.tools_err, Some(s("no tools")));
    app.drain_response(Resp::Audit(Ok(vec![audit(1, "Success")])), 0);
    app.drain_response(Resp::Audit(Err(s("no log"))), 0);
    assert_eq!(app.audit.len(), 1);
    assert_eq!(app.audit_err, Some(s("no log")));
    app.drain_response(Resp::Pending(Ok(vec![pending("1", false)])), 0);
    app.drain_response(Resp::Pending(Err(s("no dir"))), 0);
    assert_eq!(app.pending.len(), 1);
    assert_eq!(app.pending_err, Some(s("no dir")));
    app.drain_response(Resp::Tools(Ok(vec![])), 0);
    app.drain_response(Resp::Audit(Ok(vec![])), 0);
    app.drain_response(Resp::Pending(Ok(vec![])), 0);
    assert!(app.tools.is_empty() && app.audit.is_empty() && app.pending.is_empty());
    assert!(app.tools_err.is_none() && app.audit_err.is_none() && app.pending_err.is_none());
}

#[test]
fn calls_are_reported() {
    let mut app = opened();
    let result = Ok(Json::parse(r#"{"a":1}"#).unwrap());
    assert_eq!(app.drain_response(Resp::CallResult { tool: s("read"), result }, 0), None);
    assert_eq!(app.call_status, Some(s("ok: read")));
    assert_eq!(app.call_response, Some(s("{\n  \"a\": 1\n}")));
    let result = Err(s("boom"));
    app.drain_response(Resp::CallResult { tool: s("write"), result }, 0);
    assert_eq!(app.call_status, Some(s("err: write")));
    assert_eq!(app.call_response, Some(s("boom")));
}

#[test]
fn an_approval_reloads_the_pending_ones() {
    let mut app = opened();
    let reload = Req::ReloadPending { dir: s("/home/u/.gfb/pending") };
    let req = app.drain_response(Resp::ApproveResult(Ok(s("approved 1\n"))), 0);
    assert_eq!(req, Some(reload));
    assert_eq!(app.approve_status, Some(s("✓ approved 1")));
    let req = app.drain_response(Resp::ApproveResult(Err(s("unknown id\n"))), 0);
    assert!(req.is_some());
    assert_eq!(app.approve_status, Some(s("✗ unknown id\n")));
}

#[test]
fn answers_leave_input_alone() {
    let mut app = opened();
    app.url = s("http://other");
    app.token = s("t2");
    app.args_json = s("{}");
    app.select_audit(3);
    app.drain_response(Resp::Healthz(Ok(s("ok"))), 0);
    app.drain_response(Resp::Audit(Ok(vec![audit(1, "Success")])), 0);
    app.drain_response(Resp::ApproveResult(Ok(s("ok"))), 0);
    assert_eq!(app.url, "http://other");
    assert_eq!(app.token, "t2");
    assert_eq!(app.args_json, "{}");
    assert_eq!(app.selected_audit, Some(3));
    assert_eq!(app.audit_limit.entries(), 100);
}

#[test]
fn answers_are_taken_in_together_or_apart() {
    let arrived = || {
        vec![
            (Resp::Healthz(Ok(s("up"))), 3),
            (Resp::ApproveResult(Ok(s("done"))), 4),
            (Resp::Healthz(Err(s("down"))), 5),
            (Resp::ApproveResult(Err(s("late"))), 6),
        ]
    };
    let mut one = opened();
    let asked = one.drain_responses(arrived());
    assert_eq!(asked, vec![one.dispatch_pending(), one.dispatch_pending()]);
    assert_eq!(one.health, "✗ down");
    assert_eq!(one.last_health, Some(5));
    assert_eq!(one.approve_status, Some(s("✗ late")));
    let mut two = opened();
    let mut rest = arrived();
    let back = rest.split_off(2);
    let mut parts = two.drain_responses(rest);
    parts.append(&mut two.drain_responses(back));
    assert_eq!(parts, asked);
    assert_eq!(two.health, one.health);
    assert_eq!(two.approve_status, one.approve_status);
    assert_eq!(two.drain_responses(vec![]), vec![]);
}

#[test]
fn answers_about_different_things_come_in_either_order() {
    let mut one = opened();
    one.drain_response(Resp::Healthz(Ok(s("ok"))), 1);
    one.drain_response(Resp::Audit(Ok(vec![audit(1, "Denied")])), 2);
    let mut two = opened();
    two.drain_response(Resp::Audit(Ok(vec![audit(1, "Denied")])), 2);
    two.drain_response(Resp::Healthz(Ok(s("ok"))), 1);
    assert_eq!(one.health, two.health);
    assert_eq!(one.last_health, two.last_health);
    assert_eq!(one.audit, two.audit);
}

#[test]
fn a_call_needs_a_tool() {
    let app = opened();
    assert_eq!(app.dispatch_call(), None);
}

#[test]
fn a_call_takes_the_arguments_typed_in() {
    let mut app = opened();
    app.selected_tool = Some(s("read"));
    app.args_json = s(r#"{"path":"/etc"}"#);
    let args = Json::parse(r#"{"path":"/etc"}"#).unwrap();
    let url = s("http://127.0.0.1:18765");
    assert_eq!(
        app.dispatch_call(),
        Some(Req::CallTool { url, token: s("tok"), tool: s("read"), args })
    );
}

#[test]
fn arguments_that_are_no_json_are_left_out() {
    let mut app = opened();
    app.selected_tool = Some(s("read"));
    app.args_json = s("{oops");
    let url = s("http://127.0.0.1:18765");
    let args = Json::Object(vec![]);
    let expected = Some(Req::CallTool { url, token: s("tok"), tool: s("read"), args });
    assert_eq!(app.dispatch_call(), expected);
    assert_eq!(app.call_with(None), expected);
}

#[test]
fn only_what_is_not_approved_can_be_approved() {
    let mut app = opened();
    app.pending = vec![pending("one", true), pending("two", false)];
    assert_eq!(app.approve(0), None);
    assert_eq!(app.approve(1), Some(Req::Approve { op_id: s("two"), ttl_secs: 300 }));
    assert_eq!(app.approve(2), None);
}

#[test]
fn the_selected_entry() {
    let mut app = opened();
    assert_eq!(app.selected_entry(), None);
    app.audit = vec![audit(1, "Success"), audit(2, "Denied")];
    app.select_audit(1);
    assert_eq!(app.selected_entry(), Some(&audit(2, "Denied")));
    app.select_audit(2);
    assert_eq!(app.selected_entry(), None);
}

#[test]
fn choosing_a_tool() {
    let mut app = opened();
    app.tools = vec![tool("a", "{}"), tool("b", "{}")];
    assert_eq!(app.tool_label(), "(none loaded)");
    app.select_tool(1);
    assert_eq!(app.tool_label(), "b");
    app.select_tool(7);
    assert_eq!(app.tool_label(), "b");
    assert_eq!(
        app.tool_rows(),
        vec![
            ToolRow { name: s("a"), selected: false },
            ToolRow { name: s("b"), selected: true },
        ]
    );
}

#[test]
fn the_schema_suggests_arguments() {
    let mut app = opened();
    app.copy_schema();
    assert_eq!(app.args_json, r#"{"path":"/tmp/x.txt"}"#);
    app.tools = vec![tool("a", r#"{"properties":{"path":{}}}"#), tool("b", "[]")];
    app.select_tool(0);
    app.copy_schema();
    assert_eq!(app.args_json, "{\n  \"path\": {}\n}");
    app.select_tool(1);
    app.copy_schema();
    assert_eq!(app.args_json, "{}");
}

#[test]
fn the_first_tool_of_a_name_counts() {
    let mut app = opened();
    app.tools = vec![tool("a", "1"), tool("a", "2")];
    app.select_tool(1);
    assert_eq!(app.described_tool(), Some(&tool("a", "1")));
}

#[test]
fn status_colours() {
    assert_eq!(tint_of(&s("Success")), Tint::Green);
    assert_eq!(tint_of(&s("Denied")), Tint::Red);
    assert_eq!(tint_of(&s("Pending")), Tint::Yellow);
    assert_eq!(tint_of(&s("success")), Tint::Gray);
    assert_eq!(tint_of(&s("")), Tint::Gray);
}

#[test]
fn rows_of_the_audit_log() {
    let mut app = opened();
    app.audit = vec![audit(1_700_000_000, "Success"), audit(0, "Odd")];
    app.select_audit(1);
    let rows = app.audit_rows();
    assert_eq!(rows.len(), 2);
    assert_eq!(rows[0].when, "22:13:20");
    assert_eq!(rows[0].agent, "kimi");
    assert_eq!(rows[0].operation, "write");
    assert_eq!(rows[0].status, "Success");
    assert_eq!(rows[0].tint, Tint::Green);
    assert_eq!(rows[0].target, "/tmp/x");
    assert!(!rows[0].selected);
    assert_eq!(rows[1].when, "00:00:00");
    assert_eq!(rows[1].tint, Tint::Gray);
    assert!(rows[1].selected);
}

#[test]
fn detail_of_an_entry() {
    let mut entry = audit(1_431_648_000, "Success");
    let detail = entry.detail();
    assert_eq!(detail.time, "Time: 2015-05-15 00:00:00 UTC  •  duration 12ms");
    assert_eq!(detail.hashes, None);
    assert_eq!(detail.diff, None);
    entry.before_hash = Some(s("0123456789abcdefXYZ"));
    assert_eq!(entry.detail().hashes, None);
    entry.after_hash = Some(s("short"));
    entry.diff = Some(s("+a\n-b"));
    let detail = entry.detail();
    assert_eq!(detail.hashes, Some(s("before: 0123456789abcdef  →  after: short")));
    assert_eq!(detail.diff, Some(s("+a\n-b")));
}

#[test]
fn rows_of_the_pending_approvals() {
    let row = pending("0123456789", false).row();
    assert_eq!(row.state, "pending");
    assert_eq!(row.tint, Tint::Yellow);
    assert_eq!(row.label, "01234567 • kimi → write");
    assert_eq!(row.summary, "writes a file");
    assert!(row.can_approve);
    let row = pending("é", true).row();
    assert_eq!(row.state, "approved");
    assert_eq!(row.tint, Tint::Green);
    assert_eq!(row.label, "é • kimi → write");
    assert!(!row.can_approve);
}

#[test]
fn notes_and_errors() {
    let mut app = opened();
    assert_eq!(app.pending_note(), Some(s("(none)")));
    app.pending = vec![pending("1", false)];
    assert_eq!(app.pending_note(), None);
    assert_eq!(error_label("boom"), "error: boom");
    assert_eq!(time_label("today", 12), "Time: today  •  duration 12ms");
}

#[test]
fn the_approve_command() {
    let command = approve_command("op-1", 300);
    assert_eq!(command.program, "gfb");
    assert_eq!(command.args, vec!["approve", "--operation-id", "op-1"]);
    assert_eq!(command.env_name, "GFB_APPROVE_TTL_SECS");
    assert_eq!(command.env_value, "300");
}

#[test]
fn outcomes_of_an_approval() {
    let run = |success| RunOutput { success, stdout: b"done\n".to_vec(), stderr: b"no\n".to_vec() };
    assert_eq!(do_approve(Ok(run(true))), Ok(s("done\n")));
    assert_eq!(do_approve(Ok(run(false))), Err(s("no\n")));
    assert_eq!(
        do_approve(Err(s("not found"))),
        Err(s("failed to run `gfb approve`: not found"))
    );
    let odd = RunOutput { success: true, stdout: b"a\xffb".to_vec(), stderr: vec![] };
    assert_eq!(do_approve(Ok(odd)), Ok(s("a\u{fffd}b")));
}

#[test]
fn the_work_of_each_request() {
    let work = Req::Healthz { url: s("http://h/") }.work();
    assert_eq!(work, Work::Healthz { get: healthz_request("http://h") });
    let work = Req::ListTools { url: s("http://h"), token: s("t") }.work();
    assert_eq!(work, Work::ListTools { post: list_tools_request("http://h", "t") });
    let work = Req::CallTool {
        url: s("http://h"),
        token: s("t"),
        tool: s("read"),
        args: Json::Null,
    }
    .work();
    let post = call_tool_request("http://h", "t", "read", Json::Null);
    assert_eq!(work, Work::CallTool { tool: s("read"), post });
    let work = Req::ReloadAudit { path: s("/log"), limit: 7 }.work();
    assert_eq!(work, Work::ReadAudit { path: s("/log"), limit: 7 });
    let work = Req::ReloadPending { dir: s("/p") }.work();
    assert_eq!(work, Work::ReadPending { dir: s("/p") });
    let work = Req::Approve { op_id: s("x"), ttl_secs: 5 }.work();
    assert_eq!(work, Work::Approve { command: approve_command("x", 5) });
}

#[test]
fn each_request_is_answered_in_kind() {
    let resp = handle(Done::Healthz { body: Ok(Some(s("ok"))) });
    assert_eq!(resp, Resp::Healthz(Ok(s("ok"))));
    let resp = handle(Done::ListTools { reply: Err(s("x")) });
    assert_eq!(resp, Resp::Tools(Err(s("x"))));
    let resp = handle(Done::CallTool { tool: s("read"), reply: Ok(b"{\"result\":1}".to_vec()) });
    let result = Ok(Json::parse("1").unwrap());
    assert_eq!(resp, Resp::CallResult { tool: s("read"), result });
    let log = Fetched::Found(vec![Some(audit(1, "a")), None, Some(audit(2, "b"))]);
    let resp = handle(Done::ReadAudit { log, limit: 1 });
    assert_eq!(resp, Resp::Audit(Ok(vec![audit(2, "b")])));
    let entry = Some(pending("1", false));
    let file = Some(PendingFile { extension: Some(s("json")), entry });
    let resp = handle(Done::ReadPending { directory: Fetched::Found(vec![file, None]) });
    assert_eq!(resp, Resp::Pending(Ok(vec![pending("1", false)])));
    let run = RunOutput { success: false, stdout: vec![], stderr: b"bad".to_vec() };
    let resp = handle(Done::Approve { run: Ok(run) });
    assert_eq!(resp, Resp::ApproveResult(Err(s("bad"))));
}
