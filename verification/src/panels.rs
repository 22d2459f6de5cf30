//! What the panels of the window show.

use crate::records::{option_view, AuditEntry, PendingEntry};
use crate::state::App;
use crate::text::{decimal, decimal_text, head, head_is_whole, short_form};
use crate::time::{clock_text, date_text};
use vstd::prelude::*;

verus! {

/// A colour that tells how something stands.
#[derive(Clone, Copy, Debug, PartialEq, Eq, Structural)]
pub enum Tint {
    Green,
    Red,
    Yellow,
    Gray,
}

/// The colour of an audit status.
pub open spec fn status_tint(status: Seq<char>) -> Tint {
    if status == "Success"@ {
        Tint::Green
    } else if status == "Denied"@ {
        Tint::Red
    } else if status == "Pending"@ {
        Tint::Yellow
    } else {
        Tint::Gray
    }
}

/// The colour of an audit status.
pub fn tint_of(status: &String) -> (tint: Tint)
    ensures
        tint == status_tint(status@),
{
    if *status == "Success".to_owned() {
        Tint::Green
    } else if *status == "Denied".to_owned() {
        Tint::Red
    } else if *status == "Pending".to_owned() {
        Tint::Yellow
    } else {
        Tint::Gray
    }
}

/// A row of the audit log.
#[derive(Debug, PartialEq, Eq)]
pub struct AuditRow {
    pub when: String,
    pub agent: String,
    pub operation: String,
    pub status: String,
    pub tint: Tint,
    pub target: String,
    /// Whether the row is the selected one.
    pub selected: bool,
}

/// `row` shows `entry`.
pub open spec fn shows_entry(row: AuditRow, entry: AuditEntry, selected: bool) -> bool {
    &&& row.when@ == clock_text(entry.timestamp@)
    &&& row.agent@ == entry.agent_id@
    &&& row.operation@ == entry.operation@
    &&& row.status@ == entry.status@
    &&& row.tint == status_tint(entry.status@)
    &&& row.target@ == entry.target_path@
    &&& row.selected == selected
}

/// What is shown of the selected entry of the audit log.
#[derive(Debug, PartialEq, Eq)]
pub struct AuditDetail {
    pub time: String,
    /// The short forms of the hashes, if both are known.
    pub hashes: Option<String>,
    pub diff: Option<String>,
}

/// How many bytes of a hash are shown.
pub const HASH_BYTES: usize = 16;

/// How many bytes of an operation's name are shown.
pub const OP_ID_BYTES: usize = 8;

/// The hashes of `entry` can be cut to their short forms.
pub open spec fn hashes_are_whole(entry: AuditEntry) -> bool {
    match (entry.before_hash, entry.after_hash) {
        (Some(before), Some(after)) => head_is_whole(before@, HASH_BYTES as nat) && head_is_whole(
            after@,
            HASH_BYTES as nat,
        ),
        _ => true,
    }
}

/// The hashes of `entry` in short, if both are known.
pub open spec fn hashes_line(entry: AuditEntry) -> Option<Seq<char>> {
    match (entry.before_hash, entry.after_hash) {
        (Some(before), Some(after)) => Some(
            "before: "@ + head(before@, HASH_BYTES as nat) + "  →  after: "@ + head(
                after@,
                HASH_BYTES as nat,
            ),
        ),
        _ => None,
    }
}

/// How the time of an entry and how long it took are shown.
pub open spec fn time_line(date: Seq<char>, duration_ms: nat) -> Seq<char> {
    "Time: "@ + date + "  •  duration "@ + decimal(duration_ms) + "ms"@
}

/// How the time of an entry, given as `date`, and how long it took are shown.
pub fn time_label(date: &str, duration_ms: u64) -> (label: String)
    ensures
        label@ == time_line(date@, duration_ms as nat),
{
    let mut label = "Time: ".to_owned();
    label.append(date);
    label.append("  •  duration ");
    label.append(decimal_text(duration_ms).as_str());
    label.append("ms");
    label
}

impl AuditEntry {
    /// What is shown of this entry when it is selected.
    pub fn detail(&self) -> (detail: AuditDetail)
        requires
            hashes_are_whole(*self),
        ensures
            detail.time@ == time_line(
                date_text(self.timestamp@.secs, self.timestamp@.nanos),
                self.duration_ms as nat,
            ),
            option_view(detail.hashes) == hashes_line(*self),
            option_view(detail.diff) == option_view(self.diff),
    {
        let time = time_label(self.timestamp.date_and_time().as_str(), self.duration_ms);
        let hashes = match (&self.before_hash, &self.after_hash) {
            (Some(before), Some(after)) => {
                let mut line = "before: ".to_owned();
                line.append(short_form(before.as_str(), HASH_BYTES).as_str());
                line.append("  →  after: ");
                line.append(short_form(after.as_str(), HASH_BYTES).as_str());
                Some(line)
            },
            _ => None,
        };
        let diff = match &self.diff {
            Some(text) => Some(text.clone()),
            None => None,
        };
        AuditDetail { time, hashes, diff }
    }
}

/// A row of the pending approvals.
#[derive(Debug, PartialEq, Eq)]
pub struct PendingRow {
    pub state: String,
    pub tint: Tint,
    pub label: String,
    pub summary: String,
    /// Whether the operation can still be approved.
    pub can_approve: bool,
}

impl PendingEntry {
    /// The row that shows this operation.
    pub fn row(&self) -> (row: PendingRow)
        requires
            head_is_whole(self.op_id@, OP_ID_BYTES as nat),
        ensures
            row.state@ == if self.approved {
                "approved"@
            } else {
                "pending"@
            },
            row.tint == if self.approved {
                Tint::Green
            } else {
                Tint::Yellow
            },
            row.label@ == head(self.op_id@, OP_ID_BYTES as nat) + " • "@ + self.agent_id@ + " → "@
                + self.tool@,
            row.summary@ == self.summary@,
            row.can_approve == !self.approved,
    {
        let mut label = short_form(self.op_id.as_str(), OP_ID_BYTES);
        label.append(" • ");
        label.append(self.agent_id.as_str());
        label.append(" → ");
        label.append(self.tool.as_str());
        let (state, tint) = if self.approved {
            ("approved".to_owned(), Tint::Green)
        } else {
            ("pending".to_owned(), Tint::Yellow)
        };
        PendingRow {
            state,
            tint,
            label,
            summary: self.summary.clone(),
            can_approve: !self.approved,
        }
    }
}

/// A tool to choose.
#[derive(Debug, PartialEq, Eq)]
pub struct ToolRow {
    pub name: String,
    /// Whether the tool is the selected one.
    pub selected: bool,
}

/// How an error is shown.
pub fn error_label(error: &str) -> (label: String)
    ensures
        label@ == "error: "@ + error@,
{
    let mut label = "error: ".to_owned();
    label.append(error);
    label
}

impl App {
    /// How the state of the server is shown.
    pub fn server_label(&self) -> (label: String)
        ensures
            label@ == "server: "@ + self@.health,
    {
        let mut label = "server: ".to_owned();
        label.append(self.health.as_str());
        label
    }

    /// How many tools the server listed.
    pub fn tool_count(&self) -> (count: usize)
        ensures
            count == self@.tools.len(),
    {
        self.tools.len()
    }

    /// The rows of the audit log, in order.
    pub fn audit_rows(&self) -> (rows: Vec<AuditRow>)
        ensures
            rows@.len() == self@.audit.len(),
            forall|i: int|
                0 <= i < rows@.len() ==> shows_entry(
                    #[trigger] rows@[i],
                    self@.audit[i],
                    self@.selected_audit == Some(i as nat),
                ),
    {
        let mut rows: Vec<AuditRow> = Vec::new();
        for i in 0..self.audit.len()
            invariant
                rows@.len() == i,
                forall|j: int|
                    0 <= j < i ==> shows_entry(
                        #[trigger] rows@[j],
                        self@.audit[j],
                        self@.selected_audit == Some(j as nat),
                    ),
        {
            let entry = &self.audit[i];
            let selected = match self.selected_audit {
                Some(k) => k == i,
                None => false,
            };
            rows.push(
                AuditRow {
                    when: entry.timestamp.clock(),
                    agent: entry.agent_id.clone(),
                    operation: entry.operation.clone(),
                    status: entry.status.clone(),
                    tint: tint_of(&entry.status),
                    target: entry.target_path.clone(),
                    selected,
                },
            );
        }
        rows
    }

    /// What is shown where no operation is pending.
    pub fn pending_note(&self) -> (note: Option<String>)
        ensures
            option_view(note) == if self@.pending.len() == 0 {
                Some("(none)"@)
            } else {
                None
            },
    {
        if self.pending.len() == 0 {
            Some("(none)".to_owned())
        } else {
            None
        }
    }

    /// The tools to choose from, in order.
    pub fn tool_rows(&self) -> (rows: Vec<ToolRow>)
        ensures
            rows@.len() == self@.tools.len(),
            forall|i: int|
                #![trigger rows@[i]]
                0 <= i < rows@.len() ==> rows@[i].name@ == self@.tools[i].name && rows@[i].selected
                    == (self@.selected_tool == Some(self@.tools[i].name)),
    {
        let mut rows: Vec<ToolRow> = Vec::new();
        for i in 0..self.tools.len()
            invariant
                rows@.len() == i,
                forall|j: int|
                    #![trigger rows@[j]]
                    0 <= j < i ==> rows@[j].name@ == self@.tools[j].name && rows@[j].selected == (
                    self@.selected_tool == Some(self@.tools[j].name)),
        {
            let name = self.tools[i].name.clone();
            let selected = match &self.selected_tool {
                Some(chosen) => *chosen == name,
                None => false,
            };
            assert(self@.tools[i as int].name == name@);
            rows.push(ToolRow { name, selected });
        }
        rows
    }

    /// The name of the selected tool, or that there is none.
    pub fn tool_label(&self) -> (label: String)
        ensures
            label@ == match self@.selected_tool {
                Some(name) => name,
                None => "(none loaded)"@,
            },
    {
        match &self.selected_tool {
            Some(name) => name.clone(),
            None => "(none loaded)".to_owned(),
        }
    }
}

/// Success is green, a denial red, what is pending yellow, and anything else, in other letters or
/// with more of them, gray.
pub proof fn law_status_tint(status: Seq<char>)
    ensures
        status_tint(status) == Tint::Green <==> status == "Success"@,
        status_tint(status) == Tint::Red <==> status == "Denied"@,
        status_tint(status) == Tint::Yellow <==> status == "Pending"@,
        status_tint(status) == Tint::Gray <==> status != "Success"@ && status != "Denied"@ && status
            != "Pending"@,
{
    reveal_strlit("Success");
    reveal_strlit("Denied");
    reveal_strlit("Pending");
    assert("Success"@[0] != "Pending"@[0]);
}

/// A row of the audit log shows the time of day, the agent, the operation, the status and the
/// target of its entry, as they are.
pub proof fn law_row_shows_its_entry(row: AuditRow, entry: AuditEntry, selected: bool)
    ensures
        shows_entry(row, entry, selected) <==> {
            &&& row.when@ == clock_text(entry.timestamp@)
            &&& row.agent@ == entry.agent_id@
            &&& row.operation@ == entry.operation@
            &&& row.status@ == entry.status@
            &&& row.target@ == entry.target_path@
            &&& row.selected == selected
            &&& row.tint == Tint::Green <==> entry.status@ == "Success"@
            &&& row.tint == Tint::Red <==> entry.status@ == "Denied"@
            &&& row.tint == Tint::Yellow <==> entry.status@ == "Pending"@
        },
{
    law_status_tint(entry.status@);
}

/// The hashes are shown exactly where both are known, the earlier one first, each down to its first
/// sixteen bytes; they can be shown where neither cut falls inside a character.
pub proof fn law_hashes(entry: AuditEntry)
    ensures
        entry.before_hash is None || entry.after_hash is None ==> hashes_line(entry) is None
            && hashes_are_whole(entry),
        entry.before_hash is Some && entry.after_hash is Some ==> {
            &&& hashes_line(entry) == Some(
                "before: "@ + head(entry.before_hash->0@, 16) + "  →  after: "@ + head(
                    entry.after_hash->0@,
                    16,
                ),
            )
            &&& hashes_are_whole(entry) <==> head_is_whole(entry.before_hash->0@, 16)
                && head_is_whole(entry.after_hash->0@, 16)
        },
{
}

/// The line on an entry's time holds the date and the duration in milliseconds.
pub proof fn law_time_line(date: Seq<char>, duration_ms: nat)
    ensures
        time_line(date, duration_ms) == "Time: "@ + date + "  •  duration "@ + decimal(duration_ms)
            + "ms"@,
        crate::text::digits_value(decimal(duration_ms)) == duration_ms,
{
    crate::text::law_decimal_stands_for_its_number(duration_ms);
}

/// The audit table has a row for every entry, in order, that shows it; the selected row is marked
/// and no other.
pub proof fn law_showing_the_audit_log(app: &App, rows: Vec<AuditRow>)
    requires
        call_ensures(App::audit_rows, (app,), rows),
    ensures
        rows@.len() == app.audit@.len(),
        forall|i: int|
            #![trigger rows@[i]]
            0 <= i < rows@.len() ==> {
                &&& rows@[i].when@ == clock_text(app.audit@[i].timestamp@)
                &&& rows@[i].agent@ == app.audit@[i].agent_id@
                &&& rows@[i].operation@ == app.audit@[i].operation@
                &&& rows@[i].status@ == app.audit@[i].status@
                &&& rows@[i].target@ == app.audit@[i].target_path@
                &&& rows@[i].selected <==> app.selected_audit is Some && app.selected_audit->0 == i
                &&& rows@[i].tint == Tint::Green <==> app.audit@[i].status@ == "Success"@
                &&& rows@[i].tint == Tint::Red <==> app.audit@[i].status@ == "Denied"@
                &&& rows@[i].tint == Tint::Yellow <==> app.audit@[i].status@ == "Pending"@
            },
{
    assert forall|i: int|
        #![trigger rows@[i]]
        0 <= i < rows@.len() implies {
        &&& rows@[i].when@ == clock_text(app.audit@[i].timestamp@)
        &&& rows@[i].agent@ == app.audit@[i].agent_id@
        &&& rows@[i].operation@ == app.audit@[i].operation@
        &&& rows@[i].status@ == app.audit@[i].status@
        &&& rows@[i].target@ == app.audit@[i].target_path@
        &&& rows@[i].selected <==> app.selected_audit is Some && app.selected_audit->0 == i
        &&& rows@[i].tint == Tint::Green <==> app.audit@[i].status@ == "Success"@
        &&& rows@[i].tint == Tint::Red <==> app.audit@[i].status@ == "Denied"@
        &&& rows@[i].tint == Tint::Yellow <==> app.audit@[i].status@ == "Pending"@
    } by {
        law_row_shows_its_entry(rows@[i], app.audit@[i], app@.selected_audit == Some(i as nat));
    }
}

/// The selected entry is shown with its date, its duration, its hashes where both are known, and
/// its diff where it has one, as it is.
pub proof fn law_showing_an_entry(entry: &AuditEntry, detail: AuditDetail)
    requires
        call_ensures(AuditEntry::detail, (entry,), detail),
    ensures
        detail.time@ == "Time: "@ + date_text(entry.timestamp@.secs, entry.timestamp@.nanos)
            + "  •  duration "@ + decimal(entry.duration_ms as nat) + "ms"@,
        detail.hashes is Some <==> entry.before_hash is Some && entry.after_hash is Some,
        detail.hashes matches Some(line) ==> line@ == "before: "@ + head(entry.before_hash->0@, 16)
            + "  →  after: "@ + head(entry.after_hash->0@, 16),
        detail.diff is Some <==> entry.diff is Some,
        detail.diff matches Some(text) ==> text@ == entry.diff->0@,
{
    law_hashes(*entry);
}

/// A pending approval is shown with how it stands, the first eight bytes of its id, who asked for
/// it, with what tool, and its summary; it can be approved exactly where it is not approved yet.
pub proof fn law_showing_an_approval(entry: &PendingEntry, row: PendingRow)
    requires
        call_ensures(PendingEntry::row, (entry,), row),
    ensures
        entry.approved ==> row.state@ == "approved"@ && row.tint == Tint::Green && !row.can_approve,
        !entry.approved ==> row.state@ == "pending"@ && row.tint == Tint::Yellow && row.can_approve,
        row.label@ == head(entry.op_id@, 8) + " • "@ + entry.agent_id@ + " → "@ + entry.tool@,
        row.summary@ == entry.summary@,
{
}

/// Every loaded tool can be chosen, in order and by its name; the selected one is marked, and its
/// name is shown whether or not it is loaded.
pub proof fn law_showing_the_tools(app: &App, rows: Vec<ToolRow>, label: String, count: usize)
    requires
        call_ensures(App::tool_rows, (app,), rows),
        call_ensures(App::tool_label, (app,), label),
        call_ensures(App::tool_count, (app,), count),
    ensures
        count == app.tools@.len(),
        rows@.len() == app.tools@.len(),
        forall|i: int|
            #![trigger rows@[i]]
            0 <= i < rows@.len() ==> rows@[i].name@ == app.tools@[i].name@ && (rows@[i].selected
                <==> app.selected_tool is Some && app.selected_tool->0@ == app.tools@[i].name@),
        app.selected_tool matches Some(name) ==> label@ == name@,
        app.selected_tool is None ==> label@ == "(none loaded)"@,
{
}

/// The state of the server, an error and an empty list of approvals are shown as what they are.
pub proof fn law_showing_notes(
    app: &App,
    error: &str,
    server: String,
    label: String,
    note: Option<String>,
)
    requires
        call_ensures(App::server_label, (app,), server),
        call_ensures(error_label, (error,), label),
        call_ensures(App::pending_note, (app,), note),
    ensures
        server@ == "server: "@ + app.health@,
        label@ == "error: "@ + error@,
        note is Some <==> app.pending@.len() == 0,
        note matches Some(text) ==> text@ == "(none)"@,
{
}

} // verus!
