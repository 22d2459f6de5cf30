//! The audit log and the pending approvals, as they are read from disk.

use crate::order::{newest_first, sort_newest_first, Dated};
use crate::text::{split_lines, strings_view, text_lines, trim, trimmed, without_return};
use crate::time::{TimeView, Timestamp};
use vstd::prelude::*;

verus! {

/// One entry of the audit log.
#[derive(Debug, PartialEq, Eq)]
pub struct AuditEntry {
    pub timestamp: Timestamp,
    pub agent_id: String,
    pub operation: String,
    pub target_path: String,
    pub status: String,
    pub duration_ms: u64,
    pub before_hash: Option<String>,
    pub after_hash: Option<String>,
    pub diff: Option<String>,
}

/// An operation that waits for approval, or was approved.
#[derive(Debug, PartialEq, Eq)]
pub struct PendingEntry {
    pub op_id: String,
    pub agent_id: String,
    pub tool: String,
    pub summary: String,
    pub approved: bool,
    pub created_at: Timestamp,
}

impl Dated for AuditEntry {
    open spec fn when(&self) -> TimeView {
        self.timestamp@
    }

    fn timestamp(&self) -> (time: Timestamp) {
        self.timestamp
    }
}

impl Dated for PendingEntry {
    open spec fn when(&self) -> TimeView {
        self.created_at@
    }

    fn timestamp(&self) -> (time: Timestamp) {
        self.created_at
    }
}

/// What became of an attempt to read a file or a directory.
#[derive(Debug, PartialEq, Eq)]
pub enum Fetched<T> {
    /// There is no such file or directory.
    Missing,
    /// It could not be read, and why.
    Failed(String),
    /// What it holds.
    Found(T),
}

/// What could be made sense of, in order.
pub open spec fn understood<E>(parsed: Seq<Option<E>>) -> Seq<E> {
    parsed.filter_map(|entry: Option<E>| entry)
}

/// What could be made sense of, in order.
fn keep_understood<E>(parsed: Vec<Option<E>>) -> (entries: Vec<E>)
    ensures
        entries@ == understood(parsed@),
{
    let mut entries: Vec<E> = Vec::new();
    let ghost same = |entry: Option<E>| entry;
    let ghost all = parsed@;
    assert(all.take(0) =~= Seq::empty());
    assert(entries@ =~= all.take(0).filter_map(same));
    for entry in it: parsed
        invariant
            it.seq() == all,
            same == (|entry: Option<E>| entry),
            entries@ == all.take(it.index() as int).filter_map(same),
    {
        let ghost n = it.index() as int;
        let ghost before = entries@;
        assert(all.take(n + 1).drop_last() =~= all.take(n));
        match entry {
            Some(e) => {
                entries.push(e);
                assert(before + seq![e] =~= entries@);
            },
            None => {},
        }
    }
    assert(all.take(all.len() as int) =~= all);
    entries
}

/// The lines of the audit log that hold something besides white space, in order.
pub open spec fn audit_log_lines(body: Seq<char>) -> Seq<Seq<char>> {
    text_lines(body).filter(|line: Seq<char>| trimmed(line).len() > 0)
}

/// The lines of the audit log that hold something besides white space, in order.
pub fn audit_lines(body: &str) -> (lines: Vec<String>)
    ensures
        strings_view(lines@) == audit_log_lines(body@),
{
    let all = split_lines(body);
    let mut lines: Vec<String> = Vec::new();
    let ghost views = text_lines(body@);
    let ghost wanted = |line: Seq<char>| trimmed(line).len() > 0;
    proof {
        reveal(Seq::filter);
        assert(views.take(0) =~= Seq::empty());
        assert(strings_view(lines@) =~= views.take(0).filter(wanted));
    }
    for line in it: all
        invariant
            it.seq() == all@,
            views == strings_view(all@),
            wanted == (|line: Seq<char>| trimmed(line).len() > 0),
            strings_view(lines@) == views.take(it.index() as int).filter(wanted),
    {
        let ghost n = it.index() as int;
        let ghost before = strings_view(lines@);
        proof {
            reveal(Seq::filter);
            assert(views[n] == line@);
            assert(views.take(n + 1).drop_last() =~= views.take(n));
        }
        if !trim(line.as_str()).as_str().is_empty() {
            lines.push(line);
            assert(strings_view(lines@) =~= before.push(line@));
        }
    }
    assert(views.take(views.len() as int) =~= views);
    lines
}

/// How many of `len` entries a limit leaves.
pub open spec fn at_most(limit: nat, len: nat) -> int {
    if limit < len {
        limit as int
    } else {
        len as int
    }
}

/// `shown` are the newest of `entries`, newest first: all of them, or `limit` where there are more.
pub open spec fn newest_shown(
    shown: Seq<AuditEntry>,
    entries: Seq<AuditEntry>,
    limit: nat,
) -> bool {
    exists|all: Seq<AuditEntry>| #[trigger]
        newest_first(all, entries) && shown == all.take(at_most(limit, all.len()))
}

/// The audit log as it is shown: at most `limit` entries, newest first. A line that made no sense
/// is passed over; a log that is not there is empty.
pub fn do_read_audit(log: Fetched<Vec<Option<AuditEntry>>>, limit: usize) -> (outcome: Result<
    Vec<AuditEntry>,
    String,
>)
    ensures
        match log {
            Fetched::Missing => outcome matches Ok(shown) && shown@ == Seq::<AuditEntry>::empty(),
            Fetched::Failed(text) => outcome == Err::<Vec<AuditEntry>, String>(text),
            Fetched::Found(parsed) => outcome matches Ok(shown) && newest_shown(
                shown@,
                understood(parsed@),
                limit as nat,
            ),
        },
{
    match log {
        Fetched::Missing => Ok(Vec::new()),
        Fetched::Failed(text) => Err(text),
        Fetched::Found(parsed) => {
            let entries = keep_understood(parsed);
            let mut shown = sort_newest_first(entries);
            let ghost all = shown@;
            shown.truncate(limit);
            proof {
                assert(newest_first(all, understood(parsed@)));
                assert(shown@ =~= all.take(at_most(limit as nat, all.len())));
            }
            Ok(shown)
        },
    }
}

/// A file in the directory of pending approvals.
#[derive(Debug, PartialEq, Eq)]
pub struct PendingFile {
    /// The extension of the file's name, if it has one that is text.
    pub extension: Option<String>,
    /// What the file holds, if it was read and made sense.
    pub entry: Option<PendingEntry>,
}

/// Whether a file with this extension is to be read: only `json` is.
pub open spec fn holds_pending(extension: Option<Seq<char>>) -> bool {
    extension == Some("json"@)
}

/// What an optional text stands for.
pub open spec fn option_view(text: Option<String>) -> Option<Seq<char>> {
    match text {
        Some(t) => Some(t@),
        None => None,
    }
}

/// Whether a file with this extension is to be read: only `json` is.
pub fn is_pending_file(extension: &Option<String>) -> (answer: bool)
    ensures
        answer == holds_pending(option_view(*extension)),
{
    match extension {
        Some(e) => *e == "json".to_owned(),
        None => false,
    }
}

/// The pending approval that a file in the directory holds. A file that could not be listed, is
/// not to be read, could not be read or made no sense holds none.
pub open spec fn pending_in(file: Option<PendingFile>) -> Option<PendingEntry> {
    match file {
        Some(f) => if holds_pending(option_view(f.extension)) {
            f.entry
        } else {
            None
        },
        None => None,
    }
}

/// The pending approvals that the files of the directory hold, in the directory's order.
pub open spec fn pendings_in(files: Seq<Option<PendingFile>>) -> Seq<PendingEntry> {
    files.filter_map(|file: Option<PendingFile>| pending_in(file))
}

/// The pending approvals that the files of the directory hold, in the directory's order.
fn collect_pending(files: Vec<Option<PendingFile>>) -> (entries: Vec<PendingEntry>)
    ensures
        entries@ == pendings_in(files@),
{
    let mut entries: Vec<PendingEntry> = Vec::new();
    let ghost pick = |file: Option<PendingFile>| pending_in(file);
    let ghost all = files@;
    assert(all.take(0) =~= Seq::empty());
    assert(entries@ =~= all.take(0).filter_map(pick));
    for file in it: files
        invariant
            it.seq() == all,
            pick == (|file: Option<PendingFile>| pending_in(file)),
            entries@ == all.take(it.index() as int).filter_map(pick),
    {
        let ghost n = it.index() as int;
        let ghost before = entries@;
        assert(all.take(n + 1).drop_last() =~= all.take(n));
        match file {
            Some(f) => {
                if is_pending_file(&f.extension) {
                    match f.entry {
                        Some(entry) => {
                            entries.push(entry);
                            assert(before + seq![entry] =~= entries@);
                        },
                        None => {},
                    }
                }
            },
            None => {},
        }
    }
    assert(all.take(all.len() as int) =~= all);
    entries
}

/// The pending approvals as they are shown, newest first; a directory that is not there is empty.
pub fn do_read_pending(directory: Fetched<Vec<Option<PendingFile>>>) -> (outcome: Result<
    Vec<PendingEntry>,
    String,
>)
    ensures
        match directory {
            Fetched::Missing => outcome matches Ok(shown) && shown@ == Seq::<PendingEntry>::empty(),
            Fetched::Failed(text) => outcome == Err::<Vec<PendingEntry>, String>(text),
            Fetched::Found(files) => outcome matches Ok(shown) && newest_first(
                shown@,
                pendings_in(files@),
            ),
        },
{
    match directory {
        Fetched::Missing => Ok(Vec::new()),
        Fetched::Failed(text) => Err(text),
        Fetched::Found(files) => Ok(sort_newest_first(collect_pending(files))),
    }
}

/// What the audit log shows is settled by its entries and the limit.
pub proof fn law_shown_is_unique(
    a: Seq<AuditEntry>,
    b: Seq<AuditEntry>,
    entries: Seq<AuditEntry>,
    limit: nat,
)
    requires
        newest_shown(a, entries, limit),
        newest_shown(b, entries, limit),
    ensures
        a == b,
{
    let all_a = choose|all: Seq<AuditEntry>| #[trigger]
        newest_first(all, entries) && a == all.take(at_most(limit, all.len()));
    let all_b = choose|all: Seq<AuditEntry>| #[trigger]
        newest_first(all, entries) && b == all.take(at_most(limit, all.len()));
    crate::order::law_newest_first_is_unique(all_a, all_b, entries);
}

/// No more than the limit is shown, and all of it where there is room.
pub proof fn law_shown_len(shown: Seq<AuditEntry>, entries: Seq<AuditEntry>, limit: nat)
    requires
        newest_shown(shown, entries, limit),
    ensures
        shown.len() == (if limit < entries.len() {
            limit
        } else {
            entries.len()
        }),
        crate::order::descending(shown),
{
    let all = choose|all: Seq<AuditEntry>| #[trigger]
        newest_first(all, entries) && shown == all.take(at_most(limit, all.len()));
    crate::order::law_newest_first_keeps_entries(all, entries);
    assert forall|i: int, j: int| 0 <= i < j < shown.len() implies !crate::time::earlier(
        (#[trigger] shown[i]).when(),
        (#[trigger] shown[j]).when(),
    ) by {
        assert(shown[i] == all[i] && shown[j] == all[j]);
    }
}

/// What is shown and what is left out make up the entries, and nothing that is left out is newer
/// than anything that is shown.
pub proof fn law_shown_are_the_newest(shown: Seq<AuditEntry>, entries: Seq<AuditEntry>, limit: nat)
    requires
        newest_shown(shown, entries, limit),
    ensures
        exists|rest: Seq<AuditEntry>|
            {
                &&& #[trigger] (shown + rest).to_multiset() == entries.to_multiset()
                &&& forall|i: int, j: int|
                    0 <= i < shown.len() && 0 <= j < rest.len() ==> !crate::time::earlier(
                        (#[trigger] shown[i]).when(),
                        (#[trigger] rest[j]).when(),
                    )
            },
{
    let all = choose|all: Seq<AuditEntry>| #[trigger]
        newest_first(all, entries) && shown == all.take(at_most(limit, all.len()));
    let kept = at_most(limit, all.len());
    let rest = all.skip(kept);
    crate::order::law_newest_first_keeps_entries(all, entries);
    assert(shown + rest =~= all);
    assert forall|i: int, j: int|
        0 <= i < shown.len() && 0 <= j < rest.len() implies !crate::time::earlier(
        (#[trigger] shown[i]).when(),
        (#[trigger] rest[j]).when(),
    ) by {
        assert(shown[i] == all[i] && rest[j] == all[kept + j]);
    }
}

/// A line appended to a log of whole lines comes after those that were there, without a carriage
/// return at its end; one that holds nothing besides white space changes nothing.
pub proof fn law_appended_line(log: Seq<char>, line: Seq<char>)
    requires
        log.len() > 0 ==> log.last() == '\n',
        forall|i: int| 0 <= i < line.len() ==> #[trigger] line[i] != '\n',
    ensures
        audit_log_lines(log + (line + seq!['\n'])) == if trimmed(without_return(line)).len() > 0 {
            audit_log_lines(log).push(without_return(line))
        } else {
            audit_log_lines(log)
        },
{
    let shown = without_return(line);
    crate::text::law_lines_append(log, line + seq!['\n']);
    crate::text::lemma_first_line(line, Seq::empty());
    crate::text::lemma_only_line(Seq::empty());
    assert(line + seq!['\n'] + Seq::<char>::empty() =~= line + seq!['\n']);
    assert(seq![shown] + Seq::<Seq<char>>::empty() =~= seq![shown]);
    assert(text_lines(log) + seq![shown] =~= text_lines(log).push(shown));
    reveal(Seq::filter);
    assert(text_lines(log).push(shown).drop_last() =~= text_lines(log));
}

/// The date of an audit entry is its timestamp, that of a pending approval when it was asked for.
pub proof fn law_entries_are_dated(audit: AuditEntry, pending: PendingEntry)
    ensures
        audit.when() == audit.timestamp@,
        pending.when() == pending.created_at@,
{
}

/// Every line that made sense is understood as it is, and no other, each by itself: what two logs
/// give, one after the other, is what the first gives and then what the second gives.
pub proof fn law_every_line_counts<E>(front: Seq<Option<E>>, back: Seq<Option<E>>, entry: E)
    ensures
        understood(front + back) == understood(front) + understood(back),
        understood(seq![Some(entry)]) == seq![entry],
        understood(seq![None::<E>]) == Seq::<E>::empty(),
    decreases back.len(),
{
    let same = |e: Option<E>| e;
    reveal_with_fuel(Seq::filter_map, 2);
    assert(seq![Some(entry)].drop_last() =~= Seq::empty());
    assert(seq![None::<E>].drop_last() =~= Seq::empty());
    assert(understood(seq![Some(entry)]) =~= seq![entry]);
    assert(understood(seq![None::<E>]) =~= Seq::<E>::empty());
    if back.len() == 0 {
        assert(front + back =~= front);
        assert(understood(front) + understood(back) =~= understood(front));
    } else {
        law_every_line_counts(front, back.drop_last(), entry);
        assert((front + back).drop_last() =~= front + back.drop_last());
        assert((front + back).last() == back.last());
        assert(understood(front + back) =~= understood(front) + understood(back));
    }
}

/// What was understood is what made sense.
proof fn lemma_understood_contains<E>(parsed: Seq<Option<E>>, entry: E)
    ensures
        understood(parsed).contains(entry) <==> parsed.contains(Some(entry)),
{
    let same = |e: Option<E>| e;
    if understood(parsed).contains(entry) {
        parsed.lemma_filter_map_contains(same, entry);
    }
    if parsed.contains(Some(entry)) {
        let k = choose|k: int| 0 <= k < parsed.len() && parsed[k] == Some(entry);
        let front = parsed.take(k);
        let back = parsed.skip(k + 1);
        assert(parsed =~= front + (seq![Some(entry)] + back));
        law_every_line_counts(front, seq![Some(entry)] + back, entry);
        law_every_line_counts(seq![Some(entry)], back, entry);
        assert(understood(parsed)[understood(front).len() as int] == entry);
    }
}

/// The audit log shows nothing but lines of the log that made sense, newest first by the clock. A
/// line that made sense is shown, or the limit is reached and nothing shown is older.
pub proof fn law_audit_shows_the_log(
    shown: Seq<AuditEntry>,
    parsed: Seq<Option<AuditEntry>>,
    limit: nat,
)
    requires
        newest_shown(shown, understood(parsed), limit),
    ensures
        shown.len() <= limit,
        forall|i: int| 0 <= i < shown.len() ==> parsed.contains(Some(#[trigger] shown[i])),
        forall|i: int, j: int|
            0 <= i < j < shown.len() ==> {
                let (a, b) = ((#[trigger] shown[i]).timestamp@, (#[trigger] shown[j]).timestamp@);
                a.secs > b.secs || (a.secs == b.secs && a.nanos >= b.nanos)
            },
        forall|k: int, i: int|
            #![trigger parsed[k], shown[i]]
            0 <= k < parsed.len() && 0 <= i < shown.len() && parsed[k] is Some && !shown.contains(
                parsed[k]->0,
            ) ==> {
                let (a, b) = (shown[i].timestamp@, parsed[k]->0.timestamp@);
                a.secs > b.secs || (a.secs == b.secs && a.nanos >= b.nanos)
            },
        forall|k: int|
            0 <= k < parsed.len() && (#[trigger] parsed[k]) is Some && !shown.contains(parsed[k]->0)
                ==> shown.len() == limit,
{
    let entries = understood(parsed);
    let all = choose|all: Seq<AuditEntry>| #[trigger]
        newest_first(all, entries) && shown == all.take(at_most(limit, all.len()));
    crate::order::law_newest_first_keeps_entries(all, entries);
    broadcast use vstd::seq_lib::group_to_multiset_ensures;

    assert forall|i: int| 0 <= i < shown.len() implies parsed.contains(
        Some(#[trigger] shown[i]),
    ) by {
        assert(all[i] == shown[i]);
        assert(all.contains(shown[i]));
        assert(all.to_multiset().count(shown[i]) > 0);
        assert(entries.contains(shown[i]));
        lemma_understood_contains(parsed, shown[i]);
    }
    assert forall|i: int, j: int| 0 <= i < j < shown.len() implies {
        let (a, b) = ((#[trigger] shown[i]).timestamp@, (#[trigger] shown[j]).timestamp@);
        a.secs > b.secs || (a.secs == b.secs && a.nanos >= b.nanos)
    } by {
        crate::order::law_newest_first_descends(all, entries, i, j);
    }
    assert forall|k: int|
        0 <= k < parsed.len() && (#[trigger] parsed[k]) is Some && !shown.contains(
            parsed[k]->0,
        ) implies exists|m: int|
        shown.len() <= m < all.len() && (#[trigger] all[m]) == parsed[k]->0 by {
        let e = parsed[k]->0;
        lemma_understood_contains(parsed, e);
        assert(entries.to_multiset().count(e) > 0);
        assert(all.contains(e));
        let m = choose|m: int| 0 <= m < all.len() && all[m] == e;
        if m < shown.len() {
            assert(shown[m] == e);
        }
    }
    assert forall|k: int, i: int|
        #![trigger parsed[k], shown[i]]
        0 <= k < parsed.len() && 0 <= i < shown.len() && parsed[k] is Some && !shown.contains(
            parsed[k]->0,
        ) implies {
        let (a, b) = (shown[i].timestamp@, parsed[k]->0.timestamp@);
        a.secs > b.secs || (a.secs == b.secs && a.nanos >= b.nanos)
    } by {
        let m = choose|m: int|
            shown.len() <= m < all.len() && (#[trigger] all[m]) == parsed[k]->0;
        crate::order::law_newest_first_descends(all, entries, i, m);
    }
}

/// What is shown under a limit is the front of all there is to show.
pub proof fn law_shown_is_the_front(
    shown: Seq<AuditEntry>,
    all: Seq<AuditEntry>,
    entries: Seq<AuditEntry>,
    limit: nat,
)
    requires
        newest_shown(shown, entries, limit),
        newest_first(all, entries),
    ensures
        limit < entries.len() ==> shown == all.take(limit as int),
        limit >= entries.len() ==> shown == all,
{
    let full = choose|full: Seq<AuditEntry>| #[trigger]
        newest_first(full, entries) && shown == full.take(at_most(limit, full.len()));
    crate::order::law_newest_first_is_unique(full, all, entries);
    crate::order::law_newest_first_keeps_entries(all, entries);
    assert(all.take(all.len() as int) =~= all);
}

/// A file that was listed, is called `.json` and holds an approval counts with that approval,
/// whatever it says and however it stands; no other file counts.
pub proof fn law_one_pending_file(file: Option<PendingFile>)
    ensures
        ({
            let found = pendings_in(seq![file]);
            let counts = file is Some && file->0.extension is Some && file->0.extension->0@
                == "json"@ && file->0.entry is Some;
            &&& counts ==> found == seq![file->0.entry->0]
            &&& !counts ==> found == Seq::<PendingEntry>::empty()
        }),
{
    reveal_with_fuel(Seq::filter_map, 2);
    assert(seq![file].drop_last() =~= Seq::empty());
    assert(seq![file].last() == file);
    assert(pendings_in(seq![file]) =~= (match pending_in(file) {
        Some(entry) => seq![entry],
        None => Seq::<PendingEntry>::empty(),
    }));
}

/// Every file of the directory counts by itself.
pub proof fn law_every_pending_file_counts(
    front: Seq<Option<PendingFile>>,
    back: Seq<Option<PendingFile>>,
)
    ensures
        pendings_in(front + back) == pendings_in(front) + pendings_in(back),
    decreases back.len(),
{
    if back.len() == 0 {
        assert(front + back =~= front);
        assert(pendings_in(front) + pendings_in(back) =~= pendings_in(front));
    } else {
        law_every_pending_file_counts(front, back.drop_last());
        assert((front + back).drop_last() =~= front + back.drop_last());
        assert((front + back).last() == back.last());
        assert(pendings_in(front + back) =~= pendings_in(front) + pendings_in(back));
    }
}

/// `file` is called `.json` and holds `entry`.
pub open spec fn is_json_with(file: PendingFile, entry: PendingEntry) -> bool {
    file.extension is Some && file.extension->0@ == "json"@ && file.entry == Some(entry)
}

/// The list of pending approvals holds every approval in a `.json` file of the directory, approved
/// or not, and nothing else, newest first by the clock.
pub proof fn law_pending_shows_the_directory(
    shown: Seq<PendingEntry>,
    files: Seq<Option<PendingFile>>,
)
    requires
        newest_first(shown, pendings_in(files)),
    ensures
        forall|k: int|
            0 <= k < files.len() && (#[trigger] files[k]) is Some && files[k]->0.extension is Some
                && files[k]->0.extension->0@ == "json"@ && files[k]->0.entry is Some
                ==> shown.contains(files[k]->0.entry->0),
        forall|entry: PendingEntry| #[trigger]
            shown.contains(entry) ==> exists|file: PendingFile|
                files.contains(Some(file)) && #[trigger] is_json_with(file, entry),
        forall|i: int, j: int|
            0 <= i < j < shown.len() ==> {
                let (a, b) = ((#[trigger] shown[i]).created_at@, (#[trigger] shown[j]).created_at@);
                a.secs > b.secs || (a.secs == b.secs && a.nanos >= b.nanos)
            },
{
    let found = pendings_in(files);
    let pick = |file: Option<PendingFile>| pending_in(file);
    crate::order::law_newest_first_keeps_entries(shown, found);
    broadcast use vstd::seq_lib::group_to_multiset_ensures;

    assert forall|k: int|
        0 <= k < files.len() && (#[trigger] files[k]) is Some && files[k]->0.extension is Some
            && files[k]->0.extension->0@ == "json"@
            && files[k]->0.entry is Some implies shown.contains(files[k]->0.entry->0) by {
        let e = files[k]->0.entry->0;
        let front = files.take(k);
        let back = files.skip(k + 1);
        assert(files =~= front + (seq![files[k]] + back));
        law_every_pending_file_counts(front, seq![files[k]] + back);
        law_every_pending_file_counts(seq![files[k]], back);
        law_one_pending_file(files[k]);
        assert(found[pendings_in(front).len() as int] == e);
        assert(found.to_multiset().count(e) > 0);
    }
    assert forall|entry: PendingEntry| #[trigger]
        shown.contains(entry) implies exists|file: PendingFile|
        files.contains(Some(file)) && #[trigger] is_json_with(file, entry) by {
        assert(shown.to_multiset().count(entry) > 0);
        assert(found.contains(entry));
        files.lemma_filter_map_contains(pick, entry);
        let file = choose|file: Option<PendingFile>| #[trigger]
            files.contains(file) && pick(file) == Some(entry);
        assert(files.contains(Some(file->0)) && is_json_with(file->0, entry));
    }
    assert forall|i: int, j: int| 0 <= i < j < shown.len() implies {
        let (a, b) = ((#[trigger] shown[i]).created_at@, (#[trigger] shown[j]).created_at@);
        a.secs > b.secs || (a.secs == b.secs && a.nanos >= b.nanos)
    } by {
        crate::order::law_newest_first_descends(shown, found, i, j);
    }
}

/// A line behind a log of whole lines, with or without its line feed, is a line of the log exactly
/// where it holds a character that is no white space; an empty log has no lines.
pub proof fn law_lines_with_something_count(log: Seq<char>, line: Seq<char>)
    requires
        log.len() > 0 ==> log.last() == '\n',
        forall|i: int| 0 <= i < line.len() ==> #[trigger] line[i] != '\n',
    ensures
        audit_log_lines(Seq::empty()) == Seq::<Seq<char>>::empty(),
        ({
            let something = exists|i: int|
                0 <= i < line.len() && !crate::text::white_space(#[trigger] line[i]);
            let cut = if line.len() > 0 && line.last() == '\r' {
                line.drop_last()
            } else {
                line
            };
            &&& something ==> audit_log_lines(log + line) == audit_log_lines(log).push(line)
            &&& something ==> audit_log_lines(log + line.push('\n')) == audit_log_lines(log).push(cut)
            &&& !something ==> audit_log_lines(log + line) == audit_log_lines(log)
            &&& !something ==> audit_log_lines(log + line.push('\n')) == audit_log_lines(log)
        }),
{
    let cut = without_return(line);
    crate::text::law_trimmed_to_nothing(line);
    crate::text::law_trimmed_to_nothing(cut);
    assert(trimmed(line).len() > 0 <==> trimmed(cut).len() > 0) by {
        if exists|i: int| 0 <= i < line.len() && !crate::text::white_space(#[trigger] line[i]) {
            let i = choose|i: int|
                0 <= i < line.len() && !crate::text::white_space(#[trigger] line[i]);
            assert(cut[i] == line[i]);
        }
        if exists|i: int| 0 <= i < cut.len() && !crate::text::white_space(#[trigger] cut[i]) {
            let i = choose|i: int| 0 <= i < cut.len() && !crate::text::white_space(#[trigger] cut[i]);
            assert(cut[i] == line[i]);
        }
    }
    crate::text::law_one_line(Seq::empty());
    crate::text::law_one_line(line);
    crate::text::law_lines_append(log, line);
    crate::text::law_lines_append(log, line.push('\n'));
    reveal(Seq::filter);
    assert(text_lines(log) + seq![line] =~= text_lines(log).push(line));
    assert(text_lines(log) + seq![cut] =~= text_lines(log).push(cut));
    assert(text_lines(log).push(line).drop_last() =~= text_lines(log));
    assert(text_lines(log).push(cut).drop_last() =~= text_lines(log));
    assert(text_lines(log) + Seq::<Seq<char>>::empty() =~= text_lines(log));
}

/// Only the extension `json` is read, in just these letters.
pub proof fn law_only_json_is_read(extension: Option<Seq<char>>)
    ensures
        holds_pending(extension) <==> extension is Some && extension->0 == seq!['j', 's', 'o', 'n'],
{
    reveal_strlit("json");
    assert("json"@ =~= seq!['j', 's', 'o', 'n']);
}

/// An optional text stands for its characters.
pub proof fn law_option_view(text: Option<String>)
    ensures
        text matches Some(t) ==> option_view(text) == Some(t@),
        text is None ==> option_view(text) is None,
{
}

/// Reading the audit log: none is an empty list, one that cannot be read an error. Otherwise the
/// list holds no more than the limit; it holds lines of the log that made sense and nothing else,
/// newest first by the clock, and leaves one out only where it is full of entries no older.
pub proof fn law_reading_the_audit_log(
    log: Fetched<Vec<Option<AuditEntry>>>,
    limit: usize,
    outcome: Result<Vec<AuditEntry>, String>,
)
    requires
        call_ensures(do_read_audit, (log, limit), outcome),
    ensures
        match log {
            Fetched::Missing => outcome matches Ok(shown) && shown@.len() == 0,
            Fetched::Failed(why) => outcome matches Err(text) && text@ == why@,
            Fetched::Found(parsed) => outcome matches Ok(shown) && {
                &&& shown@.len() == (if limit < understood(parsed@).len() {
                    limit as nat
                } else {
                    understood(parsed@).len()
                })
                &&& forall|i: int|
                    0 <= i < shown@.len() ==> parsed@.contains(Some(#[trigger] shown@[i]))
                &&& forall|i: int, j: int|
                    0 <= i < j < shown@.len() ==> {
                        let (a, b) = (
                            (#[trigger] shown@[i]).timestamp@,
                            (#[trigger] shown@[j]).timestamp@,
                        );
                        a.secs > b.secs || (a.secs == b.secs && a.nanos >= b.nanos)
                    }
                &&& forall|k: int, i: int|
                    #![trigger parsed@[k], shown@[i]]
                    0 <= k < parsed@.len() && 0 <= i < shown@.len() && parsed@[k] is Some
                        && !shown@.contains(parsed@[k]->0) ==> {
                        let (a, b) = (shown@[i].timestamp@, parsed@[k]->0.timestamp@);
                        a.secs > b.secs || (a.secs == b.secs && a.nanos >= b.nanos)
                    }
                &&& forall|k: int|
                    0 <= k < parsed@.len() && (#[trigger] parsed@[k]) is Some && !shown@.contains(
                        parsed@[k]->0,
                    ) ==> shown@.len() == limit
            },
        },
{
    match log {
        Fetched::Found(parsed) => {
            law_audit_shows_the_log(outcome->Ok_0@, parsed@, limit as nat);
            law_shown_len(outcome->Ok_0@, understood(parsed@), limit as nat);
        },
        _ => {},
    }
}

/// Reading the pending approvals: no directory is an empty list, one that cannot be read an error.
/// Otherwise the list holds the approval of every `.json` file that holds one, approved or not, and
/// nothing else, newest first by the clock.
pub proof fn law_reading_the_pending_approvals(
    directory: Fetched<Vec<Option<PendingFile>>>,
    outcome: Result<Vec<PendingEntry>, String>,
)
    requires
        call_ensures(do_read_pending, (directory,), outcome),
    ensures
        match directory {
            Fetched::Missing => outcome matches Ok(shown) && shown@.len() == 0,
            Fetched::Failed(why) => outcome matches Err(text) && text@ == why@,
            Fetched::Found(files) => outcome matches Ok(shown) && {
                &&& forall|k: int|
                    0 <= k < files@.len() && (#[trigger] files@[k]) is Some
                        && files@[k]->0.extension is Some && files@[k]->0.extension->0@ == "json"@
                        && files@[k]->0.entry is Some ==> shown@.contains(files@[k]->0.entry->0)
                &&& forall|entry: PendingEntry| #[trigger]
                    shown@.contains(entry) ==> exists|file: PendingFile|
                        files@.contains(Some(file)) && #[trigger] is_json_with(file, entry)
                &&& forall|i: int, j: int|
                    0 <= i < j < shown@.len() ==> {
                        let (a, b) = (
                            (#[trigger] shown@[i]).created_at@,
                            (#[trigger] shown@[j]).created_at@,
                        );
                        a.secs > b.secs || (a.secs == b.secs && a.nanos >= b.nanos)
                    }
            },
        },
{
    match directory {
        Fetched::Found(files) => {
            law_pending_shows_the_directory(outcome->Ok_0@, files@);
        },
        _ => {},
    }
}

/// A file is read exactly where its extension is `json`.
pub proof fn law_reading_json_files_only(extension: &Option<String>, answer: bool)
    requires
        call_ensures(is_pending_file, (extension,), answer),
    ensures
        answer <==> extension is Some && extension->0@ == "json"@,
{
}

/// The lines of a log come one by one, as [`law_lines_with_something_count`] has them.
pub proof fn law_listing_the_lines(body: &str, lines: Vec<String>)
    requires
        call_ensures(audit_lines, (body,), lines),
    ensures
        lines@.len() == audit_log_lines(body@).len(),
        forall|i: int| 0 <= i < lines@.len() ==> #[trigger] lines@[i]@ == audit_log_lines(body@)[i],
{
    assert forall|i: int| 0 <= i < lines@.len() implies #[trigger] lines@[i]@ == audit_log_lines(
        body@,
    )[i] by {
        assert(strings_view(lines@)[i] == lines@[i]@);
    }
}

} // verus!
