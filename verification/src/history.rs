//! The persistent history: the rows that are stored, and what is read back of
//! them.
//!
//! A moment is kept as the bits of its seconds since the epoch. Those are
//! ordered as the moments are, since no moment is negative.

use crate::agents::{HistoryRow, HistoryRowView, TurnStats};
use crate::config;
use crate::config::join_path;
use crate::text;
use crate::text::same;
use vstd::prelude::*;

verus! {

/// The table that holds the rows.
pub const HISTORY_TABLE: &'static str = "historico_v2";

/// The directory of the database below the settings.
pub const HISTORY_DIR: &'static str = "conversas.lance";

/// A row as the table holds it.
#[derive(Debug, PartialEq)]
pub struct StoredRow {
    pub created_at: u64,
    pub session_id: String,
    pub mode: String,
    pub agent_id: String,
    pub kind: String,
    pub input: String,
    pub reply: String,
    pub tokens: i32,
    pub tps: u64,
    pub context_tokens: i32,
}

/// The model of a stored row.
#[verifier::ext_equal]
pub struct StoredRowView {
    pub created_at: u64,
    pub session_id: Seq<char>,
    pub mode: Seq<char>,
    pub agent_id: Seq<char>,
    pub kind: Seq<char>,
    pub input: Seq<char>,
    pub reply: Seq<char>,
    pub tokens: i32,
    pub tps: u64,
    pub context_tokens: i32,
}

impl View for StoredRow {
    type V = StoredRowView;

    open spec fn view(&self) -> StoredRowView {
        StoredRowView {
            created_at: self.created_at,
            session_id: self.session_id@,
            mode: self.mode@,
            agent_id: self.agent_id@,
            kind: self.kind@,
            input: self.input@,
            reply: self.reply@,
            tokens: self.tokens,
            tps: self.tps,
            context_tokens: self.context_tokens,
        }
    }
}

/// A count as its column holds it: the low 32 bits, nothing as 0.
pub open spec fn column_count(n: Option<i64>) -> i32 {
    match n {
        Some(n) => n as i32,
        None => 0,
    }
}

/// The row that is stored of a turn at a moment.
pub open spec fn stored(row: HistoryRowView, created_at: u64) -> StoredRowView {
    StoredRowView {
        created_at,
        session_id: row.session_id,
        mode: row.mode,
        agent_id: row.agent_id,
        kind: row.kind,
        input: row.input,
        reply: row.reply,
        tokens: column_count(row.stats.tokens),
        tps: match row.stats.tps {
            Some(bits) => bits,
            None => 0,
        },
        context_tokens: column_count(row.stats.context_tokens),
    }
}

/// The turn that is read back of a stored row: its figures are not read.
pub open spec fn read_back(row: StoredRowView) -> HistoryRowView {
    HistoryRowView {
        agent_id: row.agent_id,
        kind: row.kind,
        input: row.input,
        reply: row.reply,
        stats: TurnStats { tokens: None, tps: None, context_tokens: None },
        session_id: row.session_id,
        mode: row.mode,
    }
}

/// The turns that are read back of stored rows.
pub open spec fn all_read_back(rows: Seq<StoredRowView>) -> Seq<HistoryRowView> {
    rows.map_values(|row: StoredRowView| read_back(row))
}

impl StoredRow {
    /// The row that is stored of a turn.
    pub fn of(row: &HistoryRow, created_at: u64) -> (r: StoredRow)
        ensures
            r@ == stored(row@, created_at),
    {
        StoredRow {
            created_at,
            session_id: row.session_id.as_str().to_string(),
            mode: row.mode.as_str().to_string(),
            agent_id: row.agent_id.as_str().to_string(),
            kind: row.kind.as_str().to_string(),
            input: row.input.as_str().to_string(),
            reply: row.reply.as_str().to_string(),
            tokens: match row.tokens {
                Some(n) => #[verifier::truncate]
                (n as i32),
                None => 0,
            },
            tps: match row.tps {
                Some(bits) => bits,
                None => 0,
            },
            context_tokens: match row.context_tokens {
                Some(n) => #[verifier::truncate]
                (n as i32),
                None => 0,
            },
        }
    }

    /// The turn that is read back of a row.
    pub fn restore(&self) -> (r: HistoryRow)
        ensures
            r@ == read_back(self@),
    {
        HistoryRow {
            agent_id: self.agent_id.as_str().to_string(),
            kind: self.kind.as_str().to_string(),
            input: self.input.as_str().to_string(),
            reply: self.reply.as_str().to_string(),
            tokens: None,
            tps: None,
            context_tokens: None,
            session_id: self.session_id.as_str().to_string(),
            mode: self.mode.as_str().to_string(),
        }
    }

    pub fn copy(&self) -> (r: StoredRow)
        ensures
            r@ == self@,
    {
        StoredRow {
            created_at: self.created_at,
            session_id: self.session_id.as_str().to_string(),
            mode: self.mode.as_str().to_string(),
            agent_id: self.agent_id.as_str().to_string(),
            kind: self.kind.as_str().to_string(),
            input: self.input.as_str().to_string(),
            reply: self.reply.as_str().to_string(),
            tokens: self.tokens,
            tps: self.tps,
            context_tokens: self.context_tokens,
        }
    }
}

/// Reading a stored turn gives it back, but for its figures.
pub proof fn law_stored_turn_is_read_back(row: HistoryRowView, created_at: u64)
    ensures
        read_back(stored(row, created_at)) == (HistoryRowView {
            stats: TurnStats { tokens: None, tps: None, context_tokens: None },
            ..row
        }),
{
}

/// The summary of a conversation in the list of sessions.
#[derive(Debug, PartialEq)]
pub struct StoredSession {
    pub id: String,
    pub mode: String,
    pub messages: usize,
    pub last_created: u64,
    pub preview: String,
}

/// The model of a summary.
#[verifier::ext_equal]
pub struct SessionView {
    pub id: Seq<char>,
    pub mode: Seq<char>,
    pub messages: nat,
    pub last_created: u64,
    pub preview: Seq<char>,
}

impl View for StoredSession {
    type V = SessionView;

    open spec fn view(&self) -> SessionView {
        SessionView {
            id: self.id@,
            mode: self.mode@,
            messages: self.messages as nat,
            last_created: self.last_created,
            preview: self.preview@,
        }
    }
}

impl StoredSession {
    pub fn copy(&self) -> (r: StoredSession)
        ensures
            r@ == self@,
    {
        StoredSession {
            id: self.id.as_str().to_string(),
            mode: self.mode.as_str().to_string(),
            messages: self.messages,
            last_created: self.last_created,
            preview: self.preview.as_str().to_string(),
        }
    }
}

/// A conversation of which nothing was seen yet.
pub open spec fn unseen(id: Seq<char>) -> SessionView {
    SessionView {
        id,
        mode: "solo"@,
        messages: 0,
        last_created: 0,
        preview: Seq::empty(),
    }
}

/// A summary after one more row: it counts the row and takes its mode; a later
/// row moves the moment, and what the user asked there is the preview.
pub open spec fn noted(s: SessionView, row: StoredRowView) -> SessionView {
    SessionView {
        id: s.id,
        mode: row.mode,
        messages: s.messages + 1,
        last_created: if row.created_at > s.last_created {
            row.created_at
        } else {
            s.last_created
        },
        preview: if row.created_at > s.last_created && row.kind == "root"@ {
            row.input
        } else {
            s.preview
        },
    }
}

/// Where a conversation stands in a list of summaries, from index `i` on.
pub open spec fn session_from(s: Seq<SessionView>, id: Seq<char>, i: int) -> Option<int>
    decreases s.len() - i,
{
    if i < 0 || i >= s.len() {
        None
    } else if s[i].id == id {
        Some(i)
    } else {
        session_from(s, id, i + 1)
    }
}

/// The summaries after one more row. A row of no session counts for none.
pub open spec fn after_row(s: Seq<SessionView>, row: StoredRowView) -> Seq<SessionView> {
    if row.session_id.len() == 0 {
        s
    } else {
        match session_from(s, row.session_id, 0) {
            Some(i) => s.update(i, noted(s[i], row)),
            None => s.push(noted(unseen(row.session_id), row)),
        }
    }
}

/// The summaries of the rows, in the order in which their sessions appear.
pub open spec fn summaries(rows: Seq<StoredRowView>) -> Seq<SessionView>
    decreases rows.len(),
{
    if rows.len() == 0 {
        Seq::empty()
    } else {
        after_row(summaries(rows.drop_last()), rows.last())
    }
}

/// Where a summary goes in a list that runs from late to early.
pub open spec fn late_slot(s: Seq<SessionView>, last: u64) -> int
    decreases s.len(),
{
    if s.len() == 0 || s.last().last_created >= last {
        s.len() as int
    } else {
        late_slot(s.drop_last(), last)
    }
}

/// The summaries from the latest activity to the earliest.
pub open spec fn by_activity(s: Seq<SessionView>) -> Seq<SessionView>
    decreases s.len(),
{
    if s.len() == 0 {
        Seq::empty()
    } else {
        let before = by_activity(s.drop_last());
        before.insert(late_slot(before, s.last().last_created), s.last())
    }
}

/// Where a row goes in a list that runs from early to late.
pub open spec fn early_slot(s: Seq<StoredRowView>, created_at: u64) -> int
    decreases s.len(),
{
    if s.len() == 0 || s.last().created_at <= created_at {
        s.len() as int
    } else {
        early_slot(s.drop_last(), created_at)
    }
}

/// The rows in the order of their moments; rows of one moment stay in order.
pub open spec fn in_order(rows: Seq<StoredRowView>) -> Seq<StoredRowView>
    decreases rows.len(),
{
    if rows.len() == 0 {
        Seq::empty()
    } else {
        let before = in_order(rows.drop_last());
        before.insert(early_slot(before, rows.last().created_at), rows.last())
    }
}

pub proof fn lemma_session_from(s: Seq<SessionView>, id: Seq<char>, i: int)
    requires
        0 <= i <= s.len(),
    ensures
        match session_from(s, id, i) {
            Some(k) => i <= k < s.len() && s[k].id == id,
            None => forall|k: int| i <= k < s.len() ==> (#[trigger] s[k]).id != id,
        },
    decreases s.len() - i,
{
    if i < s.len() && s[i].id != id {
        lemma_session_from(s, id, i + 1);
    }
}

pub proof fn lemma_late_slot(s: Seq<SessionView>, last: u64)
    requires
        forall|i: int, j: int|
            0 <= i <= j < s.len() ==> (#[trigger] s[i]).last_created >= (
            #[trigger] s[j]).last_created,
    ensures
        0 <= late_slot(s, last) <= s.len(),
        forall|i: int| 0 <= i < late_slot(s, last) ==> (#[trigger] s[i]).last_created >= last,
        forall|i: int| late_slot(s, last) <= i < s.len() ==> (#[trigger] s[i]).last_created < last,
    decreases s.len(),
{
    if s.len() > 0 && s.last().last_created < last {
        let rest = s.drop_last();
        lemma_late_slot(rest, last);
        assert forall|i: int| late_slot(s, last) <= i < s.len() implies (
        #[trigger] s[i]).last_created < last by {
            if i < s.len() - 1 {
                assert(rest[i] == s[i]);
            }
        }
        assert forall|i: int| 0 <= i < late_slot(s, last) implies (
        #[trigger] s[i]).last_created >= last by {
            assert(rest[i] == s[i]);
        }
    }
}

pub proof fn lemma_early_slot(s: Seq<StoredRowView>, created_at: u64)
    requires
        forall|i: int, j: int|
            0 <= i <= j < s.len() ==> (#[trigger] s[i]).created_at <= (#[trigger] s[j]).created_at,
    ensures
        0 <= early_slot(s, created_at) <= s.len(),
        forall|i: int|
            0 <= i < early_slot(s, created_at) ==> (#[trigger] s[i]).created_at <= created_at,
        forall|i: int|
            early_slot(s, created_at) <= i < s.len() ==> (#[trigger] s[i]).created_at > created_at,
    decreases s.len(),
{
    if s.len() > 0 && s.last().created_at > created_at {
        let rest = s.drop_last();
        lemma_early_slot(rest, created_at);
        assert forall|i: int| early_slot(s, created_at) <= i < s.len() implies (
        #[trigger] s[i]).created_at > created_at by {
            if i < s.len() - 1 {
                assert(rest[i] == s[i]);
            }
        }
        assert forall|i: int| 0 <= i < early_slot(s, created_at) implies (
        #[trigger] s[i]).created_at <= created_at by {
            assert(rest[i] == s[i]);
        }
    }
}

pub proof fn lemma_filter_none(rows: Seq<StoredRowView>, pred: spec_fn(StoredRowView) -> bool)
    requires
        forall|i: int| 0 <= i < rows.len() ==> !pred(#[trigger] rows[i]),
    ensures
        rows.filter(pred) == Seq::<StoredRowView>::empty(),
    decreases rows.len(),
{
    reveal(Seq::filter);
    if rows.len() > 0 {
        lemma_filter_none(rows.drop_last(), pred);
    }
}

pub proof fn lemma_filter_one(row: StoredRowView, pred: spec_fn(StoredRowView) -> bool)
    ensures
        seq![row].filter(pred) == (if pred(row) {
            seq![row]
        } else {
            Seq::empty()
        }),
{
    reveal(Seq::filter);
    reveal_with_fuel(Seq::filter, 2);
    assert(seq![row].drop_last() =~= Seq::<StoredRowView>::empty());
    assert(seq![row].last() == row);
}

/// The turns of a session are read back from the earliest to the latest.
pub proof fn law_session_is_chronological(rows: Seq<StoredRowView>)
    ensures
        in_order(rows).len() == rows.len(),
        forall|i: int, j: int|
            0 <= i <= j < in_order(rows).len() ==> (#[trigger] in_order(rows)[i]).created_at <= (
            #[trigger] in_order(rows)[j]).created_at,
    decreases rows.len(),
{
    if rows.len() > 0 {
        let before = in_order(rows.drop_last());
        law_session_is_chronological(rows.drop_last());
        lemma_early_slot(before, rows.last().created_at);
    }
}

/// Reading a session loses no turn and invents none: at each moment it gives
/// the turns that were stored at that moment, in the order of the rows.
pub proof fn law_session_keeps_turns(rows: Seq<StoredRowView>, moment: u64)
    ensures
        in_order(rows).filter(|row: StoredRowView| row.created_at == moment) == rows.filter(
            |row: StoredRowView| row.created_at == moment,
        ),
    decreases rows.len(),
{
    let pred = |row: StoredRowView| row.created_at == moment;
    if rows.len() > 0 {
        let init = rows.drop_last();
        let x = rows.last();
        let before = in_order(init);
        law_session_keeps_turns(init, moment);
        law_session_is_chronological(init);
        lemma_early_slot(before, x.created_at);
        let p = early_slot(before, x.created_at);
        let head = before.subrange(0, p);
        let tail = before.subrange(p, before.len() as int);
        assert(before =~= head + tail);
        assert(in_order(rows) =~= (head + seq![x]) + tail);
        assert(rows =~= init + seq![x]);
        Seq::filter_distributes_over_add(head, tail, pred);
        Seq::filter_distributes_over_add(head + seq![x], tail, pred);
        Seq::filter_distributes_over_add(head, seq![x], pred);
        Seq::filter_distributes_over_add(init, seq![x], pred);
        lemma_filter_one(x, pred);
        if pred(x) {
            lemma_filter_none(tail, pred);
            assert(in_order(rows).filter(pred) =~= rows.filter(pred));
        } else {
            assert(head.filter(pred) + Seq::<StoredRowView>::empty() =~= head.filter(pred));
            assert(init.filter(pred) + Seq::<StoredRowView>::empty() =~= init.filter(pred));
        }
    } else {
        assert(in_order(rows) =~= rows);
    }
}

/// The number of rows of a session.
pub open spec fn rows_of(rows: Seq<StoredRowView>, id: Seq<char>) -> nat
    decreases rows.len(),
{
    if rows.len() == 0 {
        0
    } else if rows.last().session_id == id {
        rows_of(rows.drop_last(), id) + 1
    } else {
        rows_of(rows.drop_last(), id)
    }
}

/// The latest moment of a session, 0 where it has none.
pub open spec fn latest_of(rows: Seq<StoredRowView>, id: Seq<char>) -> u64
    decreases rows.len(),
{
    if rows.len() == 0 {
        0
    } else {
        let before = latest_of(rows.drop_last(), id);
        if rows.last().session_id == id && rows.last().created_at > before {
            rows.last().created_at
        } else {
            before
        }
    }
}

/// Each session has one summary, which counts its rows and gives the latest
/// of their moments; a session without rows has none.
pub proof fn law_one_summary_per_session(rows: Seq<StoredRowView>)
    ensures
        forall|i: int, j: int|
            0 <= i < j < summaries(rows).len() ==> (#[trigger] summaries(rows)[i]).id != (
            #[trigger] summaries(rows)[j]).id,
        forall|i: int|
            0 <= i < summaries(rows).len() ==> {
                let s = #[trigger] summaries(rows)[i];
                &&& s.id.len() > 0
                &&& s.messages == rows_of(rows, s.id)
                &&& s.messages > 0
                &&& s.last_created == latest_of(rows, s.id)
            },
        forall|id: Seq<char>|
            id.len() > 0 && #[trigger] rows_of(rows, id) > 0 ==> exists|i: int|
                0 <= i < summaries(rows).len() && (#[trigger] summaries(rows)[i]).id == id,
    decreases rows.len(),
{
    if rows.len() > 0 {
        let init = rows.drop_last();
        let row = rows.last();
        let before = summaries(init);
        let after = summaries(rows);
        law_one_summary_per_session(init);
        lemma_session_from(before, row.session_id, 0);
        lemma_unseen(init, row.session_id);
        assert forall|id: Seq<char>| id.len() > 0 && #[trigger] rows_of(rows, id) > 0 implies exists|
            i: int,
        | 0 <= i < after.len() && (#[trigger] after[i]).id == id by {
            if id == row.session_id {
                match session_from(before, id, 0) {
                    Some(k) => assert(after[k].id == id),
                    None => assert(after[before.len() as int].id == id),
                }
            } else {
                assert(rows_of(init, id) > 0);
                let k = choose|k: int| 0 <= k < before.len() && (#[trigger] before[k]).id == id;
                assert(after[k].id == id);
            }
        }
        assert forall|i: int| 0 <= i < after.len() implies {
            let s = #[trigger] after[i];
            &&& s.id.len() > 0
            &&& s.messages == rows_of(rows, s.id)
            &&& s.messages > 0
            &&& s.last_created == latest_of(rows, s.id)
        } by {
            if i < before.len() {
                assert(before[i].messages == rows_of(init, before[i].id));
                assert(after[i].id == before[i].id);
            }
            match session_from(before, row.session_id, 0) {
                Some(k) => {
                    if i != k {
                        assert(before[i].id != before[k].id);
                    }
                },
                None => {},
            }
        }
    }
}

/// A session that no row names has no latest moment.
proof fn lemma_unseen(rows: Seq<StoredRowView>, id: Seq<char>)
    ensures
        rows_of(rows, id) == 0 ==> latest_of(rows, id) == 0,
    decreases rows.len(),
{
    if rows.len() > 0 {
        lemma_unseen(rows.drop_last(), id);
    }
}

/// The list of sessions runs from the latest activity to the earliest, and
/// holds each summary once.
pub proof fn law_sessions_by_activity(s: Seq<SessionView>)
    ensures
        by_activity(s).len() == s.len(),
        by_activity(s).to_multiset() == s.to_multiset(),
        forall|i: int, j: int|
            0 <= i <= j < by_activity(s).len() ==> (#[trigger] by_activity(s)[i]).last_created >= (
            #[trigger] by_activity(s)[j]).last_created,
    decreases s.len(),
{
    if s.len() > 0 {
        let before = by_activity(s.drop_last());
        let x = s.last();
        law_sessions_by_activity(s.drop_last());
        lemma_late_slot(before, x.last_created);
        let p = late_slot(before, x.last_created);
        let after = before.insert(p, x);
        assert(after.remove(p) =~= before);
        broadcast use vstd::seq_lib::group_to_multiset_ensures;

        assert(after.remove(p).to_multiset() =~= after.to_multiset().remove(after[p]));
        assert(after.to_multiset().count(x) > 0) by {
            assert(after.contains(after[p]));
        }
        assert(after.to_multiset() =~= before.to_multiset().insert(x));
        assert(s =~= s.drop_last().push(x));
    } else {
        assert(by_activity(s) =~= s);
    }
}

/// Lists the sessions of the rows, from the latest activity to the earliest.
pub fn list_sessions(rows: &Vec<StoredRow>) -> (r: Vec<StoredSession>)
    ensures
        text::views(r@) == by_activity(summaries(text::views(rows@))),
{
    let ghost all = text::views(rows@);
    let mut found: Vec<StoredSession> = Vec::new();
    let mut i: usize = 0;
    assert(all.subrange(0, 0) =~= Seq::empty());
    assert(text::views(found@) =~= summaries(all.subrange(0, 0)));
    while i < rows.len()
        invariant
            i <= rows.len(),
            all == text::views(rows@),
            text::views(found@) == summaries(all.subrange(0, i as int)),
            forall|k: int| 0 <= k < found@.len() ==> (#[trigger] found@[k]).messages <= i,
        decreases rows.len() - i,
    {
        let row = &rows[i];
        let ghost before = text::views(found@);
        if row.session_id.as_str().unicode_len() > 0 {
            let at = find_session(&found, row.session_id.as_str());
            match at {
                Some(k) => {
                    proof {
                        lemma_session_from(before, row.session_id@, 0);
                    }
                    let next = note(&found[k], row);
                    found.set(k, next);
                    assert(text::views(found@) =~= before.update(k as int, noted(
                        before[k as int],
                        row@,
                    )));
                },
                None => {
                    let fresh = StoredSession {
                        id: row.session_id.as_str().to_string(),
                        mode: "solo".to_string(),
                        messages: 0,
                        last_created: 0,
                        preview: String::new(),
                    };
                    assert(fresh@ =~= unseen(row.session_id@));
                    let next = note(&fresh, row);
                    found.push(next);
                    assert(text::views(found@) =~= before.push(
                        noted(unseen(row.session_id@), row@),
                    ));
                },
            }
        }
        proof {
            let next = all.subrange(0, i + 1);
            assert(next.drop_last() =~= all.subrange(0, i as int));
            assert(next.last() == row@);
        }
        i = i + 1;
    }
    assert(all.subrange(0, all.len() as int) =~= all);
    order_by_activity(&found)
}

/// A summary after one more row.
fn note(s: &StoredSession, row: &StoredRow) -> (r: StoredSession)
    requires
        s.messages < usize::MAX,
    ensures
        r@ == noted(s@, row@),
        r.messages == s.messages + 1,
{
    let later = row.created_at > s.last_created;
    StoredSession {
        id: s.id.as_str().to_string(),
        mode: row.mode.as_str().to_string(),
        messages: s.messages + 1,
        last_created: if later {
            row.created_at
        } else {
            s.last_created
        },
        preview: if later && same(row.kind.as_str(), "root") {
            row.input.as_str().to_string()
        } else {
            s.preview.as_str().to_string()
        },
    }
}

/// Finds a session in a list of summaries.
fn find_session(s: &Vec<StoredSession>, id: &str) -> (r: Option<usize>)
    ensures
        match r {
            Some(k) => k < s@.len() && session_from(text::views(s@), id@, 0) == Some(k as int),
            None => session_from(text::views(s@), id@, 0) is None,
        },
{
    let ghost all = text::views(s@);
    let mut i: usize = 0;
    while i < s.len()
        invariant
            i <= s.len(),
            all == text::views(s@),
            session_from(all, id@, 0) == session_from(all, id@, i as int),
        decreases s.len() - i,
    {
        assert(all[i as int] == s@[i as int]@);
        if same(s[i].id.as_str(), id) {
            return Some(i);
        }
        i = i + 1;
    }
    None
}

/// Orders summaries from the latest activity to the earliest.
fn order_by_activity(s: &Vec<StoredSession>) -> (r: Vec<StoredSession>)
    ensures
        text::views(r@) == by_activity(text::views(s@)),
{
    let ghost all = text::views(s@);
    let mut out: Vec<StoredSession> = Vec::new();
    let mut i: usize = 0;
    assert(all.subrange(0, 0) =~= Seq::empty());
    assert(text::views(out@) =~= by_activity(all.subrange(0, 0)));
    while i < s.len()
        invariant
            i <= s.len(),
            all == text::views(s@),
            text::views(out@) == by_activity(all.subrange(0, i as int)),
        decreases s.len() - i,
    {
        let ghost before = text::views(out@);
        let last: u64 = s[i].last_created;
        let mut p: usize = out.len();
        assert(before.subrange(0, p as int) =~= before);
        while p > 0 && out[p - 1].last_created < last
            invariant
                p <= out.len(),
                before == text::views(out@),
                late_slot(before, last) == late_slot(before.subrange(0, p as int), last),
            decreases p,
        {
            proof {
                let part = before.subrange(0, p as int);
                assert(part.last() == out@[p - 1]@);
                assert(part.drop_last() =~= before.subrange(0, p - 1));
            }
            p = p - 1;
        }
        proof {
            let part = before.subrange(0, p as int);
            if p > 0 {
                assert(part.last() == out@[p - 1]@);
            }
            assert(late_slot(before, last) == p);
        }
        let one = s[i].copy();
        out.insert(p, one);
        proof {
            assert(text::views(out@) =~= before.insert(p as int, one@));
            let next = all.subrange(0, i + 1);
            assert(next.drop_last() =~= all.subrange(0, i as int));
            assert(next.last() == s@[i as int]@);
        }
        i = i + 1;
    }
    assert(all.subrange(0, all.len() as int) =~= all);
    out
}

/// A text with each quote mark twice.
pub open spec fn quoted(s: Seq<char>) -> Seq<char>
    decreases s.len(),
{
    if s.len() == 0 {
        Seq::empty()
    } else if s.last() == '\'' {
        quoted(s.drop_last()) + seq!['\'', '\'']
    } else {
        quoted(s.drop_last()).push(s.last())
    }
}

/// Writes each quote mark twice, as a text literal of a filter needs it.
pub fn escape_filter(v: &str) -> (r: String)
    ensures
        r@ == quoted(v@),
{
    let chars = text::chars_of(v);
    let mut out = String::new();
    let mut i: usize = 0;
    assert(chars@.subrange(0, 0) =~= Seq::empty());
    assert(out@ =~= quoted(chars@.subrange(0, 0)));
    while i < chars.len()
        invariant
            i <= chars.len(),
            out@ == quoted(chars@.subrange(0, i as int)),
        decreases chars.len() - i,
    {
        let ghost before = out@;
        let c = chars[i];
        if c == '\'' {
            out.push('\'');
            out.push('\'');
            assert(out@ =~= before + seq!['\'', '\'']);
        } else {
            out.push(c);
            assert(out@ =~= before.push(c));
        }
        proof {
            let next = chars@.subrange(0, i + 1);
            assert(next.drop_last() =~= chars@.subrange(0, i as int));
            assert(next.last() == c);
        }
        i = i + 1;
    }
    assert(chars@.subrange(0, chars@.len() as int) =~= chars@);
    out
}

/// Two identifiers are never written the same way in a filter.
pub proof fn law_escape_is_one_to_one(a: Seq<char>, b: Seq<char>)
    requires
        quoted(a) == quoted(b),
    ensures
        a == b,
    decreases a.len(),
{
    let q = quoted(a);
    if a.len() == 0 {
        if b.len() > 0 {
            assert(q.len() > 0);
        }
        assert(a =~= b);
    } else if b.len() == 0 {
        assert(q.len() > 0);
    } else {
        let x = a.last();
        let y = b.last();
        assert(q.last() == x);
        assert(q.last() == y);
        if x == '\'' {
            assert(q.subrange(0, q.len() - 2) =~= quoted(a.drop_last()));
            assert(q.subrange(0, q.len() - 2) =~= quoted(b.drop_last()));
        } else {
            assert(q.drop_last() =~= quoted(a.drop_last()));
            assert(q.drop_last() =~= quoted(b.drop_last()));
        }
        law_escape_is_one_to_one(a.drop_last(), b.drop_last());
        assert(a =~= a.drop_last().push(x));
        assert(b =~= b.drop_last().push(y));
    }
}

/// The condition that a row is of a session.
pub open spec fn filter_of(session_id: Seq<char>) -> Seq<char> {
    "session_id = '"@ + quoted(session_id) + "'"@
}

/// Writes the condition that a row is of a session.
pub fn session_filter(session_id: &str) -> (r: String)
    ensures
        r@ == filter_of(session_id@),
{
    let id = escape_filter(session_id);
    text::cat3("session_id = '", id.as_str(), "'")
}

/// The last rows of the history, in the order of their moments: as many as are
/// wanted, or all where there are fewer.
pub open spec fn latest(rows: Seq<StoredRowView>, n: nat) -> Seq<StoredRowView> {
    let sorted = in_order(rows);
    if n < sorted.len() {
        sorted.subrange(sorted.len() - n, sorted.len() as int)
    } else {
        sorted
    }
}

/// Reads the last rows of the history back, out of all its rows; the latest
/// comes first.
pub fn last_rows(rows: &Vec<StoredRow>, n: usize) -> (r: Vec<HistoryRow>)
    ensures
        text::views(r@) == all_read_back(latest(text::views(rows@), n as nat)).reverse(),
{
    let mut sorted = get_session(rows);
    let ghost all = text::views(sorted@);
    let len: usize = sorted.len();
    let count: usize = if n < len {
        n
    } else {
        len
    };
    let mut out: Vec<HistoryRow> = Vec::new();
    while out.len() < count
        invariant
            count <= len == all.len(),
            out.len() <= count,
            sorted.len() == len - out.len(),
            forall|k: int| 0 <= k < sorted@.len() ==> (#[trigger] sorted@[k])@ == all[k],
            forall|k: int| 0 <= k < out@.len() ==> (#[trigger] out@[k])@ == all[len - 1 - k],
        decreases count - out.len(),
    {
        match sorted.pop() {
            Some(row) => {
                out.push(row);
            },
            None => {},
        }
    }
    assert(text::views(out@) =~= all_read_back(
        latest(text::views(rows@), n as nat),
    ).reverse());
    out
}

/// The last rows are as many as are wanted, as far as there are so many, and no
/// row that is left out is later than one of them.
pub proof fn law_last_rows_are_latest(rows: Seq<StoredRowView>, n: nat)
    ensures
        latest(rows, n).len() == if n < rows.len() {
            n
        } else {
            rows.len()
        },
        in_order(rows) == in_order(rows).subrange(0, rows.len() - latest(rows, n).len()) + latest(
            rows,
            n,
        ),
        forall|i: int, j: int|
            0 <= i < rows.len() - latest(rows, n).len() && 0 <= j < latest(rows, n).len() ==> (
            #[trigger] in_order(rows)[i]).created_at <= (#[trigger] latest(rows, n)[j]).created_at,
{
    law_session_is_chronological(rows);
    let sorted = in_order(rows);
    let left = rows.len() - latest(rows, n).len();
    assert(sorted =~= sorted.subrange(0, left) + latest(rows, n));
    assert forall|i: int, j: int|
        0 <= i < left && 0 <= j < latest(rows, n).len() implies (#[trigger] sorted[i]).created_at
        <= (#[trigger] latest(rows, n)[j]).created_at by {
        assert(latest(rows, n)[j] == sorted[left + j]);
    }
}

/// The history of conversations: the rows that wait to be written, and where
/// the database stands.
pub struct History {
    pending: Vec<HistoryRow>,
    pub path: String,
}

/// The model of the history.
#[verifier::ext_equal]
pub struct HistoryView {
    pub pending: Seq<HistoryRowView>,
    pub path: Seq<char>,
}

impl View for History {
    type V = HistoryView;

    closed spec fn view(&self) -> HistoryView {
        HistoryView { pending: text::views(self.pending@), path: self.path@ }
    }
}

impl History {
    pub fn new(db_dir: &str) -> (r: History)
        ensures
            r@ == (HistoryView {
                pending: Seq::empty(),
                path: config::path_below(db_dir@, HISTORY_DIR@),
            }),
    {
        let r = History { pending: Vec::new(), path: join_path(db_dir, HISTORY_DIR) };
        assert(r@.pending =~= Seq::empty());
        r
    }

    /// Puts a turn behind those that wait to be written.
    pub fn record(&mut self, row: HistoryRow)
        ensures
            final(self)@ == (HistoryView { pending: old(self)@.pending.push(row@), ..old(self)@ }),
    {
        self.pending.push(row);
        assert(self@.pending =~= old(self)@.pending.push(row@));
    }

    /// Takes the turn that waits longest.
    pub fn next(&mut self) -> (r: Option<HistoryRow>)
        ensures
            match r {
                Some(row) => old(self)@.pending.len() > 0 && row@ == old(self)@.pending[0]
                    && final(self)@ == (HistoryView {
                    pending: old(self)@.pending.subrange(1, old(self)@.pending.len() as int),
                    ..old(self)@
                }),
                None => old(self)@.pending.len() == 0 && final(self)@ == old(self)@,
            },
    {
        if self.pending.len() == 0 {
            return None;
        }
        let row = self.pending.remove(0);
        assert(self@.pending =~= old(self)@.pending.subrange(1, old(self)@.pending.len() as int));
        Some(row)
    }

    /// Lists the sessions of the rows that the table holds, one for each
    /// conversation, from the latest activity to the earliest.
    pub fn list_sessions(&self, rows: &Vec<StoredRow>) -> (r: Vec<StoredSession>)
        ensures
            text::views(r@) == by_activity(summaries(text::views(rows@))),
    {
        list_sessions(rows)
    }

    /// The turns of a session in chronological order, from the rows that match
    /// its condition.
    pub fn get_session(&self, rows: &Vec<StoredRow>) -> (r: Vec<HistoryRow>)
        ensures
            text::views(r@) == all_read_back(in_order(text::views(rows@))),
    {
        get_session(rows)
    }
}

/// Reads rows back in chronological order.
pub fn get_session(rows: &Vec<StoredRow>) -> (r: Vec<HistoryRow>)
    ensures
        text::views(r@) == all_read_back(in_order(text::views(rows@))),
{
    let ghost all = text::views(rows@);
    let mut sorted: Vec<StoredRow> = Vec::new();
    let mut i: usize = 0;
    assert(all.subrange(0, 0) =~= Seq::empty());
    assert(text::views(sorted@) =~= in_order(all.subrange(0, 0)));
    while i < rows.len()
        invariant
            i <= rows.len(),
            all == text::views(rows@),
            text::views(sorted@) == in_order(all.subrange(0, i as int)),
        decreases rows.len() - i,
    {
        let ghost before = text::views(sorted@);
        let at: u64 = rows[i].created_at;
        let mut p: usize = sorted.len();
        assert(before.subrange(0, p as int) =~= before);
        while p > 0 && sorted[p - 1].created_at > at
            invariant
                p <= sorted.len(),
                before == text::views(sorted@),
                early_slot(before, at) == early_slot(before.subrange(0, p as int), at),
            decreases p,
        {
            proof {
                let part = before.subrange(0, p as int);
                assert(part.last() == sorted@[p - 1]@);
                assert(part.drop_last() =~= before.subrange(0, p - 1));
            }
            p = p - 1;
        }
        proof {
            let part = before.subrange(0, p as int);
            if p > 0 {
                assert(part.last() == sorted@[p - 1]@);
            }
            assert(early_slot(before, at) == p);
        }
        let one = rows[i].copy();
        sorted.insert(p, one);
        proof {
            assert(text::views(sorted@) =~= before.insert(p as int, one@));
            let next = all.subrange(0, i + 1);
            assert(next.drop_last() =~= all.subrange(0, i as int));
            assert(next.last() == rows@[i as int]@);
        }
        i = i + 1;
    }
    assert(all.subrange(0, all.len() as int) =~= all);
    let ghost ordered = text::views(sorted@);
    let mut out: Vec<HistoryRow> = Vec::new();
    let mut k: usize = 0;
    while k < sorted.len()
        invariant
            k <= sorted.len(),
            out.len() == k,
            ordered == text::views(sorted@),
            forall|j: int| 0 <= j < k ==> (#[trigger] out@[j])@ == read_back(ordered[j]),
        decreases sorted.len() - k,
    {
        assert(ordered[k as int] == sorted@[k as int]@);
        out.push(sorted[k].restore());
        k = k + 1;
    }
    assert(text::views(out@) =~= all_read_back(ordered));
    out
}

/// A turn is stored at its moment with its figures, as far as their columns hold them.
pub proof fn law_figures_are_stored(row: HistoryRowView, created_at: u64, n: i64, bits: u64)
    requires
        i32::MIN <= n <= i32::MAX,
    ensures
        stored(row, created_at).created_at == created_at,
        row.stats.tokens == Some(n) ==> stored(row, created_at).tokens == n,
        row.stats.tokens is None ==> stored(row, created_at).tokens == 0,
        row.stats.context_tokens == Some(n) ==> stored(row, created_at).context_tokens == n,
        row.stats.context_tokens is None ==> stored(row, created_at).context_tokens == 0,
        row.stats.tps == Some(bits) ==> stored(row, created_at).tps == bits,
        row.stats.tps is None ==> stored(row, created_at).tps == 0,
{
}

/// The summary of a session shows what the user asked last and the mode of its last row; rows of
/// other sessions change nothing of it.
pub proof fn law_summary_shows_last_question(rows: Seq<StoredRowView>, row: StoredRowView)
    requires
        row.session_id.len() > 0,
    ensures
        exists|i: int|
            {
                &&& 0 <= i < summaries(rows.push(row)).len()
                &&& (#[trigger] summaries(rows.push(row))[i]).id == row.session_id
                &&& summaries(rows.push(row))[i].mode == row.mode
                &&& row.kind == "root"@ && row.created_at > latest_of(rows, row.session_id)
                    ==> summaries(rows.push(row))[i].preview == row.input
            },
        forall|k: int|
            0 <= k < summaries(rows).len() && (#[trigger] summaries(rows)[k]).id != row.session_id
                ==> summaries(rows.push(row))[k] == summaries(rows)[k],
        forall|k: int|
            0 <= k < summaries(rows).len() && (#[trigger] summaries(rows)[k]).id == row.session_id
                && row.kind != "root"@ ==> summaries(rows.push(row))[k].preview == summaries(
                rows,
            )[k].preview,
        forall|r: StoredRowView|
            r.session_id.len() == 0 ==> #[trigger] summaries(rows.push(r)) == summaries(rows),
{
    let before = summaries(rows);
    let after = summaries(rows.push(row));
    assert(rows.push(row).drop_last() =~= rows);
    law_one_summary_per_session(rows);
    lemma_session_from(before, row.session_id, 0);
    match session_from(before, row.session_id, 0) {
        Some(i) => {
            assert(before[i].last_created == latest_of(rows, row.session_id));
            assert(after[i].id == row.session_id);
        },
        None => {
            if rows_of(rows, row.session_id) > 0 {
                let k = choose|k: int|
                    0 <= k < before.len() && (#[trigger] before[k]).id == row.session_id;
                assert(before[k].id != row.session_id);
            }
            lemma_unseen(rows, row.session_id);
            assert(after[before.len() as int].id == row.session_id);
        },
    }
    assert forall|r: StoredRowView| r.session_id.len() == 0 implies #[trigger] summaries(
        rows.push(r),
    ) == summaries(rows) by {
        assert(rows.push(r).drop_last() =~= rows);
    }
}

/// Quoting doubles each quote mark and changes nothing else.
pub proof fn law_quote_marks_are_doubled(a: Seq<char>, b: Seq<char>)
    ensures
        quoted(a + b) == quoted(a) + quoted(b),
        quoted(seq!['\'']) == seq!['\'', '\''],
        !a.contains('\'') ==> quoted(a) == a,
        !a.contains('\'') ==> filter_of(a) == "session_id = '"@ + a + "'"@,
    decreases b.len(),
{
    if b.len() == 0 {
        assert(a + b =~= a);
        assert(quoted(a) + quoted(b) =~= quoted(a));
    } else {
        assert((a + b).drop_last() =~= a + b.drop_last());
        assert((a + b).last() == b.last());
        law_quote_marks_are_doubled(a, b.drop_last());
        assert(quoted(a + b) =~= quoted(a) + quoted(b));
    }
    let one = seq!['\''];
    assert(one.drop_last() =~= Seq::empty());
    assert(quoted(one.drop_last()) =~= Seq::empty());
    assert(quoted(one) =~= seq!['\'', '\'']);
    if !a.contains('\'') {
        lemma_unquoted(a);
    }
}

proof fn lemma_unquoted(a: Seq<char>)
    requires
        !a.contains('\''),
    ensures
        quoted(a) == a,
    decreases a.len(),
{
    if a.len() > 0 {
        assert(a.contains(a[a.len() - 1]));
        assert(!a.drop_last().contains('\'')) by {
            if a.drop_last().contains('\'') {
                let k = choose|k: int| 0 <= k < a.len() - 1 && a.drop_last()[k] == '\'';
                assert(a[k] == '\'');
            }
        }
        lemma_unquoted(a.drop_last());
        assert(quoted(a) =~= a);
    } else {
        assert(quoted(a) =~= a);
    }
}

} // verus!
