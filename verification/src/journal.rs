//! The event journal: the in-memory log of recorded events, how it is read
//! back (after an event, up to a time), how a journal file's lines are
//! taken in, and what replaying each kind of event does.
//!
//! Reading and writing the journal file happen around the library; the
//! payload of an event is carried as its JSON text.

use vstd::prelude::*;

use crate::store::is_lower_hex;
use crate::text::{chars_of, owned, push_str, str_eq, substring};

verus! {

/// One recorded event.
#[derive(Debug)]
pub struct JournalEntry {
    pub event_id: String,
    pub event_action: String,
    pub timestamp: String,
    pub node_id: Option<String>,
    pub source_id: Option<String>,
    pub target_id: Option<String>,
    pub agent_id: Option<String>,
    /// The event's payload, as JSON text.
    pub payload: String,
}

/// An event as a mathematical value.
pub struct EntryView {
    pub event_id: Seq<char>,
    pub event_action: Seq<char>,
    pub timestamp: Seq<char>,
    pub node_id: Option<Seq<char>>,
    pub source_id: Option<Seq<char>>,
    pub target_id: Option<Seq<char>>,
    pub agent_id: Option<Seq<char>>,
    pub payload: Seq<char>,
}

pub open spec fn opt_view(o: Option<String>) -> Option<Seq<char>> {
    match o {
        Some(s) => Some(s@),
        None => None,
    }
}

impl View for JournalEntry {
    type V = EntryView;

    open spec fn view(&self) -> EntryView {
        EntryView {
            event_id: self.event_id@,
            event_action: self.event_action@,
            timestamp: self.timestamp@,
            node_id: opt_view(self.node_id),
            source_id: opt_view(self.source_id),
            target_id: opt_view(self.target_id),
            agent_id: opt_view(self.agent_id),
            payload: self.payload@,
        }
    }
}

pub open spec fn entry_views(v: Seq<JournalEntry>) -> Seq<EntryView> {
    v.map_values(|e: JournalEntry| e@)
}

fn copy_opt(o: &Option<String>) -> (r: Option<String>)
    ensures
        opt_view(r) == opt_view(*o),
{
    match o {
        Some(s) => Some(owned(s.as_str())),
        None => None,
    }
}

impl JournalEntry {
    /// A new event; without a payload it carries the empty JSON object.
    pub fn new(
        event_id: &str,
        event_action: &str,
        timestamp: &str,
        node_id: Option<&str>,
        source_id: Option<&str>,
        target_id: Option<&str>,
        agent_id: Option<&str>,
        payload: Option<&str>,
    ) -> (e: JournalEntry)
        ensures
            e@.event_id == event_id@,
            e@.event_action == event_action@,
            e@.timestamp == timestamp@,
            e@.node_id == (match node_id { Some(s) => Some(s@), None => None }),
            e@.source_id == (match source_id { Some(s) => Some(s@), None => None }),
            e@.target_id == (match target_id { Some(s) => Some(s@), None => None }),
            e@.agent_id == (match agent_id { Some(s) => Some(s@), None => None }),
            e@.payload == (match payload { Some(p) => p@, None => "{}"@ }),
    {
        JournalEntry {
            event_id: owned(event_id),
            event_action: owned(event_action),
            timestamp: owned(timestamp),
            node_id: match node_id { Some(s) => Some(owned(s)), None => None },
            source_id: match source_id { Some(s) => Some(owned(s)), None => None },
            target_id: match target_id { Some(s) => Some(owned(s)), None => None },
            agent_id: match agent_id { Some(s) => Some(owned(s)), None => None },
            payload: match payload { Some(p) => owned(p), None => owned("{}") },
        }
    }

    /// A copy of the event.
    pub fn duplicate(&self) -> (e: JournalEntry)
        ensures
            e@ == self@,
    {
        JournalEntry {
            event_id: owned(self.event_id.as_str()),
            event_action: owned(self.event_action.as_str()),
            timestamp: owned(self.timestamp.as_str()),
            node_id: copy_opt(&self.node_id),
            source_id: copy_opt(&self.source_id),
            target_id: copy_opt(&self.target_id),
            agent_id: copy_opt(&self.agent_id),
            payload: owned(self.payload.as_str()),
        }
    }
}

/// A fresh random UUID (version 4) in its hyphenated form.
///
/// Calls `uuid::Uuid::new_v4()` and writes it with `to_string()`, which the
/// `uuid` crate formats as 36 characters: lowercase hexadecimal digits with
/// hyphens at positions 8, 13, 18 and 23; the digits are left to chance.
#[verifier::external_body]
fn new_uuid_hyphenated() -> (s: String)
    ensures
        s@.len() == 36,
        forall|i: int| 0 <= i < 36 ==> (#[trigger] s@[i] == '-' <==> (i == 8 || i == 13 || i == 18 || i == 23)),
        forall|i: int| 0 <= i < 36 && i != 8 && i != 13 && i != 18 && i != 23 ==> is_lower_hex(#[trigger] s@[i]),
{
    uuid::Uuid::new_v4().to_string()
}

/// An event identifier made from a UUID's hyphenated form: "evt:" and its
/// first twelve characters.
pub fn event_id_from_uuid(hyphenated: &str) -> (id: String)
    requires
        hyphenated@.len() >= 12,
    ensures
        id@ == "evt:"@ + hyphenated@.take(12),
{
    let v = chars_of(hyphenated);
    let mut id = owned("evt:");
    let head = substring(&v, 0, 12);
    push_str(&mut id, head.as_str());
    assert(v@.subrange(0, 12) =~= hyphenated@.take(12));
    id
}

/// A well-formed event identifier: "evt:", eight lowercase hexadecimal
/// digits, a hyphen and three more digits (the head of a hyphenated UUID).
pub open spec fn event_id_form(id: Seq<char>) -> bool {
    &&& id.len() == 16
    &&& id.take(4) == "evt:"@
    &&& id[12] == '-'
    &&& forall|i: int| 4 <= i < 16 && i != 12 ==> is_lower_hex(#[trigger] id[i])
}

/// A new event identifier: "evt:" and twelve characters of a random UUID.
pub fn gen_event_id() -> (id: String)
    ensures
        event_id_form(id@),
{
    let u = new_uuid_hyphenated();
    let id = event_id_from_uuid(u.as_str());
    proof {
        reveal_strlit("evt:");
        assert(id@.take(4) =~= "evt:"@);
        assert(id@[12] == u@[8]);
        assert forall|i: int| 4 <= i < 16 && i != 12 implies is_lower_hex(#[trigger] id@[i]) by {
            assert(id@[i] == u@[i - 4]);
        }
    }
    id
}

/// Whether `a` sorts at or before `b`, character by character; this is how
/// `str` compares, its UTF-8 bytes ordering as the code points do.
pub open spec fn lex_le(a: Seq<char>, b: Seq<char>) -> bool
    decreases a.len(),
{
    if a.len() == 0 {
        true
    } else if b.len() == 0 {
        false
    } else if a[0] != b[0] {
        a[0] < b[0]
    } else {
        lex_le(a.drop_first(), b.drop_first())
    }
}

/// Whether `a` sorts at or before `b`.
pub fn str_le(a: &str, b: &str) -> (r: bool)
    ensures
        r == lex_le(a@, b@),
{
    let av = chars_of(a);
    let bv = chars_of(b);
    let mut i: usize = 0;
    assert(av@.skip(0) =~= av@);
    assert(bv@.skip(0) =~= bv@);
    while i < av.len() && i < bv.len() && av[i] == bv[i]
        invariant
            av@ == a@,
            bv@ == b@,
            i <= av@.len(),
            i <= bv@.len(),
            lex_le(av@, bv@) == lex_le(av@.skip(i as int), bv@.skip(i as int)),
        decreases av.len() - i,
    {
        let ghost sa = av@.skip(i as int);
        let ghost sb = bv@.skip(i as int);
        assert(sa.drop_first() =~= av@.skip(i + 1));
        assert(sb.drop_first() =~= bv@.skip(i + 1));
        i = i + 1;
    }
    let ghost sa = av@.skip(i as int);
    let ghost sb = bv@.skip(i as int);
    if i == av.len() {
        assert(sa.len() == 0);
        true
    } else if i == bv.len() {
        assert(sb.len() == 0);
        false
    } else {
        assert(sa[0] == av@[i as int] && sb[0] == bv@[i as int]);
        av[i] < bv[i]
    }
}

/// The position of the first event with the given identifier.
pub open spec fn position_of(v: Seq<EntryView>, id: Seq<char>) -> Option<int> {
    if exists|i: int| 0 <= i < v.len() && v[i].event_id == id {
        Some(choose|i: int| 0 <= i < v.len() && v[i].event_id == id
            && forall|j: int| 0 <= j < i ==> v[j].event_id != id)
    } else {
        None
    }
}

/// Where reading after an event starts: just past the first event with that
/// identifier, or at the beginning when there is none or it is unknown.
pub open spec fn start_after(v: Seq<EntryView>, after: Option<Seq<char>>) -> int {
    match after {
        Some(a) => match position_of(v, a) {
            Some(i) => i + 1,
            None => 0,
        },
        None => 0,
    }
}

/// The events after an event, at most `limit` of them.
pub open spec fn stream_after_of(v: Seq<EntryView>, after: Option<Seq<char>>, limit: Option<usize>) -> Seq<EntryView> {
    let rest = v.skip(start_after(v, after));
    match limit {
        Some(l) if l < rest.len() => rest.take(l as int),
        _ => rest,
    }
}

/// Reading after an event starts just past its first occurrence: when the
/// first event with identifier `id` stands at position `i`, the events after
/// it are those from `i + 1` on, at most `limit` of them.
pub proof fn lemma_stream_after_first(v: Seq<EntryView>, id: Seq<char>, i: int, limit: Option<usize>)
    requires
        0 <= i < v.len(),
        v[i].event_id == id,
        forall|j: int| 0 <= j < i ==> v[j].event_id != id,
    ensures
        position_of(v, id) == Some(i),
        stream_after_of(v, Some(id), limit) == match limit {
            Some(l) if l < v.len() - (i + 1) => v.skip(i + 1).take(l as int),
            _ => v.skip(i + 1),
        },
{
    let k = choose|k: int| 0 <= k < v.len() && v[k].event_id == id
        && forall|j: int| 0 <= j < k ==> v[j].event_id != id;
    assert(0 <= k < v.len() && v[k].event_id == id && forall|j: int| 0 <= j < k ==> v[j].event_id != id);
    if k < i {
        assert(v[k].event_id != id);
    } else if k > i {
        assert(v[i].event_id != id);
    }
}

/// The events at or before a time, in order.
pub open spec fn stream_up_to_of(v: Seq<EntryView>, timestamp: Seq<char>) -> Seq<EntryView> {
    v.filter(|e: EntryView| lex_le(e.timestamp, timestamp))
}

/// How the lines of a journal file are taken in: every entry in order, or
/// none at all once a line cannot be read (the journal then starts fresh).
pub open spec fn loaded_entries(lines: Seq<Option<EntryView>>) -> Seq<EntryView> {
    if exists|i: int| 0 <= i < lines.len() && lines[i] is None {
        seq![]
    } else {
        lines.map_values(|l: Option<EntryView>| l->0)
    }
}

/// The events recorded so far, oldest first.
pub struct JournalLog {
    entries: Vec<JournalEntry>,
}

impl View for JournalLog {
    type V = Seq<EntryView>;

    closed spec fn view(&self) -> Seq<EntryView> {
        entry_views(self.entries@)
    }
}

impl JournalLog {
    /// An empty journal.
    pub fn new() -> (j: JournalLog)
        ensures
            j@ == Seq::<EntryView>::empty(),
    {
        let j = JournalLog { entries: Vec::new() };
        assert(j@ =~= Seq::<EntryView>::empty());
        j
    }

    /// The journal a file's non-blank lines give, each read as an entry
    /// (`None` where a line could not be read).
    pub fn from_lines(lines: Vec<Option<JournalEntry>>) -> (j: JournalLog)
        ensures
            j@ == loaded_entries(lines@.map_values(|l: Option<JournalEntry>| match l {
                Some(e) => Some(e@),
                None => None,
            })),
    {
        let ghost lv = lines@.map_values(|l: Option<JournalEntry>| match l {
            Some(e) => Some(e@),
            None => None,
        });
        let mut entries: Vec<JournalEntry> = Vec::new();
        let ghost all = lines@;
        let mut rest = lines;
        let mut i: usize = 0;
        let n = rest.len();
        while i < n
            invariant
                all == lines@,
                n == all.len(),
                i <= n,
                rest@.len() == n - i,
                forall|k: int| 0 <= k < n - i ==> rest@[k] == all[i + k],
                lv == all.map_values(|l: Option<JournalEntry>| match l {
                    Some(e) => Some(e@),
                    None => None,
                }),
                forall|k: int| 0 <= k < i ==> lv[k] is Some,
                entry_views(entries@) == lv.take(i as int).map_values(|l: Option<EntryView>| l->0),
            decreases n - i,
        {
            let line = rest.remove(0);
            assert(line == all[i as int]);
            match line {
                Some(e) => {
                    let ghost before = entry_views(entries@);
                    let ghost ev = e@;
                    entries.push(e);
                    assert(entry_views(entries@) =~= before.push(ev));
                    assert(lv.take(i + 1) =~= lv.take(i as int).push(lv[i as int]));
                    assert(lv.take(i + 1).map_values(|l: Option<EntryView>| l->0)
                        =~= lv.take(i as int).map_values(|l: Option<EntryView>| l->0).push(ev));
                },
                None => {
                    assert(lv[i as int] is None);
                    assert(0 <= i < lv.len() && lv[i as int] is None);
                    let j = JournalLog { entries: Vec::new() };
                    assert(j@ =~= loaded_entries(lv));
                    return j;
                },
            }
            i = i + 1;
        }
        assert(lv.take(n as int) =~= lv);
        let j = JournalLog { entries };
        assert(j@ =~= loaded_entries(lv));
        j
    }

    /// How many events are recorded.
    pub fn count(&self) -> (n: usize)
        ensures
            n == self@.len(),
    {
        self.entries.len()
    }

    /// The identifier of the latest event.
    pub fn last_event_id(&self) -> (id: Option<String>)
        ensures
            match id {
                Some(s) => self@.len() > 0 && s@ == self@.last().event_id,
                None => self@.len() == 0,
            },
    {
        if self.entries.len() == 0 {
            None
        } else {
            Some(owned(self.entries[self.entries.len() - 1].event_id.as_str()))
        }
    }

    /// Record an event after the others.
    pub fn record(&mut self, entry: JournalEntry)
        ensures
            final(self)@ == old(self)@.push(entry@),
    {
        let ghost before = self@;
        self.entries.push(entry);
        assert(self@ =~= before.push(entry@));
    }

    /// The events after the first with the given identifier (all of them
    /// when it is not given or not found), at most `limit` of them.
    pub fn stream_after(&self, after_event_id: Option<&str>, limit: Option<usize>) -> (r: Vec<JournalEntry>)
        ensures
            entry_views(r@) == stream_after_of(self@, match after_event_id {
                Some(a) => Some(a@),
                None => None,
            }, limit),
    {
        let ghost v = self@;
        let ghost after = match after_event_id { Some(a) => Some(a@), None => None };
        let mut start: usize = 0;
        match after_event_id {
            Some(aid) => {
                let mut i: usize = 0;
                while i < self.entries.len() && !str_eq(self.entries[i].event_id.as_str(), aid)
                    invariant
                        v == entry_views(self.entries@),
                        i <= self.entries@.len(),
                        forall|j: int| 0 <= j < i ==> v[j].event_id != aid@,
                    decreases self.entries.len() - i,
                {
                    assert(v[i as int] == self.entries@[i as int]@);
                    i = i + 1;
                }
                if i < self.entries.len() {
                    assert(v[i as int] == self.entries@[i as int]@);
                    assert(v[i as int].event_id == aid@);
                    assert(position_of(v, aid@) == Some(i as int)) by {
                        let w = choose|k: int| 0 <= k < v.len() && v[k].event_id == aid@
                            && forall|j: int| 0 <= j < k ==> v[j].event_id != aid@;
                        assert(0 <= w < v.len() && v[w].event_id == aid@
                            && forall|j: int| 0 <= j < w ==> v[j].event_id != aid@) by {
                            assert(0 <= i < v.len() && v[i as int].event_id == aid@
                                && forall|j: int| 0 <= j < i ==> v[j].event_id != aid@);
                        }
                        if w < i {
                        } else if w > i {
                            assert(v[i as int].event_id != aid@);
                        }
                    }
                    start = i + 1;
                } else {
                    assert(position_of(v, aid@) is None);
                }
            },
            None => {},
        }
        assert(start == start_after(v, after));
        let end: usize = match limit {
            Some(l) => if l < self.entries.len() - start { start + l } else { self.entries.len() },
            None => self.entries.len(),
        };
        let mut r: Vec<JournalEntry> = Vec::new();
        let mut k: usize = start;
        while k < end
            invariant
                v == entry_views(self.entries@),
                start <= k <= end <= self.entries@.len(),
                entry_views(r@) == v.subrange(start as int, k as int),
            decreases end - k,
        {
            let e = self.entries[k].duplicate();
            let ghost before = entry_views(r@);
            r.push(e);
            assert(entry_views(r@) =~= before.push(v[k as int]));
            assert(v.subrange(start as int, k + 1) =~= v.subrange(start as int, k as int).push(v[k as int]));
            k = k + 1;
        }
        assert(entry_views(r@) =~= stream_after_of(v, after, limit));
        r
    }

    /// The events at or before a time, in order.
    pub fn stream_up_to(&self, timestamp: &str) -> (r: Vec<JournalEntry>)
        ensures
            entry_views(r@) == stream_up_to_of(self@, timestamp@),
    {
        let ghost v = self@;
        let ghost pred = |e: EntryView| lex_le(e.timestamp, timestamp@);
        let mut r: Vec<JournalEntry> = Vec::new();
        let mut i: usize = 0;
        while i < self.entries.len()
            invariant
                v == entry_views(self.entries@),
                pred == (|e: EntryView| lex_le(e.timestamp, timestamp@)),
                i <= self.entries@.len(),
                entry_views(r@) == v.take(i as int).filter(pred),
            decreases self.entries.len() - i,
        {
            reveal_with_fuel(Seq::filter, 1);
            assert(v.take(i + 1).drop_last() =~= v.take(i as int));
            assert(v.take(i + 1).last() == v[i as int]);
            if str_le(self.entries[i].timestamp.as_str(), timestamp) {
                let e = self.entries[i].duplicate();
                let ghost before = entry_views(r@);
                r.push(e);
                assert(entry_views(r@) =~= before.push(v[i as int]));
            }
            i = i + 1;
        }
        assert(v.take(self.entries.len() as int) =~= v);
        r
    }
}

/// What replaying an event does to the store.
#[derive(Debug, Clone, Copy, PartialEq, Eq, Structural)]
pub enum ReplayAction {
    /// Create the node the event names (nothing when it names none).
    CreateNode,
    /// Create the edge between the ends the event names (nothing when one is
    /// missing).
    CreateEdge,
    /// Delete the node the event names.
    DeleteNode,
    /// Nothing: a removed edge is not named by its events.
    Nothing,
    /// Record the event in the store's event table, when it names a node.
    RecordEvent,
}

/// The replay of each kind of event; unknown kinds are not replayed.
pub open spec fn replay_action_of(action: Seq<char>) -> Option<ReplayAction> {
    if action == "node_created"@ {
        Some(ReplayAction::CreateNode)
    } else if action == "edge_created"@ {
        Some(ReplayAction::CreateEdge)
    } else if action == "node_deleted"@ || action == "node_archived"@ {
        Some(ReplayAction::DeleteNode)
    } else if action == "edge_deleted"@ || action == "edge_archived"@ {
        Some(ReplayAction::Nothing)
    } else if action == "drive_recomputed"@ || action == "graph_renormalized"@
        || action == "stage_advanced"@ || action == "node_promoted"@ {
        Some(ReplayAction::RecordEvent)
    } else {
        None
    }
}

/// What replaying an event of this kind does; `None` for a kind replay does
/// not know, which does not count as applied.
pub fn replay_action(event_action: &str) -> (r: Option<ReplayAction>)
    ensures
        r == replay_action_of(event_action@),
{
    if str_eq(event_action, "node_created") {
        Some(ReplayAction::CreateNode)
    } else if str_eq(event_action, "edge_created") {
        Some(ReplayAction::CreateEdge)
    } else if str_eq(event_action, "node_deleted") || str_eq(event_action, "node_archived") {
        Some(ReplayAction::DeleteNode)
    } else if str_eq(event_action, "edge_deleted") || str_eq(event_action, "edge_archived") {
        Some(ReplayAction::Nothing)
    } else if str_eq(event_action, "drive_recomputed") || str_eq(event_action, "graph_renormalized")
        || str_eq(event_action, "stage_advanced") || str_eq(event_action, "node_promoted") {
        Some(ReplayAction::RecordEvent)
    } else {
        None
    }
}

/// The type and name a replayed node gets: those in its payload, else
/// "observation" and "replayed".
pub fn replayed_node_labels(node_type: Option<&str>, name: Option<&str>) -> (r: (String, String))
    ensures
        r.0@ == (match node_type { Some(t) => t@, None => "observation"@ }),
        r.1@ == (match name { Some(n) => n@, None => "replayed"@ }),
{
    (
        match node_type { Some(t) => owned(t), None => owned("observation") },
        match name { Some(n) => owned(n), None => owned("replayed") },
    )
}

/// The type a replayed edge gets: the one in its payload, else "RELATES_TO".
pub fn replayed_edge_type(edge_type: Option<&str>) -> (t: String)
    ensures
        t@ == (match edge_type { Some(e) => e@, None => "RELATES_TO"@ }),
{
    match edge_type {
        Some(e) => owned(e),
        None => owned("RELATES_TO"),
    }
}

/// What a read gives back of a write: once an event is recorded it is the
/// latest, the journal holds one more, and reading after the event that was
/// latest before gives back exactly the new one, provided identifiers are
/// distinct.
pub proof fn lemma_record_then_read(v: Seq<EntryView>, e: EntryView)
    requires
        v.len() > 0,
        forall|i: int, j: int| 0 <= i < j < v.push(e).len() ==> v.push(e)[i].event_id != v.push(e)[j].event_id,
    ensures
        v.push(e).len() == v.len() + 1,
        v.push(e).last().event_id == e.event_id,
        stream_after_of(v.push(e), Some(v.last().event_id), None) == seq![e],
        stream_after_of(v.push(e), Some(e.event_id), None) == Seq::<EntryView>::empty(),
        stream_after_of(v.push(e), None, None) == v.push(e),
{
    let w = v.push(e);
    let k = v.len() - 1;
    assert(w[k].event_id == v.last().event_id);
    let p = position_of(w, v.last().event_id);
    let pi = choose|i: int| 0 <= i < w.len() && w[i].event_id == v.last().event_id
        && forall|j: int| 0 <= j < i ==> w[j].event_id != v.last().event_id;
    assert(0 <= k < w.len() && w[k].event_id == v.last().event_id);
    if pi != k {
        assert(w[pi].event_id == w[k].event_id);
    }
    assert(w.skip(k + 1) =~= seq![e]);
    let qi = choose|i: int| 0 <= i < w.len() && w[i].event_id == e.event_id
        && forall|j: int| 0 <= j < i ==> w[j].event_id != e.event_id;
    assert(w[w.len() - 1].event_id == e.event_id);
    if qi != w.len() - 1 {
        assert(w[qi].event_id == w[w.len() - 1].event_id);
    }
    assert(w.skip(w.len() as int) =~= Seq::<EntryView>::empty());
    assert(w.skip(0) =~= w);
}

} // verus!
