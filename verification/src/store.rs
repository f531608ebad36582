//! The decisions of the graph store: identifiers, size limits, the agent
//! path of a node, how DECOMPOSES_TO edges extend a node's parents, and the
//! SQL of node and edge queries. The statements themselves run around the
//! library.

use vstd::prelude::*;

use crate::error::{TdgError, TdgResult};
use crate::text::{
    chars_of, contains_string, dec_str, join, join_seqs, owned, push_decimal, push_signed, push_str,
    signed_dec_str, string_views, substring,
};

verus! {

/// At most this many live nodes.
pub const MAX_NODES: i64 = 100000;
/// At most this many live edges.
pub const MAX_EDGES: i64 = 500000;

/// A lowercase hexadecimal digit.
pub open spec fn is_lower_hex(c: char) -> bool {
    ('0' <= c && c <= '9') || ('a' <= c && c <= 'f')
}

/// A fresh random UUID (version 4) in its simple form.
///
/// Calls `uuid::Uuid::new_v4()` and writes it with `as_simple()`, which the
/// `uuid` crate formats as 32 lowercase hexadecimal digits; the digits
/// themselves come from the random source and are not stated.
#[verifier::external_body]
fn new_uuid_simple() -> (s: String)
    ensures
        s@.len() == 32,
        forall|i: int| 0 <= i < 32 ==> is_lower_hex(#[trigger] s@[i]),
{
    uuid::Uuid::new_v4().as_simple().to_string()
}

/// An identifier made of a one-letter prefix and the first twelve digits of
/// a UUID's simple form.
pub fn id_from_uuid(prefix: char, simple: &str) -> (id: String)
    requires
        simple@.len() >= 12,
    ensures
        id@ == seq![prefix] + simple@.take(12),
{
    let v = chars_of(simple);
    let mut id = String::new();
    crate::text::push_char(&mut id, prefix);
    let digits = substring(&v, 0, 12);
    push_str(&mut id, digits.as_str());
    assert(v@.subrange(0, 12) =~= simple@.take(12));
    id
}

/// A well-formed generated identifier: the prefix and twelve lowercase
/// hexadecimal digits.
pub open spec fn generated_id(id: Seq<char>, prefix: char) -> bool {
    &&& id.len() == 13
    &&& id[0] == prefix
    &&& forall|i: int| 1 <= i < 13 ==> is_lower_hex(#[trigger] id[i])
}

/// A new node identifier: "n" and twelve random hexadecimal digits.
pub fn gen_node_id() -> (id: String)
    ensures
        generated_id(id@, 'n'),
{
    let u = new_uuid_simple();
    let id = id_from_uuid('n', u.as_str());
    assert forall|i: int| 1 <= i < 13 implies is_lower_hex(#[trigger] id@[i]) by {
        assert(id@[i] == u@[i - 1]);
    }
    id
}

/// A new edge identifier: "e" and twelve random hexadecimal digits.
pub fn gen_edge_id() -> (id: String)
    ensures
        generated_id(id@, 'e'),
{
    let u = new_uuid_simple();
    let id = id_from_uuid('e', u.as_str());
    assert forall|i: int| 1 <= i < 13 implies is_lower_hex(#[trigger] id@[i]) by {
        assert(id@[i] == u@[i - 1]);
    }
    id
}

/// Whether another node may be added to a graph with `live_nodes` nodes:
/// refused at the limit (a negative count, which the store never reports,
/// is refused as well).
pub open spec fn node_admitted(live_nodes: i64) -> bool {
    0 <= live_nodes < MAX_NODES
}

/// Admit a new node, or refuse it with the size-limit error.
pub fn admit_node(live_nodes: i64) -> (r: TdgResult<()>)
    ensures
        node_admitted(live_nodes) ==> r is Ok,
        !node_admitted(live_nodes) ==> (r matches Err(TdgError::GraphSizeLimit(m))
            && m@ == "Node limit reached: "@ + signed_dec_str(live_nodes as int) + " >= 100000"@),
{
    if 0 <= live_nodes && live_nodes < MAX_NODES {
        Ok(())
    } else {
        let mut m = owned("Node limit reached: ");
        push_signed(&mut m, live_nodes);
        push_str(&mut m, " >= 100000");
        Err(TdgError::GraphSizeLimit(m))
    }
}

/// Whether another edge may be added to a graph with `live_edges` edges.
pub open spec fn edge_admitted(live_edges: i64) -> bool {
    0 <= live_edges < MAX_EDGES
}

/// The graph admits a new node while fewer than 100000 are live, and a new
/// edge while fewer than 500000 are live (counts are never negative).
pub proof fn lemma_size_limits(live_nodes: i64, live_edges: i64)
    ensures
        node_admitted(live_nodes) <==> (0 <= live_nodes && live_nodes < 100000),
        edge_admitted(live_edges) <==> (0 <= live_edges && live_edges < 500000),
        node_admitted(live_nodes) && live_nodes > 0 ==> node_admitted((live_nodes - 1) as i64),
{
}

/// Admit a new edge, or refuse it with the size-limit error.
pub fn admit_edge(live_edges: i64) -> (r: TdgResult<()>)
    ensures
        edge_admitted(live_edges) ==> r is Ok,
        !edge_admitted(live_edges) ==> (r matches Err(TdgError::GraphSizeLimit(m))
            && m@ == "Edge limit reached: "@ + signed_dec_str(live_edges as int) + " >= 500000"@),
{
    if 0 <= live_edges && live_edges < MAX_EDGES {
        Ok(())
    } else {
        let mut m = owned("Edge limit reached: ");
        push_signed(&mut m, live_edges);
        push_str(&mut m, " >= 500000");
        Err(TdgError::GraphSizeLimit(m))
    }
}

/// The agent path of a node: empty without parents; otherwise its first
/// parent's path (or nothing, when that parent has none) followed by `/`
/// and the parent's identifier.
pub open spec fn agent_path_of(parent_ids: Seq<Seq<char>>, first_parent_path: Option<Seq<char>>) -> Seq<char> {
    if parent_ids.len() == 0 {
        seq![]
    } else {
        match first_parent_path {
            Some(p) if p.len() > 0 => p + seq!['/'] + parent_ids[0],
            _ => seq!['/'] + parent_ids[0],
        }
    }
}

/// The agent path of a node with the given parents, `first_parent_path`
/// being the stored path of its first parent where one was found.
pub fn agent_path_for(parent_ids: &Vec<String>, first_parent_path: Option<&str>) -> (p: String)
    ensures
        p@ == agent_path_of(string_views(parent_ids@), match first_parent_path {
            Some(s) => Some(s@),
            None => None,
        }),
{
    if parent_ids.len() == 0 {
        return String::new();
    }
    let pid = parent_ids[0].as_str();
    let mut p = match first_parent_path {
        Some(s) => {
            if s.unicode_len() > 0 { owned(s) } else { String::new() }
        },
        None => String::new(),
    };
    crate::text::push_char(&mut p, '/');
    push_str(&mut p, pid);
    p
}

/// The parents of a node after DECOMPOSES_TO edges from `sources` reach it:
/// its existing parents, then each source not yet among them, in order.
pub open spec fn merged_parents(existing: Seq<Seq<char>>, sources: Seq<Seq<char>>) -> Seq<Seq<char>>
    decreases sources.len(),
{
    if sources.len() == 0 {
        existing
    } else {
        let m = merged_parents(existing, sources.drop_last());
        if m.contains(sources.last()) { m } else { m.push(sources.last()) }
    }
}

/// Merge the sources of a node's DECOMPOSES_TO edges into its parents.
pub fn merge_parent_ids(existing: Vec<String>, sources: &Vec<String>) -> (r: Vec<String>)
    ensures
        string_views(r@) == merged_parents(string_views(existing@), string_views(sources@)),
{
    let ghost ev = string_views(existing@);
    let ghost sv = string_views(sources@);
    let mut r = existing;
    let mut i: usize = 0;
    while i < sources.len()
        invariant
            sv == string_views(sources@),
            i <= sources@.len(),
            string_views(r@) == merged_parents(ev, sv.take(i as int)),
        decreases sources.len() - i,
    {
        assert(sv.take(i + 1).drop_last() =~= sv.take(i as int));
        assert(sv.take(i + 1).last() == sources@[i as int]@);
        if !contains_string(&r, sources[i].as_str()) {
            let ghost before = string_views(r@);
            r.push(owned(sources[i].as_str()));
            assert(string_views(r@) =~= before.push(sources@[i as int]@));
        }
        i = i + 1;
    }
    assert(sv.take(sources.len() as int) =~= sv);
    r
}

/// Merging keeps the existing parents first and in order, adds every source,
/// adds nothing else, and adds no parent twice: a node whose parents were
/// distinct still has distinct parents.
pub proof fn lemma_merge_parents(existing: Seq<Seq<char>>, sources: Seq<Seq<char>>)
    ensures
        merged_parents(existing, sources).len() >= existing.len(),
        merged_parents(existing, sources).take(existing.len() as int) == existing,
        forall|s: Seq<char>| sources.contains(s) ==> merged_parents(existing, sources).contains(s),
        forall|p: Seq<char>| merged_parents(existing, sources).contains(p)
            ==> existing.contains(p) || sources.contains(p),
        existing.no_duplicates() ==> merged_parents(existing, sources).no_duplicates(),
    decreases sources.len(),
{
    if sources.len() > 0 {
        let r = sources.drop_last();
        let l = sources.last();
        let m = merged_parents(existing, r);
        lemma_merge_parents(existing, r);
        if !m.contains(l) {
            assert(m.push(l).take(existing.len() as int) =~= m.take(existing.len() as int));
        }
        let mm = merged_parents(existing, sources);
        assert forall|s: Seq<char>| sources.contains(s) implies mm.contains(s) by {
            let i = choose|i: int| 0 <= i < sources.len() && sources[i] == s;
            if i < sources.len() - 1 {
                assert(r[i] == s);
                assert(r.contains(s));
                let j = choose|j: int| 0 <= j < m.len() && m[j] == s;
                if !m.contains(l) {
                    assert(mm[j] == s);
                }
            } else if !m.contains(l) {
                assert(mm[m.len() as int] == s);
            }
        }
        assert forall|p: Seq<char>| mm.contains(p) implies existing.contains(p) || sources.contains(p) by {
            let j = choose|j: int| 0 <= j < mm.len() && mm[j] == p;
            if j < m.len() {
                assert(m[j] == p);
                assert(m.contains(p));
                if r.contains(p) {
                    let i = choose|i: int| 0 <= i < r.len() && r[i] == p;
                    assert(sources[i] == p);
                }
            } else {
                assert(sources[sources.len() - 1] == p);
            }
        }
    }
}

// ─── Queries ─────────────────────────────────────────────────────────────────

/// A value bound to a query placeholder.
#[derive(Debug, Clone, PartialEq, Eq)]
pub enum SqlValue {
    Text(String),
    Int(i64),
}

/// A statement and the values of its placeholders `?1`, `?2`, ... in order.
#[derive(Debug, Clone)]
pub struct SqlQuery {
    pub sql: String,
    pub params: Vec<SqlValue>,
}

pub enum SqlValueView {
    Text(Seq<char>),
    Int(i64),
}

pub open spec fn sql_value_view(v: SqlValue) -> SqlValueView {
    match v {
        SqlValue::Text(s) => SqlValueView::Text(s@),
        SqlValue::Int(n) => SqlValueView::Int(n),
    }
}

pub open spec fn param_views(ps: Seq<SqlValue>) -> Seq<SqlValueView> {
    ps.map_values(|v: SqlValue| sql_value_view(v))
}

/// Node query filters.
#[derive(Debug, Clone, Default)]
pub struct NodeQuery {
    pub node_type: Option<String>,
    pub lifecycle_state: Option<String>,
    pub source: Option<String>,
    pub teleological_level: Option<String>,
    pub developmental_stage: Option<i32>,
    pub agent_id: Option<String>,
    /// The primary quadrant recorded in the node's quadrants.
    pub quadrant: Option<String>,
    pub include_deleted: bool,
    pub limit: Option<i64>,
    pub offset: Option<i64>,
}

/// A filter: the column expression it compares and the value it wants.
pub open spec fn text_filter(column: Seq<char>, v: Option<String>) -> Seq<(Seq<char>, SqlValueView)> {
    match v {
        Some(s) => seq![(column, SqlValueView::Text(s@))],
        None => seq![],
    }
}

/// The filters a node query sets, in the order they are written.
pub open spec fn node_filters(q: NodeQuery) -> Seq<(Seq<char>, SqlValueView)> {
    text_filter("node_type"@, q.node_type)
        + text_filter("lifecycle_state"@, q.lifecycle_state)
        + text_filter("source"@, q.source)
        + text_filter("teleological_level"@, q.teleological_level)
        + match q.developmental_stage {
            Some(d) => seq![("developmental_stage"@, SqlValueView::Int(d as i64))],
            None => seq![],
        }
        + text_filter("agent_id"@, q.agent_id)
        + text_filter("json_extract(quadrants_json, '$.primary')"@, q.quadrant)
}

/// The conditions of a set of filters, the k-th reading placeholder k + 1.
pub open spec fn filter_conditions(fs: Seq<(Seq<char>, SqlValueView)>) -> Seq<Seq<char>>
    decreases fs.len(),
{
    if fs.len() == 0 {
        seq![]
    } else {
        filter_conditions(fs.drop_last()).push(fs.last().0 + " = ?"@ + dec_str(fs.len()))
    }
}

pub open spec fn filter_values(fs: Seq<(Seq<char>, SqlValueView)>) -> Seq<SqlValueView> {
    fs.map_values(|f: (Seq<char>, SqlValueView)| f.1)
}

/// The columns a node query reads.
pub open spec fn node_columns() -> Seq<char> {
    "SELECT id, node_type, name, description, properties_json, quadrants_json, drives_json,\n         lifecycle_state, teleological_level, developmental_stage, confidence, source,\n         parent_ids, agent_path, created_at, updated_at, valid_from, valid_to,\n         helpful_count, retrieval_count, agent_id\n         FROM nodes "@
}

/// The effective row limit of a node query: 100 unless set, at most
/// `max_limit`.
pub open spec fn node_limit(q: NodeQuery, max_limit: i64) -> i64 {
    let l = match q.limit { Some(l) => l, None => 100 };
    if l < max_limit { l } else { max_limit }
}

/// The statement of a node query: the live-node condition unless deleted
/// nodes are included, then each set filter; newest first; limit and offset
/// last.
pub open spec fn node_query_of(q: NodeQuery, max_limit: i64) -> (Seq<char>, Seq<SqlValueView>) {
    let fs = node_filters(q);
    let conds = (if q.include_deleted { seq![] } else { seq!["valid_to IS NULL"@] }) + filter_conditions(fs);
    let where_clause = if conds.len() == 0 { seq![] } else { "WHERE "@ + join_seqs(conds, " AND "@) };
    let sql = node_columns() + where_clause + "\n         ORDER BY created_at DESC\n         LIMIT ?"@
        + dec_str(fs.len() + 1) + " OFFSET ?"@ + dec_str(fs.len() + 2);
    let params = filter_values(fs) + seq![
        SqlValueView::Int(node_limit(q, max_limit)),
        SqlValueView::Int(match q.offset { Some(o) => o, None => 0 }),
    ];
    (sql, params)
}

fn add_text_filter(
    conds: &mut Vec<String>,
    params: &mut Vec<SqlValue>,
    column: &str,
    v: &Option<String>,
    Ghost(fs): Ghost<Seq<(Seq<char>, SqlValueView)>>,
) -> (r: Ghost<Seq<(Seq<char>, SqlValueView)>>)
    requires
        string_views(old(conds)@) == filter_conditions(fs),
        param_views(old(params)@) == filter_values(fs),
        fs.len() < 100,
    ensures
        r@ == fs + text_filter(column@, *v),
        string_views(final(conds)@) == filter_conditions(r@),
        param_views(final(params)@) == filter_values(r@),
        r@.len() <= fs.len() + 1,
{
    match v {
        Some(s) => {
            let ghost nfs = fs.push((column@, SqlValueView::Text(s@)));
            assert(param_views(old(params)@).len() == old(params)@.len());
            assert(params@.len() == fs.len());
            let mut c = owned(column);
            push_str(&mut c, " = ?");
            push_decimal(&mut c, (params.len() + 1) as u64);
            let ghost cv = string_views(conds@);
            conds.push(c);
            assert(nfs.drop_last() =~= fs);
            assert(string_views(conds@) =~= cv.push(column@ + " = ?"@ + dec_str(nfs.len())));
            let ghost pv = param_views(params@);
            params.push(SqlValue::Text(owned(s.as_str())));
            assert(param_views(params@) =~= pv.push(SqlValueView::Text(s@)));
            assert(filter_values(nfs) =~= filter_values(fs).push(SqlValueView::Text(s@)));
            assert(fs + text_filter(column@, *v) =~= nfs);
            Ghost(nfs)
        },
        None => {
            assert(fs + text_filter(column@, *v) =~= fs);
            Ghost(fs)
        },
    }
}

/// The statement and placeholder values of a node query; `max_limit` caps
/// the number of rows.
pub fn node_query_sql(q: &NodeQuery, max_limit: i64) -> (r: SqlQuery)
    ensures
        r.sql@ == node_query_of(*q, max_limit).0,
        param_views(r.params@) == node_query_of(*q, max_limit).1,
{
    let mut conds: Vec<String> = Vec::new();
    let mut params: Vec<SqlValue> = Vec::new();
    let ghost fs0: Seq<(Seq<char>, SqlValueView)> = seq![];
    assert(string_views(conds@) =~= filter_conditions(fs0));
    assert(param_views(params@) =~= filter_values(fs0));
    let g = add_text_filter(&mut conds, &mut params, "node_type", &q.node_type, Ghost(fs0));
    let g = add_text_filter(&mut conds, &mut params, "lifecycle_state", &q.lifecycle_state, g);
    let g = add_text_filter(&mut conds, &mut params, "source", &q.source, g);
    let g = add_text_filter(&mut conds, &mut params, "teleological_level", &q.teleological_level, g);
    let ghost fs4 = g@;
    let ghost fs5 = fs4 + match q.developmental_stage {
        Some(d) => seq![("developmental_stage"@, SqlValueView::Int(d as i64))],
        None => seq![],
    };
    match q.developmental_stage {
        Some(d) => {
            assert(param_views(params@).len() == params@.len());
            assert(params@.len() == fs4.len());
            let mut c = owned("developmental_stage");
            push_str(&mut c, " = ?");
            push_decimal(&mut c, (params.len() + 1) as u64);
            let ghost cv = string_views(conds@);
            conds.push(c);
            assert(fs5.drop_last() =~= fs4);
            assert(string_views(conds@) =~= cv.push("developmental_stage"@ + " = ?"@ + dec_str(fs5.len())));
            let ghost pv = param_views(params@);
            params.push(SqlValue::Int(d as i64));
            assert(param_views(params@) =~= pv.push(SqlValueView::Int(d as i64)));
            assert(filter_values(fs5) =~= filter_values(fs4).push(SqlValueView::Int(d as i64)));
        },
        None => {
            assert(fs5 =~= fs4);
        },
    }
    let g = add_text_filter(&mut conds, &mut params, "agent_id", &q.agent_id, Ghost(fs5));
    let g = add_text_filter(&mut conds, &mut params, "json_extract(quadrants_json, '$.primary')", &q.quadrant, g);
    let ghost fs = g@;
    assert(fs =~= node_filters(*q));
    assert(param_views(params@).len() == params@.len());
    assert(params@.len() == fs.len());
    let n = params.len();
    // The live-node condition comes first.
    let mut all: Vec<String> = Vec::new();
    if !q.include_deleted {
        all.push(owned("valid_to IS NULL"));
    }
    let ghost av = string_views(all@);
    let mut i: usize = 0;
    while i < conds.len()
        invariant
            i <= conds@.len(),
            string_views(all@) == av + string_views(conds@).take(i as int),
        decreases conds.len() - i,
    {
        let ghost before = string_views(all@);
        all.push(owned(conds[i].as_str()));
        assert(string_views(all@) =~= before.push(conds@[i as int]@));
        assert(string_views(conds@).take(i + 1) =~= string_views(conds@).take(i as int).push(conds@[i as int]@));
        i = i + 1;
    }
    assert(string_views(conds@).take(conds.len() as int) =~= string_views(conds@));
    let ghost want = (if q.include_deleted { seq![] } else { seq!["valid_to IS NULL"@] }) + filter_conditions(fs);
    assert(string_views(all@) =~= want);
    let mut sql = owned("SELECT id, node_type, name, description, properties_json, quadrants_json, drives_json,\n         lifecycle_state, teleological_level, developmental_stage, confidence, source,\n         parent_ids, agent_path, created_at, updated_at, valid_from, valid_to,\n         helpful_count, retrieval_count, agent_id\n         FROM nodes ");
    if all.len() > 0 {
        push_str(&mut sql, "WHERE ");
        let j = join(&all, " AND ");
        push_str(&mut sql, j.as_str());
    }
    push_str(&mut sql, "\n         ORDER BY created_at DESC\n         LIMIT ?");
    push_decimal(&mut sql, (n + 1) as u64);
    push_str(&mut sql, " OFFSET ?");
    push_decimal(&mut sql, (n + 2) as u64);
    let requested = match q.limit { Some(l) => l, None => 100 };
    let limit = if requested < max_limit { requested } else { max_limit };
    let offset = match q.offset { Some(o) => o, None => 0 };
    let ghost pv = param_views(params@);
    params.push(SqlValue::Int(limit));
    params.push(SqlValue::Int(offset));
    assert(param_views(params@) =~= pv + seq![SqlValueView::Int(limit), SqlValueView::Int(offset)]);
    SqlQuery { sql, params }
}

/// Edge query filters.
#[derive(Debug, Clone, Default)]
pub struct EdgeQuery {
    pub source_id: Option<String>,
    pub target_id: Option<String>,
    pub edge_type: Option<String>,
    pub agent_id: Option<String>,
    pub limit: i64,
}

/// The filters an edge query sets, in the order they are written.
pub open spec fn edge_filters(q: EdgeQuery) -> Seq<(Seq<char>, SqlValueView)> {
    text_filter("e.source_id"@, q.source_id)
        + text_filter("e.target_id"@, q.target_id)
        + text_filter("e.edge_type"@, q.edge_type)
        + text_filter("e.agent_id"@, q.agent_id)
}

/// The statement of an edge query: live edges meeting each set filter,
/// newest first, up to the limit.
pub open spec fn edge_query_of(q: EdgeQuery) -> (Seq<char>, Seq<SqlValueView>) {
    let fs = edge_filters(q);
    let conds = seq!["e.valid_to IS NULL"@] + filter_conditions(fs);
    let sql = "SELECT e.id, e.source_id, e.target_id, e.edge_type, e.weight, e.properties_json,\n         e.valid_from, e.valid_to, e.created_at, e.updated_at, e.agent_id\n         FROM edges e WHERE "@
        + join_seqs(conds, " AND "@) + " ORDER BY e.created_at DESC LIMIT ?"@ + dec_str(fs.len() + 1);
    (sql, filter_values(fs).push(SqlValueView::Int(q.limit)))
}

/// The statement and placeholder values of an edge query.
pub fn edge_query_sql(q: &EdgeQuery) -> (r: SqlQuery)
    ensures
        r.sql@ == edge_query_of(*q).0,
        param_views(r.params@) == edge_query_of(*q).1,
{
    let mut conds: Vec<String> = Vec::new();
    let mut params: Vec<SqlValue> = Vec::new();
    let ghost fs0: Seq<(Seq<char>, SqlValueView)> = seq![];
    assert(string_views(conds@) =~= filter_conditions(fs0));
    assert(param_views(params@) =~= filter_values(fs0));
    let g = add_text_filter(&mut conds, &mut params, "e.source_id", &q.source_id, Ghost(fs0));
    let g = add_text_filter(&mut conds, &mut params, "e.target_id", &q.target_id, g);
    let g = add_text_filter(&mut conds, &mut params, "e.edge_type", &q.edge_type, g);
    let g = add_text_filter(&mut conds, &mut params, "e.agent_id", &q.agent_id, g);
    let ghost fs = g@;
    assert(fs =~= edge_filters(*q));
    assert(param_views(params@).len() == params@.len());
    let n = params.len();
    let mut all: Vec<String> = Vec::new();
    all.push(owned("e.valid_to IS NULL"));
    let ghost av = string_views(all@);
    let mut i: usize = 0;
    while i < conds.len()
        invariant
            i <= conds@.len(),
            string_views(all@) == av + string_views(conds@).take(i as int),
        decreases conds.len() - i,
    {
        let ghost before = string_views(all@);
        all.push(owned(conds[i].as_str()));
        assert(string_views(all@) =~= before.push(conds@[i as int]@));
        assert(string_views(conds@).take(i + 1) =~= string_views(conds@).take(i as int).push(conds@[i as int]@));
        i = i + 1;
    }
    assert(string_views(conds@).take(conds.len() as int) =~= string_views(conds@));
    assert(string_views(all@) =~= seq!["e.valid_to IS NULL"@] + filter_conditions(fs));
    let mut sql = owned("SELECT e.id, e.source_id, e.target_id, e.edge_type, e.weight, e.properties_json,\n         e.valid_from, e.valid_to, e.created_at, e.updated_at, e.agent_id\n         FROM edges e WHERE ");
    let j = join(&all, " AND ");
    push_str(&mut sql, j.as_str());
    push_str(&mut sql, " ORDER BY e.created_at DESC LIMIT ?");
    push_decimal(&mut sql, (n + 1) as u64);
    let ghost pv = param_views(params@);
    params.push(SqlValue::Int(q.limit));
    assert(param_views(params@) =~= pv.push(SqlValueView::Int(q.limit)));
    SqlQuery { sql, params }
}

/// Placeholders and values line up in a node query: it binds one value per
/// set filter and then the limit and the offset, and its k-th condition
/// after the live-node one reads placeholder k + 1, the k-th value.
pub proof fn lemma_node_query_placeholders(q: NodeQuery, max_limit: i64)
    ensures
        node_query_of(q, max_limit).1.len() == node_filters(q).len() + 2,
        filter_conditions(node_filters(q)).len() == node_filters(q).len(),
        forall|k: int| 0 <= k < node_filters(q).len() ==>
            #[trigger] filter_conditions(node_filters(q))[k] == node_filters(q)[k].0 + " = ?"@ + dec_str((k + 1) as nat)
            && node_query_of(q, max_limit).1[k] == node_filters(q)[k].1,
{
    lemma_filter_conditions(node_filters(q));
}

proof fn lemma_filter_conditions(fs: Seq<(Seq<char>, SqlValueView)>)
    ensures
        filter_conditions(fs).len() == fs.len(),
        forall|k: int| 0 <= k < fs.len() ==>
            #[trigger] filter_conditions(fs)[k] == fs[k].0 + " = ?"@ + dec_str((k + 1) as nat),
    decreases fs.len(),
{
    if fs.len() > 0 {
        lemma_filter_conditions(fs.drop_last());
        assert forall|k: int| 0 <= k < fs.len() implies
            #[trigger] filter_conditions(fs)[k] == fs[k].0 + " = ?"@ + dec_str((k + 1) as nat) by {
            if k < fs.len() - 1 {
                assert(filter_conditions(fs)[k] == filter_conditions(fs.drop_last())[k]);
                assert(fs.drop_last()[k] == fs[k]);
            }
        }
    }
}

} // verus!
