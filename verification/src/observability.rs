//! Governance observability: what a DAG tells about a scope's activity, its
//! active policy and the quorum proofs it records.
use vstd::prelude::*;
use crate::dag::{DagPayload, SignedDagNode};
use crate::governance::CliError;
use crate::json::{JsonValue, json_get, json_get_str, json_str, json_text, json_written};
use crate::policy::NodeScope;
use crate::text::{chars_of, contains_text, decimal_digits, decimal_text, str_eq, string_from_chars, texts};

verus! {

/// Node `a` comes before node `b` when listed newest first: it is newer, or
/// as new and earlier in the DAG's order.
pub open spec fn precedes(ts: Seq<i64>, a: int, b: int) -> bool {
    ts[a] > ts[b] || (ts[a] == ts[b] && a < b)
}

/// `r` lists positions newest first.
pub open spec fn newest_first_order(ts: Seq<i64>, r: Seq<usize>) -> bool {
    forall|x: int, y: int| 0 <= x < y < r.len() ==> #[trigger] precedes(ts, r[x] as int, r[y] as int)
}

/// All positions of `ts`, newest first.
fn sort_newest_first(ts: &Vec<i64>) -> (r: Vec<usize>)
    ensures
        r@.len() == ts@.len(),
        newest_first_order(ts@, r@),
        forall|x: int| 0 <= x < r@.len() ==> r@[x] < ts@.len(),
        forall|k: int| 0 <= k < ts@.len() ==> #[trigger] r@.contains(k as usize),
{
    let mut r: Vec<usize> = Vec::new();
    let mut i: usize = 0;
    while i < ts.len()
        invariant
            i <= ts@.len(),
            r@.len() == i,
            newest_first_order(ts@, r@),
            forall|x: int| 0 <= x < r@.len() ==> r@[x] < i,
            forall|k: int| 0 <= k < i ==> #[trigger] r@.contains(k as usize),
        decreases ts.len() - i,
    {
        let mut p: usize = 0;
        while p < r.len() && ts[r[p]] >= ts[i]
            invariant
                i < ts@.len(),
                r@.len() == i,
                p <= r@.len(),
                forall|x: int| 0 <= x < r@.len() ==> r@[x] < i,
                forall|q: int| 0 <= q < p ==> precedes(ts@, r@[q] as int, i as int),
            decreases r.len() - p,
        {
            p = p + 1;
        }
        let ghost old_r = r@;
        proof {
            assert forall|q: int| p <= q < old_r.len() implies precedes(ts@, i as int, old_r[q] as int) by {
                if q > p {
                    assert(precedes(ts@, old_r[p as int] as int, old_r[q] as int));
                }
            }
        }
        r.insert(p, i);
        assert forall|x: int, y: int| 0 <= x < y < r@.len() implies #[trigger] precedes(ts@, r@[x] as int, r@[y] as int) by {
            if y < p {
                assert(r@[x] == old_r[x] && r@[y] == old_r[y]);
            } else if y == p {
                assert(r@[x] == old_r[x]);
            } else if x < p {
                assert(r@[x] == old_r[x] && r@[y] == old_r[y - 1]);
            } else if x == p {
                assert(r@[y] == old_r[y - 1]);
            } else {
                assert(r@[x] == old_r[x - 1] && r@[y] == old_r[y - 1]);
                assert(precedes(ts@, old_r[x - 1] as int, old_r[y - 1] as int));
            }
        }
        assert forall|x: int| 0 <= x < r@.len() implies r@[x] < i + 1 by {
            if x < p {
                assert(r@[x] == old_r[x]);
            } else if x > p {
                assert(r@[x] == old_r[x - 1]);
            }
        }
        assert forall|k: int| 0 <= k < i + 1 implies #[trigger] r@.contains(k as usize) by {
            if k < i {
                assert(old_r.contains(k as usize));
                let w = choose|w: int| 0 <= w < old_r.len() && old_r[w] == k as usize;
                if w < p {
                    assert(r@[w] == old_r[w]);
                } else {
                    assert(r@[w + 1] == old_r[w]);
                }
            } else {
                assert(r@[p as int] == i);
            }
        }
        i = i + 1;
    }
    r
}

/// Positions of the at most `limit` newest entries, newest first (entries as
/// new as each other keep their order), as a stable sort by time followed by
/// `take(limit)` gives them.
pub fn newest_first(ts: &Vec<i64>, limit: usize) -> (r: Vec<usize>)
    ensures
        r@.len() == if limit < ts@.len() { limit as int } else { ts@.len() as int },
        newest_first_order(ts@, r@),
        forall|x: int| 0 <= x < r@.len() ==> r@[x] < ts@.len(),
        forall|k: int, x: int| 0 <= k < ts@.len() && !r@.contains(k as usize) && 0 <= x < r@.len()
            ==> #[trigger] precedes(ts@, r@[x] as int, k),
        limit >= ts@.len() ==> forall|k: int| 0 <= k < ts@.len() ==> #[trigger] r@.contains(k as usize),
{
    let all = sort_newest_first(ts);
    let m = if limit < all.len() { limit } else { all.len() };
    let mut r: Vec<usize> = Vec::new();
    let mut j: usize = 0;
    while j < m
        invariant
            m <= all@.len(),
            j <= m,
            r@ == all@.subrange(0, j as int),
        decreases m - j,
    {
        r.push(all[j]);
        j = j + 1;
    }
    assert forall|k: int, x: int| 0 <= k < ts@.len() && !r@.contains(k as usize) && 0 <= x < r@.len()
        implies #[trigger] precedes(ts@, r@[x] as int, k) by {
        assert(all@.contains(k as usize));
        let w = choose|w: int| 0 <= w < all@.len() && all@[w] == k as usize;
        if w < m {
            assert(r@[w] == all@[w]);
        }
        assert(r@[x] == all@[x]);
        assert(precedes(ts@, all@[x] as int, all@[w] as int));
    }
    if limit >= ts.len() {
        assert(r@ == all@);
    }
    r
}

/// Whether a node belongs to the scope being observed: its scope, and its
/// scope id when one is asked for.
pub open spec fn observed(node: SignedDagNode, scope: NodeScope, scope_id: Option<String>) -> bool {
    &&& node.node.metadata.scope == scope
    &&& match scope_id {
        Some(id) => node.node.metadata.scope_id matches Some(x) && x@ == id@,
        None => true,
    }
}

/// Whether a node belongs to the scope being observed.
pub fn is_observed(node: &SignedDagNode, scope: NodeScope, scope_id: &Option<String>) -> (r: bool)
    ensures
        r == observed(*node, scope, *scope_id),
{
    if node.node.metadata.scope != scope {
        return false;
    }
    match scope_id {
        Some(id) => match &node.node.metadata.scope_id {
            Some(x) => str_eq(x.as_str(), id.as_str()),
            None => false,
        },
        None => true,
    }
}

/// Kinds of governance activity.
#[derive(Debug, Clone)]
pub enum ActivityType {
    ProposalSubmitted,
    VoteCast,
    PolicyChanged,
    FederationJoin,
    Other(String),
}

/// How an activity type is shown.
pub open spec fn activity_label(a: ActivityType) -> Seq<char> {
    match a {
        ActivityType::ProposalSubmitted => "Proposal Submitted"@,
        ActivityType::VoteCast => "Vote Cast"@,
        ActivityType::PolicyChanged => "Policy Changed"@,
        ActivityType::FederationJoin => "Federation Join"@,
        ActivityType::Other(s) => s@,
    }
}

impl ActivityType {
    /// How this activity type is shown.
    pub fn label(&self) -> (r: String)
        ensures
            r@ == activity_label(*self),
    {
        match self {
            ActivityType::ProposalSubmitted => "Proposal Submitted".to_owned(),
            ActivityType::VoteCast => "Vote Cast".to_owned(),
            ActivityType::PolicyChanged => "Policy Changed".to_owned(),
            ActivityType::FederationJoin => "Federation Join".to_owned(),
            ActivityType::Other(s) => s.clone(),
        }
    }
}

/// The text of a string member, or a fallback.
pub open spec fn text_or(v: JsonValue, key: Seq<char>, fallback: Seq<char>) -> Seq<char> {
    match json_get_str(v, key) {
        Some(t) => t,
        None => fallback,
    }
}

/// Reads the text of a string member, or gives a fallback.
fn get_text_or(v: &JsonValue, key: &str, fallback: &str) -> (r: String)
    ensures
        r@ == text_or(*v, key@, fallback@),
{
    match v.get_str(key) {
        Some(t) => t.clone(),
        None => fallback.to_owned(),
    }
}

/// The activity a payload records, with its description: JSON payloads with a
/// `type`; other payloads record none.
pub open spec fn activity_outcome(p: DagPayload) -> Option<(ActivityType, Seq<char>)> {
    match p {
        DagPayload::Json(v) => match json_get_str(v, "type"@) {
            None => None,
            Some(t) => Some(
                if t == "Proposal"@ {
                    (ActivityType::ProposalSubmitted, "Proposal: "@ + text_or(v, "title"@, "Untitled proposal"@))
                } else if t == "Vote"@ {
                    (ActivityType::VoteCast, "Vote: "@ + text_or(v, "vote"@, "unknown"@) + " on "@
                        + text_or(v, "target_cid"@, "unknown"@))
                } else if t == "Policy"@ || t == "PolicyUpdate"@ {
                    (ActivityType::PolicyChanged, "Policy updated"@)
                } else if t == "FederationJoin"@ {
                    (ActivityType::FederationJoin, "Joined federation: "@ + text_or(v, "federation_id"@, "unknown"@))
                } else {
                    (ActivityType::Other(arbitrary()), "Activity: "@ + t)
                }),
        },
        _ => None,
    }
}

/// Classifies the activity a payload records and describes it.
pub fn activity_of(p: &DagPayload) -> (r: Option<(ActivityType, String)>)
    ensures
        match activity_outcome(*p) {
            None => r is None,
            Some((a, d)) => r matches Some((x, y)) && y@ == d && if a is Other {
                x is Other && activity_label(x) == json_get_str(p->Json_0, "type"@)->0
            } else {
                x == a
            },
        },
{
    let v = match p {
        DagPayload::Json(v) => v,
        _ => {
            return None;
        },
    };
    let t = match v.get_str("type") {
        Some(t) => t,
        None => {
            return None;
        },
    };
    if str_eq(t.as_str(), "Proposal") {
        let title = get_text_or(v, "title", "Untitled proposal");
        Some((ActivityType::ProposalSubmitted, "Proposal: ".to_owned().concat(title.as_str())))
    } else if str_eq(t.as_str(), "Vote") {
        let vote = get_text_or(v, "vote", "unknown");
        let target = get_text_or(v, "target_cid", "unknown");
        Some((ActivityType::VoteCast,
            "Vote: ".to_owned().concat(vote.as_str()).concat(" on ").concat(target.as_str())))
    } else if str_eq(t.as_str(), "Policy") || str_eq(t.as_str(), "PolicyUpdate") {
        Some((ActivityType::PolicyChanged, "Policy updated".to_owned()))
    } else if str_eq(t.as_str(), "FederationJoin") {
        let fid = get_text_or(v, "federation_id", "unknown");
        Some((ActivityType::FederationJoin, "Joined federation: ".to_owned().concat(fid.as_str())))
    } else {
        Some((ActivityType::Other(t.clone()), "Activity: ".to_owned().concat(t.as_str())))
    }
}

/// A payload that sets a scope's policy: a JSON payload of type `Policy` or `PolicyUpdate`.
pub open spec fn is_policy_payload(p: DagPayload) -> bool {
    p matches DagPayload::Json(v)
        && (json_get_str(v, "type"@) == Some("PolicyUpdate"@) || json_get_str(v, "type"@) == Some("Policy"@))
}

/// Node `i` is one of the observed scope's policy nodes.
pub open spec fn policy_node_wanted(nodes: Seq<SignedDagNode>, i: int, scope: NodeScope, scope_id: Option<String>) -> bool {
    observed(nodes[i], scope, scope_id) && is_policy_payload(nodes[i].node.payload)
}

/// Node `a` is newer than node `i`, or as new and earlier.
pub open spec fn newer_node(nodes: Seq<SignedDagNode>, a: int, i: int) -> bool {
    nodes[a].node.metadata.timestamp > nodes[i].node.metadata.timestamp
        || (nodes[a].node.metadata.timestamp == nodes[i].node.metadata.timestamp && a < i)
}

/// The positions of the marked nodes, newest first, at most `limit` of them:
/// the marked nodes sorted stably by time, newest first, then the first
/// `limit` taken.
pub fn newest_marked(nodes: &Vec<SignedDagNode>, marked: &Vec<bool>, limit: usize) -> (r: Vec<usize>)
    requires
        marked@.len() == nodes@.len(),
    ensures
        r@.len() <= limit,
        forall|x: int| #![trigger r@[x]] 0 <= x < r@.len() ==> r@[x] < nodes@.len() && marked@[r@[x] as int],
        forall|x: int, y: int| 0 <= x < y < r@.len() ==> #[trigger] newer_node(nodes@, r@[x] as int, r@[y] as int),
        forall|i: int| 0 <= i < nodes@.len() && #[trigger] marked@[i] ==>
            (exists|x: int| 0 <= x < r@.len() && r@[x] == i)
            || (r@.len() == limit && forall|x: int| 0 <= x < r@.len() ==> #[trigger] newer_node(nodes@, r@[x] as int, i)),
        limit >= nodes@.len() ==> forall|i: int| 0 <= i < nodes@.len() && #[trigger] marked@[i] ==>
            exists|x: int| 0 <= x < r@.len() && r@[x] == i,
{
    let mut picked: Vec<usize> = Vec::new();
    let mut times: Vec<i64> = Vec::new();
    let mut i: usize = 0;
    while i < nodes.len()
        invariant
            i <= nodes@.len(),
            marked@.len() == nodes@.len(),
            picked@.len() == times@.len(),
            forall|x: int| #![trigger picked@[x]] 0 <= x < picked@.len() ==> picked@[x] < i
                && marked@[picked@[x] as int]
                && times@[x] == nodes@[picked@[x] as int].node.metadata.timestamp,
            forall|x: int, y: int| 0 <= x < y < picked@.len() ==> picked@[x] < picked@[y],
            forall|k: int| 0 <= k < i && #[trigger] marked@[k] ==> picked@.contains(k as usize),
        decreases nodes.len() - i,
    {
        let ghost old_p = picked@;
        let ghost old_t = times@;
        if marked[i] {
            picked.push(i);
            times.push(nodes[i].node.metadata.timestamp);
            assert forall|x: int| #![trigger picked@[x]] 0 <= x < picked@.len() implies picked@[x] < i + 1
                && marked@[picked@[x] as int]
                && times@[x] == nodes@[picked@[x] as int].node.metadata.timestamp by {
                if x < old_p.len() {
                    assert(picked@[x] == old_p[x] && times@[x] == old_t[x]);
                }
            }
            assert forall|x: int, y: int| 0 <= x < y < picked@.len() implies picked@[x] < picked@[y] by {
                if y < old_p.len() {
                    assert(picked@[x] == old_p[x] && picked@[y] == old_p[y]);
                } else {
                    assert(picked@[x] == old_p[x]);
                }
            }
        }
        assert forall|k: int| 0 <= k < i + 1 && #[trigger] marked@[k] implies picked@.contains(k as usize) by {
            if k < i {
                assert(old_p.contains(k as usize));
                let w = choose|w: int| 0 <= w < old_p.len() && old_p[w] == k as usize;
                assert(picked@[w] == old_p[w]);
            } else {
                assert(picked@[picked@.len() - 1] == i);
            }
        }
        i = i + 1;
    }
    let order = newest_first(&times, limit);
    let mut r: Vec<usize> = Vec::new();
    let mut j: usize = 0;
    while j < order.len()
        invariant
            picked@.len() == times@.len(),
            forall|x: int| 0 <= x < order@.len() ==> order@[x] < picked@.len(),
            j <= order@.len(),
            r@.len() == j,
            forall|x: int| 0 <= x < j ==> r@[x] == picked@[order@[x] as int],
        decreases order.len() - j,
    {
        r.push(picked[order[j]]);
        j = j + 1;
    }
    assert forall|x: int| #![trigger r@[x]] 0 <= x < r@.len() implies r@[x] < nodes@.len() && marked@[r@[x] as int] by {
        assert(r@[x] == picked@[order@[x] as int]);
    }
    assert forall|x: int, y: int| 0 <= x < y < r@.len() implies #[trigger] newer_node(nodes@, r@[x] as int, r@[y] as int) by {
        assert(precedes(times@, order@[x] as int, order@[y] as int));
        let (ox, oy) = (order@[x] as int, order@[y] as int);
        assert(r@[x] == picked@[ox] && r@[y] == picked@[oy]);
        if ox < oy {
            assert(picked@[ox] < picked@[oy]);
        } else if oy < ox {
            assert(picked@[oy] < picked@[ox]);
        }
    }
    assert forall|i: int| 0 <= i < nodes@.len() && #[trigger] marked@[i] implies
        (exists|x: int| 0 <= x < r@.len() && r@[x] == i)
        || (r@.len() == limit && forall|x: int| 0 <= x < r@.len() ==> #[trigger] newer_node(nodes@, r@[x] as int, i)) by {
        assert(picked@.contains(i as usize));
        let w = choose|w: int| 0 <= w < picked@.len() && picked@[w] == i as usize;
        if order@.contains(w as usize) {
            let x = choose|x: int| 0 <= x < order@.len() && order@[x] == w as usize;
            assert(r@[x] == i);
        } else {
            assert(limit < times@.len());
            assert forall|x: int| 0 <= x < r@.len() implies #[trigger] newer_node(nodes@, r@[x] as int, i) by {
                assert(precedes(times@, order@[x] as int, w));
                let ox = order@[x] as int;
                assert(r@[x] == picked@[ox]);
                if ox < w {
                    assert(picked@[ox] < picked@[w]);
                } else if w < ox {
                    assert(picked@[w] < picked@[ox]);
                }
            }
        }
    }
    if limit >= nodes.len() {
        assert forall|i: int| 0 <= i < nodes@.len() && #[trigger] marked@[i] implies
            exists|x: int| 0 <= x < r@.len() && r@[x] == i by {
            assert(picked@.contains(i as usize));
            let w = choose|w: int| 0 <= w < picked@.len() && picked@[w] == i as usize;
            assert(picked@.len() <= nodes@.len()) by {
                assert forall|x: int| 0 <= x < picked@.len() implies picked@[x] >= x by {
                    lemma_increasing_at_least(picked@, x);
                }
                if picked@.len() > nodes@.len() {
                    assert(picked@[nodes@.len() as int] >= nodes@.len());
                }
            }
            assert(order@.contains(w as usize));
            let x = choose|x: int| 0 <= x < order@.len() && order@[x] == w as usize;
            assert(r@[x] == i);
        }
    }
    r
}

proof fn lemma_increasing_at_least(s: Seq<usize>, x: int)
    requires
        0 <= x < s.len(),
        forall|a: int, b: int| 0 <= a < b < s.len() ==> s[a] < s[b],
    ensures
        s[x] >= x,
    decreases x,
{
    if x > 0 {
        lemma_increasing_at_least(s, x - 1);
    }
}

/// Reads the policies and votes of a DAG.
#[derive(Debug)]
pub struct PolicyInspector {
    /// The DAG's nodes, in its order.
    pub nodes: Vec<SignedDagNode>,
}

impl PolicyInspector {
    /// An inspector over the DAG's nodes, given in the DAG's order.
    pub fn new(nodes: Vec<SignedDagNode>) -> (r: PolicyInspector)
        ensures
            r.nodes@ == nodes@,
    {
        PolicyInspector { nodes }
    }

    /// The positions of the scope's policy nodes, newest first; the first is
    /// the active policy.
    pub fn policy_nodes(&self, scope: NodeScope, scope_id: &Option<String>) -> (r: Vec<usize>)
        ensures
            ({
                &&& forall|x: int| #![trigger r@[x]] 0 <= x < r@.len() ==> r@[x] < self.nodes@.len()
                    && policy_node_wanted(self.nodes@, r@[x] as int, scope, *scope_id)
                &&& forall|i: int| 0 <= i < self.nodes@.len() && #[trigger] policy_node_wanted(self.nodes@, i, scope, *scope_id)
                    ==> exists|x: int| 0 <= x < r@.len() && r@[x] == i
                &&& forall|x: int, y: int| 0 <= x < y < r@.len() ==> #[trigger] newer_node(self.nodes@, r@[x] as int, r@[y] as int)
            }),
    {
        let mut marked: Vec<bool> = Vec::new();
        let mut i: usize = 0;
        while i < self.nodes.len()
            invariant
                i <= self.nodes@.len(),
                marked@.len() == i,
                forall|k: int| 0 <= k < i ==> marked@[k] == policy_node_wanted(self.nodes@, k, scope, *scope_id),
            decreases self.nodes.len() - i,
        {
            let node = &self.nodes[i];
            let policy = match &node.node.payload {
                DagPayload::Json(v) => match v.get_str("type") {
                    Some(t) => str_eq(t.as_str(), "PolicyUpdate") || str_eq(t.as_str(), "Policy"),
                    None => false,
                },
                _ => false,
            };
            marked.push(is_observed(node, scope, scope_id) && policy);
            i = i + 1;
        }
        let r = newest_marked(&self.nodes, &marked, self.nodes.len());
        assert forall|x: int| #![trigger r@[x]] 0 <= x < r@.len() implies r@[x] < self.nodes@.len()
            && policy_node_wanted(self.nodes@, r@[x] as int, scope, *scope_id) by {
            assert(marked@[r@[x] as int]);
        }
        assert forall|i: int| 0 <= i < self.nodes@.len() && #[trigger] policy_node_wanted(self.nodes@, i, scope, *scope_id)
            implies exists|x: int| 0 <= x < r@.len() && r@[x] == i by {
            assert(marked@[i]);
        }
        r
    }

    /// The position of the scope's active policy: its newest policy node.
    pub fn active_policy(&self, scope: NodeScope, scope_id: &Option<String>) -> (r: Option<usize>)
        ensures
            ({
                match r {
                    None => forall|i: int| 0 <= i < self.nodes@.len() ==> !#[trigger] policy_node_wanted(self.nodes@, i, scope, *scope_id),
                    Some(a) => a < self.nodes@.len() && policy_node_wanted(self.nodes@, a as int, scope, *scope_id)
                        && forall|i: int| 0 <= i < self.nodes@.len() && #[trigger] policy_node_wanted(self.nodes@, i, scope, *scope_id)
                            && i != a ==> newer_node(self.nodes@, a as int, i),
                }
            }),
    {
        let ps = self.policy_nodes(scope, scope_id);
        if ps.len() == 0 {
            assert forall|i: int| 0 <= i < self.nodes@.len() implies !#[trigger] policy_node_wanted(self.nodes@, i, scope, *scope_id) by {
                if policy_node_wanted(self.nodes@, i, scope, *scope_id) {
                    let x = choose|x: int| 0 <= x < ps@.len() && ps@[x] == i;
                }
            }
            return None;
        }
        let a = ps[0];
        assert(policy_node_wanted(self.nodes@, ps@[0] as int, scope, *scope_id));
        assert forall|i: int| 0 <= i < self.nodes@.len() && #[trigger] policy_node_wanted(self.nodes@, i, scope, *scope_id)
            && i != a implies newer_node(self.nodes@, a as int, i) by {
            let y = choose|y: int| 0 <= y < ps@.len() && ps@[y] == i;
            assert(y != 0);
            assert(newer_node(self.nodes@, ps@[0] as int, ps@[y] as int));
        }
        Some(a)
    }
}

/// What the DAG view shows of a node.
#[derive(Debug)]
pub struct DagNodeInfo {
    pub cid: String,
    pub timestamp: i64,
    pub signer_did: String,
    pub payload_type: String,
    pub payload_preview: String,
    pub parent_cids: Vec<String>,
    pub scope_type: NodeScope,
    pub scope_id: Option<String>,
    pub federation_id: String,
}

/// The kind of a payload: a JSON payload's `type`, else the payload's variant.
pub open spec fn payload_type_of(p: DagPayload) -> Seq<char> {
    match p {
        DagPayload::Raw(_) => "Raw"@,
        DagPayload::Json(v) => match json_get_str(v, "type"@) {
            Some(t) => t,
            None => "Json"@,
        },
        DagPayload::Reference(_) => "Reference"@,
        DagPayload::TrustBundle(_) => "TrustBundle"@,
        DagPayload::ExecutionReceipt(_) => "ExecutionReceipt"@,
    }
}

/// A short account of a payload: its size, the title or decision of proposals
/// and votes, or the first 30 characters of an untyped JSON document.
pub open spec fn payload_preview_of(p: DagPayload) -> Seq<char> {
    match p {
        DagPayload::Raw(data) => "<"@ + decimal_digits(data@.len()) + " bytes>"@,
        DagPayload::Json(v) => match json_get_str(v, "type"@) {
            Some(t) => if t == "Proposal"@ {
                match json_get_str(v, "title"@) {
                    Some(title) => "Proposal: "@ + title,
                    None => "Proposal"@,
                }
            } else if t == "Vote"@ {
                match json_get_str(v, "vote"@) {
                    Some(d) => "Vote: "@ + d,
                    None => "Vote"@,
                }
            } else if t == "PolicyUpdateApproval"@ {
                "Policy Update Approval"@
            } else {
                t
            },
            None => {
                let text = json_written(v);
                let n = if text.len() < 30 { text.len() as int } else { 30 };
                text.subrange(0, n) + "..."@
            },
        },
        DagPayload::Reference(c) => "Reference to "@ + c@,
        DagPayload::TrustBundle(c) => "TrustBundle "@ + c@,
        DagPayload::ExecutionReceipt(c) => "ExecutionReceipt "@ + c@,
    }
}

/// `info` shows node `node`, whose CID is `cid`.
pub open spec fn shows_node(node: SignedDagNode, cid: Seq<char>, info: DagNodeInfo) -> bool {
    &&& info.cid@ == cid
    &&& info.timestamp == node.node.metadata.timestamp
    &&& info.signer_did@ == node.node.author@
    &&& info.payload_type@ == payload_type_of(node.node.payload)
    &&& info.payload_preview@ == payload_preview_of(node.node.payload)
    &&& texts(info.parent_cids@) == texts(node.node.parents@)
    &&& info.scope_type == node.node.metadata.scope
    &&& match node.node.metadata.scope_id {
        Some(x) => info.scope_id matches Some(y) && y@ == x@,
        None => info.scope_id is None,
    }
    &&& info.federation_id@ == node.node.metadata.federation_id@
}

fn payload_type(p: &DagPayload) -> (r: String)
    ensures
        r@ == payload_type_of(*p),
{
    match p {
        DagPayload::Raw(_) => "Raw".to_owned(),
        DagPayload::Json(v) => match v.get_str("type") {
            Some(t) => t.clone(),
            None => "Json".to_owned(),
        },
        DagPayload::Reference(_) => "Reference".to_owned(),
        DagPayload::TrustBundle(_) => "TrustBundle".to_owned(),
        DagPayload::ExecutionReceipt(_) => "ExecutionReceipt".to_owned(),
    }
}

fn payload_preview(p: &DagPayload) -> (r: String)
    ensures
        r@ == payload_preview_of(*p),
{
    match p {
        DagPayload::Raw(data) => "<".to_owned().concat(decimal_text(data.len() as u64).as_str()).concat(" bytes>"),
        DagPayload::Json(v) => match v.get_str("type") {
            Some(t) => {
                if str_eq(t.as_str(), "Proposal") {
                    match v.get_str("title") {
                        Some(title) => "Proposal: ".to_owned().concat(title.as_str()),
                        None => "Proposal".to_owned(),
                    }
                } else if str_eq(t.as_str(), "Vote") {
                    match v.get_str("vote") {
                        Some(d) => "Vote: ".to_owned().concat(d.as_str()),
                        None => "Vote".to_owned(),
                    }
                } else if str_eq(t.as_str(), "PolicyUpdateApproval") {
                    "Policy Update Approval".to_owned()
                } else {
                    t.clone()
                }
            },
            None => {
                let text = json_text(v);
                let cs = chars_of(text.as_str());
                let n: usize = if cs.len() < 30 { cs.len() } else { 30 };
                string_from_chars(&cs, 0, n).concat("...")
            },
        },
        DagPayload::Reference(c) => "Reference to ".to_owned().concat(c.as_str()),
        DagPayload::TrustBundle(c) => "TrustBundle ".to_owned().concat(c.as_str()),
        DagPayload::ExecutionReceipt(c) => "ExecutionReceipt ".to_owned().concat(c.as_str()),
    }
}

fn copy_texts(v: &Vec<String>) -> (r: Vec<String>)
    ensures
        texts(r@) == texts(v@),
{
    let mut r: Vec<String> = Vec::new();
    let mut i: usize = 0;
    while i < v.len()
        invariant
            i <= v@.len(),
            texts(r@) == texts(v@.subrange(0, i as int)),
        decreases v.len() - i,
    {
        r.push(v[i].clone());
        i = i + 1;
        assert(texts(v@.subrange(0, i as int)) == texts(v@.subrange(0, i - 1)).push(v@[i - 1]@));
    }
    assert(v@.subrange(0, v@.len() as int) == v@);
    r
}

/// What the DAG view shows of a node whose CID is `cid`.
pub fn node_info(node: &SignedDagNode, cid: &str) -> (r: DagNodeInfo)
    ensures
        shows_node(*node, cid@, r),
{
    DagNodeInfo {
        cid: cid.to_owned(),
        timestamp: node.node.metadata.timestamp,
        signer_did: node.node.author.clone(),
        payload_type: payload_type(&node.node.payload),
        payload_preview: payload_preview(&node.node.payload),
        parent_cids: copy_texts(&node.node.parents),
        scope_type: node.node.metadata.scope,
        scope_id: match &node.node.metadata.scope_id {
            Some(x) => Some(x.clone()),
            None => None,
        },
        federation_id: node.node.metadata.federation_id.clone(),
    }
}

/// The positions, among the first `k` nodes, of the observed scope's nodes, in order.
pub open spec fn observed_positions(nodes: Seq<SignedDagNode>, scope: NodeScope, scope_id: Option<String>, k: int) -> Seq<int>
    decreases k,
{
    if k <= 0 {
        Seq::empty()
    } else {
        let before = observed_positions(nodes, scope, scope_id, k - 1);
        if observed(nodes[k - 1], scope, scope_id) {
            before.push(k - 1)
        } else {
            before
        }
    }
}

/// The DAG view of a scope: its first `limit` nodes in the DAG's order, each
/// as the view shows it; `cids` holds the CID of each node.
pub fn scope_node_infos(
    nodes: &Vec<SignedDagNode>,
    cids: &Vec<String>,
    scope: NodeScope,
    scope_id: &Option<String>,
    limit: usize,
) -> (r: Vec<DagNodeInfo>)
    requires
        cids@.len() == nodes@.len(),
    ensures
        ({
            let ps = observed_positions(nodes@, scope, *scope_id, nodes@.len() as int);
            &&& r@.len() == if ps.len() < limit { ps.len() } else { limit as nat }
            &&& forall|x: int| 0 <= x < r@.len() ==> shows_node(nodes@[ps[x]], cids@[ps[x]]@, #[trigger] r@[x])
        }),
{
    let mut r: Vec<DagNodeInfo> = Vec::new();
    let mut i: usize = 0;
    while i < nodes.len()
        invariant
            i <= nodes@.len(),
            cids@.len() == nodes@.len(),
            ({
                let ps = observed_positions(nodes@, scope, *scope_id, i as int);
                &&& r@.len() == if ps.len() < limit { ps.len() } else { limit as nat }
                &&& forall|x: int| 0 <= x < r@.len() ==> shows_node(nodes@[ps[x]], cids@[ps[x]]@, #[trigger] r@[x])
            }),
        decreases nodes.len() - i,
    {
        let ghost ps = observed_positions(nodes@, scope, *scope_id, i as int);
        if is_observed(&nodes[i], scope, scope_id) {
            assert(observed_positions(nodes@, scope, *scope_id, i + 1) == ps.push(i as int));
            if r.len() < limit {
                let info = node_info(&nodes[i], cids[i].as_str());
                let ghost before = r@;
                r.push(info);
                assert forall|x: int| 0 <= x < r@.len() implies shows_node(nodes@[ps.push(i as int)[x]],
                    cids@[ps.push(i as int)[x]]@, #[trigger] r@[x]) by {
                    if x < before.len() {
                        assert(r@[x] == before[x]);
                    }
                }
            }
        }
        i = i + 1;
    }
    r
}

/// One vote cast on a policy update.
#[derive(Debug)]
pub struct VoteInfo {
    pub cid: String,
    pub voter: String,
    /// The decision the vote names, `unknown` when it names none.
    pub decision: String,
    pub reason: Option<String>,
}

/// One policy update, with the votes cast on it.
#[derive(Debug)]
pub struct PolicyUpdateInfo {
    /// Where the update stands in the DAG's order.
    pub position: usize,
    pub cid: String,
    pub timestamp: i64,
    pub proposer: String,
    pub votes: Vec<VoteInfo>,
}

/// A payload is a vote on the node with CID `target`.
pub open spec fn vote_on(p: DagPayload, target: Seq<char>) -> bool {
    p matches DagPayload::Json(v) && json_get_str(v, "type"@) == Some("Vote"@)
        && json_get_str(v, "target_cid"@) == Some(target)
}

/// The positions, among the first `k` nodes, of the votes on `target`, in order.
pub open spec fn vote_positions(nodes: Seq<SignedDagNode>, target: Seq<char>, k: int) -> Seq<int>
    decreases k,
{
    if k <= 0 {
        Seq::empty()
    } else {
        let before = vote_positions(nodes, target, k - 1);
        if vote_on(nodes[k - 1].node.payload, target) {
            before.push(k - 1)
        } else {
            before
        }
    }
}

/// What is listed of a vote node: its CID, its author, the decision it names
/// (`unknown` when none) and its reason.
pub open spec fn vote_listed(node: SignedDagNode, cid: Seq<char>, v: VoteInfo) -> bool {
    &&& v.cid@ == cid
    &&& v.voter@ == node.node.author@
    &&& match node.node.payload {
        DagPayload::Json(j) => {
            &&& v.decision@ == match json_get_str(j, "vote"@) {
                Some(d) => d,
                None => "unknown"@,
            }
            &&& match json_get_str(j, "reason"@) {
                Some(x) => v.reason matches Some(y) && y@ == x,
                None => v.reason is None,
            }
        },
        _ => false,
    }
}

/// `votes` lists the first `k` nodes' votes on `target`, in the DAG's order.
pub open spec fn votes_listed_upto(
    nodes: Seq<SignedDagNode>, cids: Seq<String>, target: Seq<char>, votes: Seq<VoteInfo>, k: int,
) -> bool {
    let ps = vote_positions(nodes, target, k);
    &&& votes.len() == ps.len()
    &&& forall|x: int| 0 <= x < votes.len() ==> vote_listed(nodes[ps[x]], cids[ps[x]]@, #[trigger] votes[x])
}

/// Node `i` is one of the observed scope's policy updates.
pub open spec fn update_wanted(nodes: Seq<SignedDagNode>, i: int, scope: NodeScope, scope_id: Option<String>) -> bool {
    &&& observed(nodes[i], scope, scope_id)
    &&& nodes[i].node.payload matches DagPayload::Json(v)
    &&& json_get_str(v, "type"@) == Some("PolicyUpdate"@)
}

/// What is listed of a policy update: its CID, time and proposer, and every vote on it.
#[verifier::opaque]
pub open spec fn update_listed(nodes: Seq<SignedDagNode>, cids: Seq<String>, u: PolicyUpdateInfo) -> bool {
    let p = u.position as int;
    &&& u.cid@ == cids[p]@
    &&& u.timestamp == nodes[p].node.metadata.timestamp
    &&& u.proposer@ == nodes[p].node.author@
    &&& votes_listed_upto(nodes, cids, cids[p]@, u.votes@, nodes.len() as int)
}

impl PolicyInspector {
    /// The votes cast on the update with CID `update_cid`, in the DAG's order;
    /// `cids` holds the CID of each node.
    pub fn update_votes(&self, cids: &Vec<String>, update_cid: &str) -> (r: Vec<VoteInfo>)
        requires
            cids@.len() == self.nodes@.len(),
        ensures
            votes_listed_upto(self.nodes@, cids@, update_cid@, r@, self.nodes@.len() as int),
    {
        let nodes = &self.nodes;
        let mut r: Vec<VoteInfo> = Vec::new();
        let mut i: usize = 0;
        while i < nodes.len()
            invariant
                i <= nodes@.len(),
                cids@.len() == nodes@.len(),
                votes_listed_upto(nodes@, cids@, update_cid@, r@, i as int),
            decreases nodes.len() - i,
        {
            let ghost ps = vote_positions(nodes@, update_cid@, i as int);
            if let DagPayload::Json(v) = &nodes[i].node.payload {
                let is_vote = match v.get_str("type") {
                    Some(t) => str_eq(t.as_str(), "Vote"),
                    None => false,
                };
                let on_target = match v.get_str("target_cid") {
                    Some(t) => str_eq(t.as_str(), update_cid),
                    None => false,
                };
                if is_vote && on_target {
                    let decision = match v.get_str("vote") {
                        Some(d) => d.clone(),
                        None => "unknown".to_owned(),
                    };
                    let reason = match v.get_str("reason") {
                        Some(x) => Some(x.clone()),
                        None => None,
                    };
                    let info = VoteInfo { cid: cids[i].clone(), voter: nodes[i].node.author.clone(), decision, reason };
                    assert(vote_listed(nodes@[i as int], cids@[i as int]@, info));
                    let ghost before = r@;
                    r.push(info);
                    assert(vote_positions(nodes@, update_cid@, i + 1) == ps.push(i as int));
                    assert forall|x: int| 0 <= x < r@.len() implies vote_listed(nodes@[ps.push(i as int)[x]],
                        cids@[ps.push(i as int)[x]]@, #[trigger] r@[x]) by {
                        if x < r@.len() - 1 {
                            assert(r@[x] == before[x]);
                        }
                    }
                }
            }
            i = i + 1;
        }
        r
    }

    /// What is listed of the update at position `p`.
    fn update_info(&self, cids: &Vec<String>, p: usize) -> (u: PolicyUpdateInfo)
        requires
            cids@.len() == self.nodes@.len(),
            p < self.nodes@.len(),
        ensures
            u.position == p,
            update_listed(self.nodes@, cids@, u),
    {
        let node = &self.nodes[p];
        let votes = self.update_votes(cids, cids[p].as_str());
        let u = PolicyUpdateInfo {
            position: p,
            cid: cids[p].clone(),
            timestamp: node.node.metadata.timestamp,
            proposer: node.node.author.clone(),
            votes,
        };
        proof {
            reveal(update_listed);
        }
        u
    }

    /// The scope's policy updates, newest first, each with the votes cast on
    /// it; `cids` holds the CID of each node.
    #[verifier::spinoff_prover]
    pub fn update_trail(&self, cids: &Vec<String>, scope: NodeScope, scope_id: &Option<String>) -> (r: Vec<PolicyUpdateInfo>)
        requires
            cids@.len() == self.nodes@.len(),
        ensures
            forall|x: int| #![trigger r@[x]] 0 <= x < r@.len() ==> r@[x].position < self.nodes@.len()
                && update_wanted(self.nodes@, r@[x].position as int, scope, *scope_id)
                && update_listed(self.nodes@, cids@, r@[x]),
            forall|i: int| 0 <= i < self.nodes@.len() && #[trigger] update_wanted(self.nodes@, i, scope, *scope_id)
                ==> exists|x: int| 0 <= x < r@.len() && r@[x].position == i,
            forall|x: int, y: int| 0 <= x < y < r@.len()
                ==> #[trigger] newer_node(self.nodes@, r@[x].position as int, r@[y].position as int),
    {
        let nodes = &self.nodes;
        let mut marked: Vec<bool> = Vec::new();
        let mut i: usize = 0;
        while i < nodes.len()
            invariant
                i <= nodes@.len(),
                marked@.len() == i,
                forall|k: int| 0 <= k < i ==> marked@[k] == update_wanted(nodes@, k, scope, *scope_id),
            decreases nodes.len() - i,
        {
            let node = &nodes[i];
            let is_update = match &node.node.payload {
                DagPayload::Json(v) => match v.get_str("type") {
                    Some(t) => str_eq(t.as_str(), "PolicyUpdate"),
                    None => false,
                },
                _ => false,
            };
            marked.push(is_observed(node, scope, scope_id) && is_update);
            i = i + 1;
        }
        let ps = newest_marked(nodes, &marked, nodes.len());
        let mut r: Vec<PolicyUpdateInfo> = Vec::new();
        let mut j: usize = 0;
        while j < ps.len()
            invariant
                j <= ps@.len(),
                r@.len() == j,
                cids@.len() == nodes@.len(),
                nodes@ == self.nodes@,
                forall|x: int| #![trigger ps@[x]] 0 <= x < ps@.len() ==> ps@[x] < nodes@.len(),
                forall|x: int| #![trigger r@[x]] 0 <= x < j ==> r@[x].position == ps@[x]
                    && update_listed(nodes@, cids@, r@[x]),
            decreases ps.len() - j,
        {
            let u = self.update_info(cids, ps[j]);
            r.push(u);
            j = j + 1;
        }
        assert forall|x: int| #![trigger r@[x]] 0 <= x < r@.len() implies r@[x].position < nodes@.len()
            && update_wanted(nodes@, r@[x].position as int, scope, *scope_id)
            && update_listed(nodes@, cids@, r@[x]) by {
            assert(marked@[ps@[x] as int]);
        }
        assert forall|i: int| 0 <= i < nodes@.len() && #[trigger] update_wanted(nodes@, i, scope, *scope_id)
            implies exists|x: int| 0 <= x < r@.len() && r@[x].position == i by {
            assert(marked@[i]);
            let x = choose|x: int| 0 <= x < ps@.len() && ps@[x] == i;
            assert(r@[x].position == ps@[x]);
        }
        assert forall|x: int, y: int| 0 <= x < y < r@.len()
            implies #[trigger] newer_node(nodes@, r@[x].position as int, r@[y].position as int) by {
            assert(r@[x].position == ps@[x] && r@[y].position == ps@[y]);
            assert(newer_node(nodes@, ps@[x] as int, ps@[y] as int));
        }
        r
    }
}

/// One governance activity read from the DAG.
#[derive(Debug)]
pub struct ActivityEvent {
    pub activity_type: ActivityType,
    /// Where the node stands in the DAG's order; its payload holds the details.
    pub position: usize,
    pub cid: String,
    /// When the node was written, in nanoseconds since the Unix epoch.
    pub timestamp: i64,
    pub actor: String,
    pub description: String,
}

/// Node `i` records an activity of the observed scope.
pub open spec fn activity_node(nodes: Seq<SignedDagNode>, i: int, scope: NodeScope, scope_id: Option<String>) -> bool {
    observed(nodes[i], scope, scope_id) && activity_outcome(nodes[i].node.payload) is Some
}

/// `e` is the activity node `i` records.
pub open spec fn event_of(nodes: Seq<SignedDagNode>, cids: Seq<String>, i: int, e: ActivityEvent) -> bool {
    let (a, d) = activity_outcome(nodes[i].node.payload)->0;
    &&& e.position == i
    &&& e.cid@ == cids[i]@
    &&& e.timestamp == nodes[i].node.metadata.timestamp
    &&& e.actor@ == nodes[i].node.author@
    &&& e.description@ == d
    &&& if a is Other {
        e.activity_type is Other
            && activity_label(e.activity_type) == json_get_str(nodes[i].node.payload->Json_0, "type"@)->0
    } else {
        e.activity_type == a
    }
}

/// The governance activities of a scope, newest first, at most `limit` of
/// them; `cids` holds the CID of each node.
pub fn scope_activities(
    nodes: &Vec<SignedDagNode>,
    cids: &Vec<String>,
    scope: NodeScope,
    scope_id: &Option<String>,
    limit: usize,
) -> (r: Vec<ActivityEvent>)
    requires
        cids@.len() == nodes@.len(),
    ensures
        r@.len() <= limit,
        forall|x: int| #![trigger r@[x]] 0 <= x < r@.len() ==> r@[x].position < nodes@.len()
            && activity_node(nodes@, r@[x].position as int, scope, *scope_id)
            && event_of(nodes@, cids@, r@[x].position as int, r@[x]),
        forall|x: int, y: int| 0 <= x < y < r@.len() ==> #[trigger] newer_node(nodes@, r@[x].position as int, r@[y].position as int),
        forall|i: int| 0 <= i < nodes@.len() && #[trigger] activity_node(nodes@, i, scope, *scope_id) ==>
            (exists|x: int| 0 <= x < r@.len() && r@[x].position == i)
            || (r@.len() == limit && forall|x: int| 0 <= x < r@.len() ==> #[trigger] newer_node(nodes@, r@[x].position as int, i)),
{
    let mut marked: Vec<bool> = Vec::new();
    let mut i: usize = 0;
    while i < nodes.len()
        invariant
            i <= nodes@.len(),
            marked@.len() == i,
            forall|k: int| 0 <= k < i ==> marked@[k] == activity_node(nodes@, k, scope, *scope_id),
        decreases nodes.len() - i,
    {
        let node = &nodes[i];
        let has = match activity_of(&node.node.payload) {
            Some(_) => true,
            None => false,
        };
        marked.push(is_observed(node, scope, scope_id) && has);
        i = i + 1;
    }
    let positions = newest_marked(nodes, &marked, limit);
    let mut r: Vec<ActivityEvent> = Vec::new();
    let mut j: usize = 0;
    while j < positions.len()
        invariant
            cids@.len() == nodes@.len(),
            marked@.len() == nodes@.len(),
            forall|k: int| 0 <= k < nodes@.len() ==> marked@[k] == activity_node(nodes@, k, scope, *scope_id),
            forall|x: int| #![trigger positions@[x]] 0 <= x < positions@.len() ==> positions@[x] < nodes@.len() && marked@[positions@[x] as int],
            j <= positions@.len(),
            r@.len() == j,
            forall|x: int| #![trigger r@[x]] 0 <= x < j ==> r@[x].position == positions@[x]
                && event_of(nodes@, cids@, positions@[x] as int, r@[x]),
        decreases positions.len() - j,
    {
        let p = positions[j];
        let node = &nodes[p];
        assert(marked@[p as int]);
        match activity_of(&node.node.payload) {
            Some((a, d)) => {
                let e = ActivityEvent {
                    activity_type: a,
                    position: p,
                    cid: cids[p].clone(),
                    timestamp: node.node.metadata.timestamp,
                    actor: node.node.author.clone(),
                    description: d,
                };
                let ghost before = r@;
                r.push(e);
                assert forall|x: int| #![trigger r@[x]] 0 <= x < j + 1 implies r@[x].position == positions@[x]
                    && event_of(nodes@, cids@, positions@[x] as int, r@[x]) by {
                    if x < j {
                        assert(r@[x] == before[x]);
                    }
                }
            },
            None => {
                assert(false);
            },
        }
        j = j + 1;
    }
    assert forall|x: int| #![trigger r@[x]] 0 <= x < r@.len() implies r@[x].position < nodes@.len()
        && activity_node(nodes@, r@[x].position as int, scope, *scope_id)
        && event_of(nodes@, cids@, r@[x].position as int, r@[x]) by {
        assert(marked@[positions@[x] as int]);
    }
    assert forall|x: int, y: int| 0 <= x < y < r@.len() implies #[trigger] newer_node(nodes@, r@[x].position as int, r@[y].position as int) by {
        assert(newer_node(nodes@, positions@[x] as int, positions@[y] as int));
    }
    assert forall|i: int| 0 <= i < nodes@.len() && #[trigger] activity_node(nodes@, i, scope, *scope_id) implies
        (exists|x: int| 0 <= x < r@.len() && r@[x].position == i)
        || (r@.len() == limit && forall|x: int| 0 <= x < r@.len() ==> #[trigger] newer_node(nodes@, r@[x].position as int, i)) by {
        assert(marked@[i]);
        if exists|x: int| 0 <= x < positions@.len() && positions@[x] == i {
            let x = choose|x: int| 0 <= x < positions@.len() && positions@[x] == i;
            assert(r@[x].position == i);
        } else {
            assert forall|x: int| 0 <= x < r@.len() implies #[trigger] newer_node(nodes@, r@[x].position as int, i) by {
                assert(newer_node(nodes@, positions@[x] as int, i));
            }
        }
    }
    r
}

/// Node `i` belongs to federation `fid` with scope `scope`.
pub open spec fn in_federation(nodes: Seq<SignedDagNode>, i: int, fid: Seq<char>, scope: NodeScope) -> bool {
    nodes[i].node.metadata.scope == scope && nodes[i].node.metadata.federation_id@ == fid
}

/// Node `i` is a node of the member `id` of kind `scope` in federation `fid`.
pub open spec fn member_node(nodes: Seq<SignedDagNode>, i: int, fid: Seq<char>, scope: NodeScope, id: Seq<char>) -> bool {
    &&& in_federation(nodes, i, fid, scope)
    &&& nodes[i].node.metadata.scope_id matches Some(x) && x@ == id
}

/// The text of member `key` of a JSON payload whose `type` is `t`.
pub open spec fn typed_text(p: DagPayload, t: Seq<char>, key: Seq<char>) -> Option<Seq<char>> {
    match p {
        DagPayload::Json(v) => if json_get_str(v, "type"@) == Some(t) { json_get_str(v, key) } else { None },
        _ => None,
    }
}

/// The name a member last gave itself among the first `k` nodes: the `name`
/// of its latest creation node of type `create_type`.
pub open spec fn member_name_upto(
    nodes: Seq<SignedDagNode>, fid: Seq<char>, scope: NodeScope, create_type: Seq<char>, id: Seq<char>, k: int,
) -> Option<Seq<char>>
    decreases k,
{
    if k <= 0 {
        None
    } else {
        let before = member_name_upto(nodes, fid, scope, create_type, id, k - 1);
        if member_node(nodes, k - 1, fid, scope, id) && typed_text(nodes[k - 1].node.payload, create_type, "name"@) is Some {
            typed_text(nodes[k - 1].node.payload, create_type, "name"@)
        } else {
            before
        }
    }
}

/// The member's head among the first `k` nodes: its newest node, the
/// earliest of equally new ones.
pub open spec fn member_head_upto(
    nodes: Seq<SignedDagNode>, fid: Seq<char>, scope: NodeScope, id: Seq<char>, k: int,
) -> Option<int>
    decreases k,
{
    if k <= 0 {
        None
    } else {
        let before = member_head_upto(nodes, fid, scope, id, k - 1);
        if member_node(nodes, k - 1, fid, scope, id) && (before is None
            || nodes[before->0].node.metadata.timestamp < nodes[k - 1].node.metadata.timestamp) {
            Some(k - 1)
        } else {
            before
        }
    }
}

/// A member of a federation and what the DAG tells of it.
#[derive(Debug)]
pub struct MemberInfo {
    pub id: String,
    pub member_type: String,
    pub name: Option<String>,
    pub latest_head: Option<String>,
    pub latest_timestamp: Option<i64>,
}

/// `m` is the member `id` as the first `k` nodes show it.
pub open spec fn member_as_seen(
    nodes: Seq<SignedDagNode>, cids: Seq<String>, fid: Seq<char>, scope: NodeScope, create_type: Seq<char>,
    m: MemberInfo, k: int,
) -> bool {
    let id = m.id@;
    &&& (match member_name_upto(nodes, fid, scope, create_type, id, k) {
        Some(n) => m.name matches Some(x) && x@ == n,
        None => m.name is None,
    })
    &&& (match member_head_upto(nodes, fid, scope, id, k) {
        Some(h) => m.latest_head matches Some(c) && c@ == cids[h]@
            && m.latest_timestamp == Some(nodes[h].node.metadata.timestamp),
        None => m.latest_head is None && m.latest_timestamp is None,
    })
}

/// Reads the text of member `key` of a JSON payload whose `type` is `t`.
fn get_typed_text(p: &DagPayload, t: &str, key: &str) -> (r: Option<String>)
    ensures
        match typed_text(*p, t@, key@) {
            Some(x) => r matches Some(y) && y@ == x,
            None => r is None,
        },
{
    match p {
        DagPayload::Json(v) => {
            let typed = match v.get_str("type") {
                Some(x) => str_eq(x.as_str(), t),
                None => false,
            };
            if typed {
                match v.get_str(key) {
                    Some(x) => Some(x.clone()),
                    None => None,
                }
            } else {
                None
            }
        },
        _ => None,
    }
}

/// Records one more node of a member: its new name, if it names one, and
/// the node as the member's head if it is newer than the head so far.
fn update_member(m: MemberInfo, node: &SignedDagNode, cid: &String, create_type: &str) -> (r: MemberInfo)
    ensures
        r.id == m.id,
        r.member_type == m.member_type,
        match typed_text(node.node.payload, create_type@, "name"@) {
            Some(n) => r.name matches Some(x) && x@ == n,
            None => r.name == m.name,
        },
        (m.latest_timestamp is None || m.latest_timestamp->0 < node.node.metadata.timestamp) ==>
            (r.latest_head matches Some(c) && c@ == cid@) && r.latest_timestamp == Some(node.node.metadata.timestamp),
        !(m.latest_timestamp is None || m.latest_timestamp->0 < node.node.metadata.timestamp) ==>
            r.latest_head == m.latest_head && r.latest_timestamp == m.latest_timestamp,
{
    let name = match get_typed_text(&node.node.payload, create_type, "name") {
        Some(n) => Some(n),
        None => m.name,
    };
    let ts = node.node.metadata.timestamp;
    let newer = match m.latest_timestamp {
        None => true,
        Some(t) => t < ts,
    };
    if newer {
        MemberInfo { id: m.id, member_type: m.member_type, name, latest_head: Some(cid.clone()), latest_timestamp: Some(ts) }
    } else {
        MemberInfo { id: m.id, member_type: m.member_type, name, latest_head: m.latest_head, latest_timestamp: m.latest_timestamp }
    }
}

/// What the members found among the first `k` nodes look like.
#[verifier::opaque]
pub open spec fn members_seen(
    nodes: Seq<SignedDagNode>, cids: Seq<String>, fid: Seq<char>, scope: NodeScope,
    member_type: Seq<char>, create_type: Seq<char>, r: Seq<MemberInfo>, k: int,
) -> bool {
    &&& forall|x: int| #![trigger r[x]] 0 <= x < r.len() ==> r[x].member_type@ == member_type
        && member_as_seen(nodes, cids, fid, scope, create_type, r[x], k)
        && exists|j: int| 0 <= j < k && member_node(nodes, j, fid, scope, r[x].id@)
    &&& forall|x: int, y: int| 0 <= x < y < r.len() ==> r[x].id@ != r[y].id@
    &&& forall|j: int| 0 <= j < k && #[trigger] in_federation(nodes, j, fid, scope)
        && nodes[j].node.metadata.scope_id is Some ==>
        exists|x: int| 0 <= x < r.len() && r[x].id@ == nodes[j].node.metadata.scope_id->0@
    &&& forall|id: Seq<char>| (forall|x: int| 0 <= x < r.len() ==> r[x].id@ != id) ==>
        #[trigger] member_name_upto(nodes, fid, scope, create_type, id, k) is None
        && member_head_upto(nodes, fid, scope, id, k) is None
}

/// Position of the member `id`, or the number of members when there is none.
fn find_member(r: &Vec<MemberInfo>, id: &String) -> (j: usize)
    ensures
        j <= r@.len(),
        forall|x: int| 0 <= x < j ==> r@[x].id@ != id@,
        j < r@.len() ==> r@[j as int].id@ == id@,
{
    let mut j: usize = 0;
    while j < r.len()
        invariant
            j <= r@.len(),
            forall|x: int| 0 <= x < j ==> r@[x].id@ != id@,
        decreases r.len() - j,
    {
        if str_eq(r[j].id.as_str(), id.as_str()) {
            return j;
        }
        j = j + 1;
    }
    j
}

/// Adds the member `id`, with nothing known of it yet, when it is not listed.
fn ensure_member(r: &mut Vec<MemberInfo>, id: &String, member_type: &str,
    Ghost(nodes): Ghost<Seq<SignedDagNode>>, Ghost(cids): Ghost<Seq<String>>, Ghost(fid): Ghost<Seq<char>>,
    Ghost(scope): Ghost<NodeScope>, Ghost(ct): Ghost<Seq<char>>, Ghost(k): Ghost<int>) -> (j: usize)
    requires
        members_seen(nodes, cids, fid, scope, member_type@, ct, old(r)@, k),
        0 <= k < nodes.len(),
        member_node(nodes, k, fid, scope, id@),
    ensures
        j < final(r)@.len(),
        final(r)@[j as int].id@ == id@,
        forall|x: int| #![trigger final(r)@[x]] 0 <= x < final(r)@.len() ==> final(r)@[x].member_type@ == member_type@
            && member_as_seen(nodes, cids, fid, scope, ct, final(r)@[x], k)
            && (x != j ==> exists|w: int| 0 <= w < k && member_node(nodes, w, fid, scope, final(r)@[x].id@)),
        forall|x: int, y: int| 0 <= x < y < final(r)@.len() ==> final(r)@[x].id@ != final(r)@[y].id@,
        forall|x: int| 0 <= x < old(r)@.len() ==> final(r)@[x].id == old(r)@[x].id,
        final(r)@.len() == old(r)@.len() || (final(r)@.len() == old(r)@.len() + 1 && j == old(r)@.len()),
{
    reveal(members_seen);
    let ghost old_r = r@;
    let j = find_member(r, id);
    if j == r.len() {
        assert(member_name_upto(nodes, fid, scope, ct, id@, k) is None);
        r.push(MemberInfo {
            id: id.clone(),
            member_type: member_type.to_owned(),
            name: None,
            latest_head: None,
            latest_timestamp: None,
        });
        assert forall|x: int, y: int| 0 <= x < y < r@.len() implies r@[x].id@ != r@[y].id@ by {
            if y < old_r.len() {
                assert(r@[x] == old_r[x] && r@[y] == old_r[y]);
            } else {
                assert(r@[x] == old_r[x]);
            }
        }
        assert forall|x: int| #![trigger r@[x]] 0 <= x < r@.len() implies r@[x].member_type@ == member_type@
            && member_as_seen(nodes, cids, fid, scope, ct, r@[x], k)
            && (x != j ==> exists|w: int| 0 <= w < k && member_node(nodes, w, fid, scope, r@[x].id@)) by {
            if x < old_r.len() {
                assert(r@[x] == old_r[x]);
            }
        }
    }
    j
}

proof fn lemma_other_member_unchanged(
    nodes: Seq<SignedDagNode>, fid: Seq<char>, scope: NodeScope, ct: Seq<char>, id: Seq<char>, k: int,
)
    requires
        0 <= k,
        !member_node(nodes, k, fid, scope, id),
    ensures
        member_name_upto(nodes, fid, scope, ct, id, k + 1) == member_name_upto(nodes, fid, scope, ct, id, k),
        member_head_upto(nodes, fid, scope, id, k + 1) == member_head_upto(nodes, fid, scope, id, k),
{
}

/// After recording node `k` of member `id` at position `j`, the member list
/// is as the first `k + 1` nodes show it.
#[verifier::spinoff_prover]
proof fn lemma_members_step(
    nodes: Seq<SignedDagNode>, cids: Seq<String>, fid: Seq<char>, scope: NodeScope,
    mt: Seq<char>, ct: Seq<char>, old_r: Seq<MemberInfo>, mid: Seq<MemberInfo>, r: Seq<MemberInfo>,
    j: int, k: int, id: Seq<char>,
)
    requires
        members_seen(nodes, cids, fid, scope, mt, ct, old_r, k),
        0 <= k < nodes.len(),
        member_node(nodes, k, fid, scope, id),
        0 <= j < mid.len(),
        mid[j].id@ == id,
        forall|x: int| #![trigger mid[x]] 0 <= x < mid.len() ==> mid[x].member_type@ == mt
            && (x != j ==> member_as_seen(nodes, cids, fid, scope, ct, mid[x], k)
                && exists|w: int| 0 <= w < k && member_node(nodes, w, fid, scope, mid[x].id@)),
        forall|x: int, y: int| 0 <= x < y < mid.len() ==> mid[x].id@ != mid[y].id@,
        forall|x: int| 0 <= x < old_r.len() ==> mid[x].id == old_r[x].id,
        mid.len() == old_r.len() || (mid.len() == old_r.len() + 1 && j == old_r.len()),
        r.len() == mid.len(),
        forall|x: int| 0 <= x < r.len() && x != j ==> r[x] == mid[x],
        r[j].id == mid[j].id,
        r[j].member_type == mid[j].member_type,
        member_as_seen(nodes, cids, fid, scope, ct, r[j], k + 1),
    ensures
        members_seen(nodes, cids, fid, scope, mt, ct, r, k + 1),
{
    reveal(members_seen);
    assert forall|x: int| #![trigger r[x]] 0 <= x < r.len() implies r[x].member_type@ == mt
        && member_as_seen(nodes, cids, fid, scope, ct, r[x], k + 1)
        && exists|w: int| 0 <= w < k + 1 && member_node(nodes, w, fid, scope, r[x].id@) by {
        if x != j {
            assert(r[x] == mid[x]);
            assert(mid[x].id@ != id);
            lemma_other_member_unchanged(nodes, fid, scope, ct, r[x].id@, k);
            let w = choose|w: int| 0 <= w < k && member_node(nodes, w, fid, scope, mid[x].id@);
            assert(member_node(nodes, w, fid, scope, r[x].id@));
        } else {
            assert(member_node(nodes, k, fid, scope, r[x].id@));
        }
    }
    assert forall|x: int, y: int| 0 <= x < y < r.len() implies r[x].id@ != r[y].id@ by {
        assert(r[x].id == mid[x].id && r[y].id == mid[y].id);
    }
    assert forall|w: int| 0 <= w < k + 1 && #[trigger] in_federation(nodes, w, fid, scope)
        && nodes[w].node.metadata.scope_id is Some implies
        exists|x: int| 0 <= x < r.len() && r[x].id@ == nodes[w].node.metadata.scope_id->0@ by {
        if w < k {
            let x = choose|x: int| 0 <= x < old_r.len() && old_r[x].id@ == nodes[w].node.metadata.scope_id->0@;
            assert(r[x].id == mid[x].id);
        } else {
            assert(r[j].id@ == id);
        }
    }
    assert forall|other: Seq<char>| (forall|x: int| 0 <= x < r.len() ==> r[x].id@ != other) implies
        #[trigger] member_name_upto(nodes, fid, scope, ct, other, k + 1) is None
        && member_head_upto(nodes, fid, scope, other, k + 1) is None by {
        assert(r[j].id@ != other);
        assert(!member_node(nodes, k, fid, scope, other));
        lemma_other_member_unchanged(nodes, fid, scope, ct, other, k);
        assert forall|x: int| 0 <= x < old_r.len() implies old_r[x].id@ != other by {
            assert(r[x].id == mid[x].id);
        }
    }
}

/// Records node `k`, a node of the member `id`, in the member list.
fn record_member_node(r: &mut Vec<MemberInfo>, node: &SignedDagNode, cid: &String, id: &String,
    member_type: &str, create_type: &str,
    Ghost(nodes): Ghost<Seq<SignedDagNode>>, Ghost(cids): Ghost<Seq<String>>, Ghost(fid): Ghost<Seq<char>>,
    Ghost(scope): Ghost<NodeScope>, Ghost(k): Ghost<int>)
    requires
        members_seen(nodes, cids, fid, scope, member_type@, create_type@, old(r)@, k),
        0 <= k < nodes.len(),
        cids.len() == nodes.len(),
        *node == nodes[k],
        *cid == cids[k],
        member_node(nodes, k, fid, scope, id@),
    ensures
        members_seen(nodes, cids, fid, scope, member_type@, create_type@, final(r)@, k + 1),
{
    let ghost old_r = r@;
    let ghost ct = create_type@;
    let j = ensure_member(r, id, member_type, Ghost(nodes), Ghost(cids), Ghost(fid), Ghost(scope), Ghost(ct), Ghost(k));
    let ghost mid = r@;
    let m = r.remove(j);
    let m2 = update_member(m, node, cid, create_type);
    r.insert(j, m2);
    proof {
        let ts = nodes[k].node.metadata.timestamp;
        let hb = member_head_upto(nodes, fid, scope, id@, k);
        assert(member_name_upto(nodes, fid, scope, ct, id@, k + 1) == if typed_text(nodes[k].node.payload, ct, "name"@) is Some {
            typed_text(nodes[k].node.payload, ct, "name"@)
        } else {
            member_name_upto(nodes, fid, scope, ct, id@, k)
        });
        assert(member_head_upto(nodes, fid, scope, id@, k + 1) == if hb is None || nodes[hb->0].node.metadata.timestamp < ts {
            Some(k)
        } else {
            hb
        });
        assert(member_as_seen(nodes, cids, fid, scope, ct, mid[j as int], k));
        assert(member_as_seen(nodes, cids, fid, scope, ct, r@[j as int], k + 1));
        assert forall|x: int| 0 <= x < r@.len() && x != j implies r@[x] == mid[x] by {}
        lemma_members_step(nodes, cids, fid, scope, member_type@, ct, old_r, mid, r@, j as int, k, id@);
    }
}

/// The members of kind `scope` of federation `fid`: one entry for each
/// scope id that some node of that kind carries, in order of first appearance,
/// with the name it last gave itself and its newest node.
pub fn federation_members(
    nodes: &Vec<SignedDagNode>,
    cids: &Vec<String>,
    federation_id: &str,
    scope: NodeScope,
    member_type: &str,
    create_type: &str,
) -> (r: Vec<MemberInfo>)
    requires
        cids@.len() == nodes@.len(),
    ensures
        members_seen(nodes@, cids@, federation_id@, scope, member_type@, create_type@, r@, nodes@.len() as int),
{
    let mut r: Vec<MemberInfo> = Vec::new();
    let mut i: usize = 0;
    assert(members_seen(nodes@, cids@, federation_id@, scope, member_type@, create_type@, r@, 0)) by {
        reveal(members_seen);
    }
    while i < nodes.len()
        invariant
            cids@.len() == nodes@.len(),
            i <= nodes@.len(),
            members_seen(nodes@, cids@, federation_id@, scope, member_type@, create_type@, r@, i as int),
        decreases nodes.len() - i,
    {
        let node = &nodes[i];
        let ghost k = i as int;
        let ghost fid = federation_id@;
        let ghost ct = create_type@;
        let qualifies = node.node.metadata.scope == scope && str_eq(node.node.metadata.federation_id.as_str(), federation_id);
        let sid_opt: Option<&String> = if qualifies {
            match &node.node.metadata.scope_id {
                Some(sid) => Some(sid),
                None => None,
            }
        } else {
            None
        };
        match sid_opt {
            None => {
                reveal(members_seen);
                assert forall|id: Seq<char>| #[trigger] member_name_upto(nodes@, fid, scope, ct, id, k + 1)
                    == member_name_upto(nodes@, fid, scope, ct, id, k)
                    && member_head_upto(nodes@, fid, scope, id, k + 1) == member_head_upto(nodes@, fid, scope, id, k) by {
                    assert(!member_node(nodes@, k, fid, scope, id));
                }
                assert forall|x: int| #![trigger r@[x]] 0 <= x < r@.len() implies r@[x].member_type@ == member_type@
                    && member_as_seen(nodes@, cids@, fid, scope, ct, r@[x], k + 1)
                    && exists|j: int| 0 <= j < k + 1 && member_node(nodes@, j, fid, scope, r@[x].id@) by {
                    assert(member_name_upto(nodes@, fid, scope, ct, r@[x].id@, k + 1) == member_name_upto(nodes@, fid, scope, ct, r@[x].id@, k));
                }
            },
            Some(sid) => {
                record_member_node(&mut r, node, &cids[i], sid, member_type, create_type,
                    Ghost(nodes@), Ghost(cids@), Ghost(fid), Ghost(scope), Ghost(k));
            },
        }
        i = i + 1;
    }
    r
}

/// The description the federation last gave itself among the first `k` nodes.
pub open spec fn federation_description_upto(nodes: Seq<SignedDagNode>, fid: Seq<char>, k: int) -> Option<Seq<char>>
    decreases k,
{
    if k <= 0 {
        None
    } else {
        let t = typed_text(nodes[k - 1].node.payload, "FederationCreate"@, "description"@);
        if in_federation(nodes, k - 1, fid, NodeScope::Federation) && t is Some {
            t
        } else {
            federation_description_upto(nodes, fid, k - 1)
        }
    }
}

/// What a DAG tells of a federation.
#[derive(Debug)]
pub struct FederationOverview {
    pub federation_id: String,
    pub description: Option<String>,
    pub cooperatives: Vec<MemberInfo>,
    pub communities: Vec<MemberInfo>,
    /// The CID of the federation's newest node.
    pub federation_head: Option<String>,
}

/// Reads what a DAG tells of a federation.
#[derive(Debug)]
pub struct FederationInspector {
    /// The DAG's nodes, in its order.
    pub nodes: Vec<SignedDagNode>,
}

impl FederationInspector {
    /// An inspector over the DAG's nodes, given in the DAG's order.
    pub fn new(nodes: Vec<SignedDagNode>) -> (r: FederationInspector)
        ensures
            r.nodes@ == nodes@,
    {
        FederationInspector { nodes }
    }

    /// The overview of federation `federation_id`; `cids` holds the CID of each node.
    pub fn federation_overview(&self, cids: &Vec<String>, federation_id: &str) -> (r: FederationOverview)
        requires
            cids@.len() == self.nodes@.len(),
        ensures
            r.federation_id@ == federation_id@,
            match federation_description_upto(self.nodes@, federation_id@, self.nodes@.len() as int) {
                Some(d) => r.description matches Some(x) && x@ == d,
                None => r.description is None,
            },
            members_seen(self.nodes@, cids@, federation_id@, NodeScope::Cooperative, "Cooperative"@,
                "CooperativeCreate"@, r.cooperatives@, self.nodes@.len() as int),
            members_seen(self.nodes@, cids@, federation_id@, NodeScope::Community, "Community"@,
                "CommunityCreate"@, r.communities@, self.nodes@.len() as int),
            match r.federation_head {
                None => forall|i: int| 0 <= i < self.nodes@.len()
                    ==> !#[trigger] in_federation(self.nodes@, i, federation_id@, NodeScope::Federation),
                Some(h) => exists|p: int| 0 <= p < self.nodes@.len()
                    && in_federation(self.nodes@, p, federation_id@, NodeScope::Federation)
                    && cids@[p]@ == h@
                    && forall|i: int| 0 <= i < self.nodes@.len() && i != p
                        && #[trigger] in_federation(self.nodes@, i, federation_id@, NodeScope::Federation)
                        ==> newer_node(self.nodes@, p, i),
            },
    {
        let nodes = &self.nodes;
        let mut description: Option<String> = None;
        let mut marked: Vec<bool> = Vec::new();
        let mut i: usize = 0;
        while i < nodes.len()
            invariant
                i <= nodes@.len(),
                marked@.len() == i,
                forall|k: int| 0 <= k < i ==> marked@[k] == in_federation(nodes@, k, federation_id@, NodeScope::Federation),
                match federation_description_upto(nodes@, federation_id@, i as int) {
                    Some(d) => description matches Some(x) && x@ == d,
                    None => description is None,
                },
            decreases nodes.len() - i,
        {
            let node = &nodes[i];
            let fed = node.node.metadata.scope == NodeScope::Federation
                && str_eq(node.node.metadata.federation_id.as_str(), federation_id);
            if fed {
                if let Some(d) = get_typed_text(&node.node.payload, "FederationCreate", "description") {
                    description = Some(d);
                }
            }
            marked.push(fed);
            i = i + 1;
        }
        let head_pos = newest_marked(nodes, &marked, 1);
        let federation_head = if head_pos.len() > 0 {
            Some(cids[head_pos[0]].clone())
        } else {
            None
        };
        proof {
            if head_pos@.len() > 0 {
                let p = head_pos@[0] as int;
                assert(marked@[p]);
                assert forall|i: int| 0 <= i < nodes@.len() && i != p
                    && #[trigger] in_federation(nodes@, i, federation_id@, NodeScope::Federation)
                    implies newer_node(nodes@, p, i) by {
                    assert(marked@[i]);
                }
            } else {
                assert forall|i: int| 0 <= i < nodes@.len()
                    implies !#[trigger] in_federation(nodes@, i, federation_id@, NodeScope::Federation) by {
                    if in_federation(nodes@, i, federation_id@, NodeScope::Federation) {
                        assert(marked@[i]);
                    }
                }
            }
        }
        let cooperatives = federation_members(nodes, cids, federation_id, NodeScope::Cooperative, "Cooperative", "CooperativeCreate");
        let communities = federation_members(nodes, cids, federation_id, NodeScope::Community, "Community", "CommunityCreate");
        FederationOverview {
            federation_id: federation_id.to_owned(),
            description,
            cooperatives,
            communities,
            federation_head,
        }
    }
}

/// One signer of a quorum proof.
#[derive(Debug)]
pub struct SignerInfo {
    pub did: String,
    pub role: Option<String>,
    pub scope: Option<String>,
}

/// The signer an entry of a proof's `signers` names: an object with a string
/// `did` (and, optionally, string `role` and `scope`), or a bare string.
pub open spec fn signer_entry(v: JsonValue) -> Option<Seq<char>> {
    match v {
        JsonValue::Object(_) => json_get_str(v, "did"@),
        JsonValue::Str(s) => Some(s@),
        _ => None,
    }
}

/// Reads one entry of a proof's `signers`.
pub fn read_signer(v: &JsonValue) -> (r: Option<SignerInfo>)
    ensures
        match signer_entry(*v) {
            None => r is None,
            Some(d) => r matches Some(s) && s.did@ == d
                && (v is Object ==> (match json_get_str(*v, "role"@) {
                    Some(x) => s.role matches Some(y) && y@ == x,
                    None => s.role is None,
                }) && (match json_get_str(*v, "scope"@) {
                    Some(x) => s.scope matches Some(y) && y@ == x,
                    None => s.scope is None,
                }))
                && (v is Str ==> s.role is None && s.scope is None),
        },
{
    match v {
        JsonValue::Object(_) => {
            let did = match v.get_str("did") {
                Some(d) => d.clone(),
                None => {
                    return None;
                },
            };
            let role = match v.get_str("role") {
                Some(x) => Some(x.clone()),
                None => None,
            };
            let scope = match v.get_str("scope") {
                Some(x) => Some(x.clone()),
                None => None,
            };
            Some(SignerInfo { did, role, scope })
        },
        JsonValue::Str(s) => Some(SignerInfo { did: s.clone(), role: None, scope: None }),
        _ => None,
    }
}

/// The texts among the entries of a JSON array, in order.
pub open spec fn array_texts(items: Seq<JsonValue>) -> Seq<Seq<char>>
    decreases items.len(),
{
    if items.len() == 0 {
        Seq::empty()
    } else {
        let before = array_texts(items.drop_last());
        match json_str(items.last()) {
            Some(t) => before.push(t),
            None => before,
        }
    }
}

/// The signers an array of entries names, in order.
pub open spec fn array_signers(items: Seq<JsonValue>) -> Seq<Seq<char>>
    decreases items.len(),
{
    if items.len() == 0 {
        Seq::empty()
    } else {
        let before = array_signers(items.drop_last());
        match signer_entry(items.last()) {
            Some(d) => before.push(d),
            None => before,
        }
    }
}

/// The entries of the array member `key`, or none.
pub open spec fn array_member(v: JsonValue, key: Seq<char>) -> Seq<JsonValue> {
    match json_get(v, key) {
        Some(JsonValue::Array(items)) => items@,
        _ => Seq::empty(),
    }
}

/// What a quorum proof says and whether its required signers all signed.
#[derive(Debug)]
pub struct QuorumCheck {
    pub required_signers: Vec<String>,
    pub actual_signers: Vec<SignerInfo>,
    pub is_valid: bool,
    /// The required signers that did not sign, each once.
    pub missing: Vec<String>,
}

/// The DIDs of a list of signers.
pub open spec fn signer_dids(s: Seq<SignerInfo>) -> Seq<Seq<char>> {
    s.map_values(|x: SignerInfo| x.did@)
}

/// Checks the quorum proof a payload carries in its `quorum_proof` member: the
/// proof holds when every required signer is among the actual signers.
pub fn check_quorum_proof(payload: &DagPayload) -> (r: Result<QuorumCheck, CliError>)
    ensures
        match *payload {
            DagPayload::Json(v) => match json_get(v, "quorum_proof"@) {
                None => r matches Err(CliError::ValidationError(m)) && m@ == "Node does not contain a quorum proof"@,
                Some(proof) => {
                    let required = array_texts(array_member(proof, "required_signers"@));
                    let actual = array_signers(array_member(proof, "signers"@));
                    r matches Ok(q) && {
                        &&& texts(q.required_signers@) == required
                        &&& signer_dids(q.actual_signers@) == actual
                        &&& q.is_valid == (forall|i: int| 0 <= i < required.len() ==> actual.contains(#[trigger] required[i]))
                        &&& q.is_valid == (q.missing@.len() == 0)
                        &&& forall|x: int| 0 <= x < q.missing@.len() ==> required.contains(#[trigger] texts(q.missing@)[x])
                            && !actual.contains(texts(q.missing@)[x])
                        &&& forall|i: int| 0 <= i < required.len() && !actual.contains(#[trigger] required[i])
                            ==> texts(q.missing@).contains(required[i])
                        &&& forall|x: int, y: int| 0 <= x < y < q.missing@.len() ==> texts(q.missing@)[x] != texts(q.missing@)[y]
                    }
                },
            },
            _ => r matches Err(CliError::ValidationError(m)) && m@ == "Node payload is not JSON"@,
        },
{
    let v = match payload {
        DagPayload::Json(v) => v,
        _ => {
            return Err(CliError::ValidationError("Node payload is not JSON".to_owned()));
        },
    };
    let proof = match v.get("quorum_proof") {
        Some(p) => p,
        None => {
            return Err(CliError::ValidationError("Node does not contain a quorum proof".to_owned()));
        },
    };
    let mut required: Vec<String> = Vec::new();
    match proof.get("required_signers") {
        Some(JsonValue::Array(items)) => {
            let mut i: usize = 0;
            while i < items.len()
                invariant
                    i <= items@.len(),
                    texts(required@) == array_texts(items@.subrange(0, i as int)),
                decreases items.len() - i,
            {
                assert(items@.subrange(0, i + 1).drop_last() == items@.subrange(0, i as int));
                let ghost before = required@;
                if let Some(s) = items[i].as_str() {
                    required.push(s.clone());
                    assert(texts(required@) == texts(before).push(s@));
                }
                i = i + 1;
            }
            assert(items@.subrange(0, items@.len() as int) == items@);
        },
        _ => {},
    }
    let mut actual: Vec<SignerInfo> = Vec::new();
    let mut actual_dids: Vec<String> = Vec::new();
    match proof.get("signers") {
        Some(JsonValue::Array(items)) => {
            let mut i: usize = 0;
            while i < items.len()
                invariant
                    i <= items@.len(),
                    signer_dids(actual@) == array_signers(items@.subrange(0, i as int)),
                    texts(actual_dids@) == signer_dids(actual@),
                decreases items.len() - i,
            {
                assert(items@.subrange(0, i + 1).drop_last() == items@.subrange(0, i as int));
                let ghost before = actual@;
                let ghost before_d = actual_dids@;
                if let Some(s) = read_signer(&items[i]) {
                    actual_dids.push(s.did.clone());
                    actual.push(s);
                    assert(signer_dids(actual@) == signer_dids(before).push(actual@[actual@.len() - 1].did@));
                    assert(texts(actual_dids@) == texts(before_d).push(actual@[actual@.len() - 1].did@));
                }
                i = i + 1;
            }
            assert(items@.subrange(0, items@.len() as int) == items@);
        },
        _ => {},
    }
    assert(texts(required@) == array_texts(array_member(*proof, "required_signers"@)));
    assert(signer_dids(actual@) == array_signers(array_member(*proof, "signers"@)));
    let mut missing: Vec<String> = Vec::new();
    let mut k: usize = 0;
    while k < required.len()
        invariant
            k <= required@.len(),
            texts(required@) == array_texts(array_member(*proof, "required_signers"@)),
            signer_dids(actual@) == array_signers(array_member(*proof, "signers"@)),
            texts(actual_dids@) == signer_dids(actual@),
            forall|x: int| 0 <= x < missing@.len() ==> texts(required@).subrange(0, k as int).contains(#[trigger] texts(missing@)[x])
                && !texts(actual_dids@).contains(texts(missing@)[x]),
            forall|i: int| 0 <= i < k && !texts(actual_dids@).contains(#[trigger] texts(required@)[i])
                ==> texts(missing@).contains(texts(required@)[i]),
            forall|x: int, y: int| 0 <= x < y < missing@.len() ==> texts(missing@)[x] != texts(missing@)[y],
        decreases required.len() - k,
    {
        let ghost before = missing@;
        let ghost cur = texts(required@)[k as int];
        if !contains_text(&actual_dids, required[k].as_str()) && !contains_text(&missing, required[k].as_str()) {
            missing.push(required[k].clone());
            assert(texts(missing@) == texts(before).push(cur));
        }
        assert forall|x: int| 0 <= x < missing@.len() implies texts(required@).subrange(0, k + 1).contains(#[trigger] texts(missing@)[x])
            && !texts(actual_dids@).contains(texts(missing@)[x]) by {
            if x < before.len() {
                assert(texts(missing@)[x] == texts(before)[x]);
                let w = choose|w: int| 0 <= w < k && texts(required@).subrange(0, k as int)[w] == texts(before)[x];
                assert(texts(required@).subrange(0, k + 1)[w] == texts(before)[x]);
            } else {
                assert(texts(required@).subrange(0, k + 1)[k as int] == cur);
            }
        }
        assert forall|i: int| 0 <= i < k + 1 && !texts(actual_dids@).contains(#[trigger] texts(required@)[i])
            implies texts(missing@).contains(texts(required@)[i]) by {
            if i < k {
                let w = choose|w: int| 0 <= w < before.len() && texts(before)[w] == texts(required@)[i];
                assert(texts(missing@)[w] == texts(before)[w]);
            } else if texts(before).contains(cur) {
                let w = choose|w: int| 0 <= w < before.len() && texts(before)[w] == cur;
                assert(texts(missing@)[w] == texts(before)[w]);
            } else {
                assert(texts(missing@)[missing@.len() - 1] == cur);
            }
        }
        k = k + 1;
    }
    assert(texts(required@).subrange(0, required@.len() as int) == texts(required@));
    let is_valid = missing.len() == 0;
    assert(is_valid == (forall|i: int| 0 <= i < texts(required@).len() ==> texts(actual_dids@).contains(#[trigger] texts(required@)[i]))) by {
        if !is_valid {
            let w = choose|w: int| 0 <= w < texts(required@).len() && texts(required@)[w] == texts(missing@)[0];
            assert(!texts(actual_dids@).contains(texts(required@)[w]));
        } else {
            assert forall|i: int| 0 <= i < texts(required@).len() implies texts(actual_dids@).contains(#[trigger] texts(required@)[i]) by {
                if !texts(actual_dids@).contains(texts(required@)[i]) {
                    assert(texts(missing@).contains(texts(required@)[i]));
                }
            }
        }
    }
    Ok(QuorumCheck { required_signers: required, actual_signers: actual, is_valid, missing })
}

/// The text reported for an invalid quorum proof.
pub fn missing_signers_message(missing: &Vec<String>) -> (r: String)
    ensures
        r@ == "Missing required signers: "@ + crate::text::joined(texts(missing@), ", "@),
{
    "Missing required signers: ".to_owned().concat(crate::text::join_texts(missing, ", ").as_str())
}

/// The scope kind a lower-cased name stands for: `cooperative` (or `coop`),
/// `community`, `federation`.
pub open spec fn scope_kind_named(name: Seq<char>) -> Option<NodeScope> {
    if name == "cooperative"@ || name == "coop"@ {
        Some(NodeScope::Cooperative)
    } else if name == "community"@ {
        Some(NodeScope::Community)
    } else if name == "federation"@ {
        Some(NodeScope::Federation)
    } else {
        None
    }
}

/// Reads the scope kind an observability command names, in any case.
pub fn parse_scope_type(scope_type: &str) -> (r: Result<NodeScope, CliError>)
    ensures
        match scope_kind_named(crate::text::lowercase(scope_type@)) {
            Some(s) => r == Ok::<NodeScope, CliError>(s),
            None => r matches Err(CliError::SerializationError(m)) && m@ == "Invalid scope type: "@ + scope_type@,
        },
{
    let l = crate::text::to_lowercase(scope_type);
    if str_eq(l.as_str(), "cooperative") || str_eq(l.as_str(), "coop") {
        Ok(NodeScope::Cooperative)
    } else if str_eq(l.as_str(), "community") {
        Ok(NodeScope::Community)
    } else if str_eq(l.as_str(), "federation") {
        Ok(NodeScope::Federation)
    } else {
        Err(CliError::SerializationError("Invalid scope type: ".to_owned().concat(scope_type)))
    }
}

} // verus!
