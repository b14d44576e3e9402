//! Scope policies: who may perform which action inside a federation,
//! cooperative or community, and the membership records those rules consult.
use vstd::prelude::*;
use crate::text::str_eq;

verus! {

/// A decentralized identifier, kept as its text form.
pub type Did = String;

/// The kind of scope a DAG node or a policy belongs to.
#[derive(Debug, Clone, Copy, PartialEq, Eq, Structural)]
pub enum NodeScope {
    Federation,
    Cooperative,
    Community,
}

/// The kind of scope a membership is recorded for.
#[derive(Debug, Clone, Copy, PartialEq, Eq, Structural)]
pub enum ScopeType {
    Federation,
    Cooperative,
    Community,
}

/// The name under which policies of a scope kind are filed.
pub open spec fn scope_name(s: NodeScope) -> Seq<char> {
    match s {
        NodeScope::Federation => "Federation"@,
        NodeScope::Cooperative => "Cooperative"@,
        NodeScope::Community => "Community"@,
    }
}

/// The name under which policies of a scope kind are filed.
pub fn node_scope_name(s: NodeScope) -> (r: String)
    ensures
        r@ == scope_name(s),
{
    match s {
        NodeScope::Federation => "Federation".to_owned(),
        NodeScope::Cooperative => "Cooperative".to_owned(),
        NodeScope::Community => "Community".to_owned(),
    }
}

/// One rule of a scope policy: who may perform `action_type`.
#[derive(Debug, Clone)]
pub struct PolicyRule {
    /// The action the rule governs.
    pub action_type: String,
    /// A federation the caller must belong to, if any.
    pub required_membership: Option<String>,
    /// The only callers allowed, if the list is given.
    pub allowed_dids: Option<Vec<Did>>,
}

/// The policy of one scope.
#[derive(Debug, Clone)]
pub struct ScopePolicyConfig {
    pub scope_type: NodeScope,
    pub scope_id: String,
    pub allowed_actions: Vec<PolicyRule>,
}

/// Why a policy refused an action.
#[derive(Debug, Clone)]
pub enum PolicyError {
    /// No rule of the policy names the action.
    ActionNotPermitted,
    /// The caller is not a member of the federation the rule requires.
    UnauthorizedScopeAccess,
    /// The rule lists its callers and the caller is not among them.
    DidNotInAllowlist,
    /// No policy is filed for the scope.
    PolicyNotFound,
    /// Any other failure.
    InternalError(String),
}

/// Copies a string.
pub fn copy_string(s: &String) -> (r: String)
    ensures
        r == *s,
{
    s.clone()
}

/// Copies an optional string.
pub fn copy_opt_string(s: &Option<String>) -> (r: Option<String>)
    ensures
        r == *s,
{
    match s {
        Some(x) => Some(x.clone()),
        None => None,
    }
}

/// Copies a list of strings.
pub fn copy_strings(v: &Vec<String>) -> (r: Vec<String>)
    ensures
        r@ == v@,
{
    let mut out: Vec<String> = Vec::new();
    let mut i: usize = 0;
    while i < v.len()
        invariant
            i <= v@.len(),
            out@ == v@.subrange(0, i as int),
        decreases v.len() - i,
    {
        out.push(v[i].clone());
        i = i + 1;
    }
    assert(out@ == v@);
    out
}

impl PolicyRule {
    /// An exact copy of the rule.
    pub fn copy(&self) -> (r: PolicyRule)
        ensures
            r.action_type == self.action_type,
            r.required_membership == self.required_membership,
            match (r.allowed_dids, self.allowed_dids) {
                (Some(a), Some(b)) => a@ == b@,
                (None, None) => true,
                _ => false,
            },
    {
        PolicyRule {
            action_type: self.action_type.clone(),
            required_membership: copy_opt_string(&self.required_membership),
            allowed_dids: match &self.allowed_dids {
                Some(v) => Some(copy_strings(v)),
                None => None,
            },
        }
    }
}

/// What a rule means: its action, its membership requirement and its allowlist.
pub type RuleMeaning = (Seq<char>, Option<Seq<char>>, Option<Seq<Seq<char>>>);

/// What a policy means: its scope kind, its scope id and the meaning of each rule, in order.
pub type PolicyMeaning = (NodeScope, Seq<char>, Seq<RuleMeaning>);

/// The meaning of a rule.
pub open spec fn rule_view(r: PolicyRule) -> RuleMeaning {
    (
        r.action_type@,
        match r.required_membership {
            Some(f) => Some(f@),
            None => None,
        },
        match r.allowed_dids {
            Some(ds) => Some(ds@.map_values(|d: Did| d@)),
            None => None,
        },
    )
}

/// The meaning of a policy.
pub open spec fn policy_view(p: ScopePolicyConfig) -> PolicyMeaning {
    (p.scope_type, p.scope_id@, p.allowed_actions@.map_values(|r: PolicyRule| rule_view(r)))
}

impl ScopePolicyConfig {
    /// An exact copy of the policy.
    pub fn copy(&self) -> (r: ScopePolicyConfig)
        ensures
            policy_view(r) == policy_view(*self),
    {
        let mut rules: Vec<PolicyRule> = Vec::new();
        let mut i: usize = 0;
        while i < self.allowed_actions.len()
            invariant
                i <= self.allowed_actions@.len(),
                rules@.len() == i,
                forall|j: int| 0 <= j < i ==> rule_view(#[trigger] rules@[j]) == rule_view(self.allowed_actions@[j]),
            decreases self.allowed_actions.len() - i,
        {
            let r = self.allowed_actions[i].copy();
            proof {
                let a = r.allowed_dids;
                let b = self.allowed_actions@[i as int].allowed_dids;
                if a is Some {
                    assert(a->0@.map_values(|d: Did| d@) =~= b->0@.map_values(|d: Did| d@));
                }
            }
            rules.push(r);
            i = i + 1;
        }
        let out = ScopePolicyConfig {
            scope_type: self.scope_type,
            scope_id: self.scope_id.clone(),
            allowed_actions: rules,
        };
        assert(policy_view(out).2 =~= policy_view(*self).2);
        out
    }
}

/// The first rule at or after position `i` that governs `action`.
pub open spec fn find_rule_from(rules: Seq<RuleMeaning>, action: Seq<char>, i: int) -> Option<RuleMeaning>
    decreases rules.len() - i,
{
    if i < 0 || i >= rules.len() {
        None
    } else if rules[i].0 == action {
        Some(rules[i])
    } else {
        find_rule_from(rules, action, i + 1)
    }
}

/// `d` occurs in the list `ds`.
pub open spec fn did_listed(ds: Seq<Did>, d: Seq<char>) -> bool {
    exists|i: int| 0 <= i < ds.len() && #[trigger] ds[i]@ == d
}

/// The membership entry that a federation requirement asks for.
pub open spec fn federation_entry(caller: Seq<char>, federation: Seq<char>) -> (ScopeType, Seq<char>, Seq<char>) {
    (ScopeType::Federation, caller, federation)
}

/// Whether the caller passes a rule: `None` when it does, or the reason it does not.
pub open spec fn rule_refusal(rule: RuleMeaning, caller: Seq<char>, members: Set<(ScopeType, Seq<char>, Seq<char>)>) -> Option<PolicyError> {
    if rule.1 is Some && !members.contains(federation_entry(caller, rule.1->0)) {
        Some(PolicyError::UnauthorizedScopeAccess)
    } else if rule.2 is Some && !rule.2->0.contains(caller) {
        Some(PolicyError::DidNotInAllowlist)
    } else {
        None
    }
}

/// The rule that governs `action` under `policy`, when there is one.
pub open spec fn governing_rule(policy: PolicyMeaning, action: Seq<char>) -> RuleMeaning {
    find_rule_from(policy.2, action, 0)->0
}

/// The decision of a policy on `caller` performing `action`.
pub open spec fn policy_decision(
    policy: PolicyMeaning,
    action: Seq<char>,
    caller: Seq<char>,
    members: Set<(ScopeType, Seq<char>, Seq<char>)>,
) -> Result<(), PolicyError> {
    match find_rule_from(policy.2, action, 0) {
        None => Err(PolicyError::ActionNotPermitted),
        Some(rule) => match rule_refusal(rule, caller, members) {
            Some(e) => Err(e),
            None => Ok(()),
        },
    }
}

/// One recorded membership.
#[derive(Debug, Clone)]
pub struct Membership {
    pub scope_type: ScopeType,
    pub did: Did,
    pub scope_id: String,
}

/// What a membership record says.
pub open spec fn membership_view(m: Membership) -> (ScopeType, Seq<char>, Seq<char>) {
    (m.scope_type, m.did@, m.scope_id@)
}

/// Tracks memberships of DIDs in federations, cooperatives and communities.
#[derive(Debug, Clone)]
pub struct MembershipIndex {
    entries: Vec<Membership>,
}

impl View for MembershipIndex {
    type V = Set<(ScopeType, Seq<char>, Seq<char>)>;

    /// The set of (scope kind, DID, scope id) memberships recorded.
    closed spec fn view(&self) -> Set<(ScopeType, Seq<char>, Seq<char>)> {
        Set::new(
            |t: (ScopeType, Seq<char>, Seq<char>)|
                exists|i: int| 0 <= i < self.entries@.len() && membership_view(#[trigger] self.entries@[i]) == t,
        )
    }
}

impl MembershipIndex {
    /// An index with no memberships.
    pub fn new() -> (r: MembershipIndex)
        ensures
            r@ == Set::<(ScopeType, Seq<char>, Seq<char>)>::empty(),
    {
        let r = MembershipIndex { entries: Vec::new() };
        assert(r@ =~= Set::<(ScopeType, Seq<char>, Seq<char>)>::empty());
        r
    }

    /// Records that `did` belongs to the scope `scope_id` of kind `scope_type`.
    pub fn add_member(&mut self, scope_type: ScopeType, did: Did, scope_id: String)
        ensures
            final(self)@ == old(self)@.insert((scope_type, did@, scope_id@)),
    {
        let ghost before = self@;
        let ghost t = (scope_type, did@, scope_id@);
        self.entries.push(Membership { scope_type, did, scope_id });
        let ghost n = self.entries@.len() - 1;
        assert(membership_view(self.entries@[n]) == t);
        assert forall|u: (ScopeType, Seq<char>, Seq<char>)| self@.contains(u) <==> before.insert(t).contains(u) by {
            if self@.contains(u) {
                let i = choose|i: int| 0 <= i < self.entries@.len() && membership_view(#[trigger] self.entries@[i]) == u;
                if i < n {
                    assert(membership_view(old(self).entries@[i]) == u);
                }
            }
            if before.contains(u) {
                let i = choose|i: int| 0 <= i < old(self).entries@.len() && membership_view(#[trigger] old(self).entries@[i]) == u;
                assert(membership_view(self.entries@[i]) == u);
            }
        }
        assert(self@ =~= before.insert(t));
    }

    /// Registers a DID as member of a federation.
    pub fn add_federation_member(&mut self, did: Did, federation_id: String)
        ensures
            final(self)@ == old(self)@.insert((ScopeType::Federation, did@, federation_id@)),
    {
        self.add_member(ScopeType::Federation, did, federation_id);
    }

    /// Registers a DID as member of a cooperative.
    pub fn add_cooperative_member(&mut self, did: Did, cooperative_id: String)
        ensures
            final(self)@ == old(self)@.insert((ScopeType::Cooperative, did@, cooperative_id@)),
    {
        self.add_member(ScopeType::Cooperative, did, cooperative_id);
    }

    /// Registers a DID as member of a community.
    pub fn add_community_member(&mut self, did: Did, community_id: String)
        ensures
            final(self)@ == old(self)@.insert((ScopeType::Community, did@, community_id@)),
    {
        self.add_member(ScopeType::Community, did, community_id);
    }

    /// Whether `did` is recorded as a member of the scope `scope_id` of kind `scope_type`.
    pub fn is_member_of(&self, did: &Did, scope_type: ScopeType, scope_id: &str) -> (r: bool)
        ensures
            r == self@.contains((scope_type, did@, scope_id@)),
    {
        let ghost t = (scope_type, did@, scope_id@);
        let mut i: usize = 0;
        while i < self.entries.len()
            invariant
                t == (scope_type, did@, scope_id@),
                i <= self.entries@.len(),
                forall|j: int| 0 <= j < i ==> membership_view(#[trigger] self.entries@[j]) != t,
            decreases self.entries.len() - i,
        {
            let e = &self.entries[i];
            let same_kind = match (e.scope_type, scope_type) {
                (ScopeType::Federation, ScopeType::Federation) => true,
                (ScopeType::Cooperative, ScopeType::Cooperative) => true,
                (ScopeType::Community, ScopeType::Community) => true,
                _ => false,
            };
            let same_did = str_eq(e.did.as_str(), did.as_str());
            let same_id = str_eq(e.scope_id.as_str(), scope_id);
            if same_kind && same_did && same_id {
                assert(membership_view(self.entries@[i as int]) == t);
                return true;
            }
            i = i + 1;
        }
        false
    }

    /// Whether `did` is a member of the federation `federation_id`.
    pub fn is_federation_member(&self, did: &Did, federation_id: &str) -> (r: bool)
        ensures
            r == self@.contains((ScopeType::Federation, did@, federation_id@)),
    {
        self.is_member_of(did, ScopeType::Federation, federation_id)
    }

    /// Whether `did` is a member of the cooperative `cooperative_id`.
    pub fn is_cooperative_member(&self, did: &Did, cooperative_id: &str) -> (r: bool)
        ensures
            r == self@.contains((ScopeType::Cooperative, did@, cooperative_id@)),
    {
        self.is_member_of(did, ScopeType::Cooperative, cooperative_id)
    }

    /// Whether `did` is a member of the community `community_id`.
    pub fn is_community_member(&self, did: &Did, community_id: &str) -> (r: bool)
        ensures
            r == self@.contains((ScopeType::Community, did@, community_id@)),
    {
        self.is_member_of(did, ScopeType::Community, community_id)
    }

    /// Whether `did` is a member of the federation `federation_id`
    /// (the check a federation requirement of a rule makes).
    pub fn is_member_of_federation(&self, did: &Did, federation_id: &str) -> (r: bool)
        ensures
            r == self@.contains(federation_entry(did@, federation_id@)),
    {
        self.is_federation_member(did, federation_id)
    }
}

/// Whether `d` occurs in `ds`.
pub fn list_contains_did(ds: &Vec<Did>, d: &Did) -> (r: bool)
    ensures
        r == did_listed(ds@, d@),
{
    let mut i: usize = 0;
    while i < ds.len()
        invariant
            i <= ds@.len(),
            forall|j: int| 0 <= j < i ==> (#[trigger] ds@[j])@ != d@,
        decreases ds.len() - i,
    {
        if ds[i] == *d {
            return true;
        }
        i = i + 1;
    }
    false
}

/// Evaluates whether `caller_did` may perform `action` under `policy`.
///
/// The first rule naming the action decides; without one the action is not
/// permitted. A rule's federation requirement is checked before its allowlist.
pub fn evaluate_policy(
    policy: &ScopePolicyConfig,
    action: &str,
    caller_did: &Did,
    membership_index: &MembershipIndex,
) -> (r: Result<(), PolicyError>)
    ensures
        r == policy_decision(policy_view(*policy), action@, caller_did@, membership_index@),
{
    let rules = &policy.allowed_actions;
    let ghost meanings = policy_view(*policy).2;
    let mut i: usize = 0;
    while i < rules.len()
        invariant
            rules@ == policy.allowed_actions@,
            meanings == policy_view(*policy).2,
            meanings.len() == rules@.len(),
            i <= rules@.len(),
            find_rule_from(meanings, action@, 0) == find_rule_from(meanings, action@, i as int),
        decreases rules.len() - i,
    {
        let rule = &rules[i];
        assert(meanings[i as int] == rule_view(*rule));
        if str_eq(rule.action_type.as_str(), action) {
            assert(find_rule_from(meanings, action@, i as int) == Some(rule_view(*rule)));
            match &rule.required_membership {
                Some(federation_id) => {
                    if !membership_index.is_member_of_federation(caller_did, federation_id.as_str()) {
                        return Err(PolicyError::UnauthorizedScopeAccess);
                    }
                },
                None => {},
            }
            match &rule.allowed_dids {
                Some(allowed) => {
                    let listed = list_contains_did(allowed, caller_did);
                    proof {
                        let m = allowed@.map_values(|d: Did| d@);
                        if listed {
                            let k = choose|k: int| 0 <= k < allowed@.len() && #[trigger] allowed@[k]@ == caller_did@;
                            assert(m[k] == caller_did@);
                        } else {
                            assert forall|k: int| 0 <= k < m.len() implies m[k] != caller_did@ by {
                                assert(allowed@[k]@ == m[k]);
                            }
                        }
                    }
                    if !listed {
                        return Err(PolicyError::DidNotInAllowlist);
                    }
                },
                None => {},
            }
            return Ok(());
        }
        i = i + 1;
    }
    Err(PolicyError::ActionNotPermitted)
}

/// One filed policy with the key it is filed under.
#[derive(Debug, Clone)]
pub struct PolicyEntry {
    pub scope_type: String,
    pub scope_id: String,
    pub policy: ScopePolicyConfig,
}

/// The key a policy entry is filed under.
pub open spec fn entry_key(e: PolicyEntry) -> (Seq<char>, Seq<char>) {
    (e.scope_type@, e.scope_id@)
}

/// The policy of the first entry at or after `i` filed under `k`.
pub open spec fn entry_from(es: Seq<PolicyEntry>, k: (Seq<char>, Seq<char>), i: int) -> Option<ScopePolicyConfig>
    decreases es.len() - i,
{
    if i < 0 || i >= es.len() {
        None
    } else if entry_key(es[i]) == k {
        Some(es[i].policy)
    } else {
        entry_from(es, k, i + 1)
    }
}

proof fn lemma_entry_from_push(es: Seq<PolicyEntry>, e: PolicyEntry, k: (Seq<char>, Seq<char>), j: int)
    requires
        0 <= j <= es.len(),
    ensures
        entry_from(es.push(e), k, j) == (if entry_from(es, k, j) is Some {
            entry_from(es, k, j)
        } else if entry_key(e) == k {
            Some(e.policy)
        } else {
            None
        }),
    decreases es.len() - j,
{
    if j < es.len() {
        assert(es.push(e)[j] == es[j]);
        lemma_entry_from_push(es, e, k, j + 1);
    } else {
        assert(es.push(e)[j] == e);
        assert(entry_from(es.push(e), k, j + 1) is None);
    }
}

proof fn lemma_entry_from_update(es: Seq<PolicyEntry>, i: int, e: PolicyEntry, k: (Seq<char>, Seq<char>), j: int)
    requires
        0 <= i < es.len(),
        0 <= j <= es.len(),
        entry_key(e) == entry_key(es[i]),
    ensures
        k != entry_key(e) ==> entry_from(es.update(i, e), k, j) == entry_from(es, k, j),
        (k == entry_key(e) && j <= i && (forall|m: int| j <= m < i ==> entry_key(#[trigger] es[m]) != k))
            ==> entry_from(es.update(i, e), k, j) == Some(e.policy),
    decreases es.len() - j,
{
    if j < es.len() {
        lemma_entry_from_update(es, i, e, k, j + 1);
    }
}

/// Loads and caches policy configurations for different scopes.
#[derive(Debug, Clone)]
pub struct PolicyLoader {
    entries: Vec<PolicyEntry>,
}

impl View for PolicyLoader {
    type V = Map<(Seq<char>, Seq<char>), PolicyMeaning>;

    /// The meaning of the policy filed under each (scope kind name, scope id).
    closed spec fn view(&self) -> Map<(Seq<char>, Seq<char>), PolicyMeaning> {
        Map::new(
            |k: (Seq<char>, Seq<char>)| entry_from(self.entries@, k, 0) is Some,
            |k: (Seq<char>, Seq<char>)| policy_view(entry_from(self.entries@, k, 0)->0),
        )
    }
}

impl PolicyLoader {
    /// A loader with no policies.
    pub fn new() -> (r: PolicyLoader)
        ensures
            r@ == Map::<(Seq<char>, Seq<char>), PolicyMeaning>::empty(),
    {
        let r = PolicyLoader { entries: Vec::new() };
        assert(r@ =~= Map::<(Seq<char>, Seq<char>), PolicyMeaning>::empty());
        r
    }

    /// Files `policy` under its scope kind's name and its scope id,
    /// replacing what was filed there before.
    pub fn set_policy(&mut self, policy: ScopePolicyConfig)
        ensures
            final(self)@ == old(self)@.insert((scope_name(policy.scope_type), policy.scope_id@), policy_view(policy)),
    {
        let ghost before = old(self).entries@;
        let ghost key = (scope_name(policy.scope_type), policy.scope_id@);
        let ghost meaning = policy_view(policy);
        let kind = node_scope_name(policy.scope_type);
        let id = policy.scope_id.clone();
        let entry = PolicyEntry { scope_type: kind, scope_id: id, policy };
        assert(entry_key(entry) == key);
        let mut i: usize = 0;
        while i < self.entries.len()
            invariant
                self.entries@ == before,
                before == old(self).entries@,
                entry_key(entry) == key,
                policy_view(entry.policy) == meaning,
                meaning == policy_view(policy),
                key == (scope_name(policy.scope_type), policy.scope_id@),
                i <= before.len(),
                forall|m: int| 0 <= m < i ==> entry_key(#[trigger] before[m]) != key,
            decreases self.entries.len() - i,
        {
            let e = &self.entries[i];
            if str_eq(e.scope_type.as_str(), entry.scope_type.as_str()) && str_eq(e.scope_id.as_str(), entry.scope_id.as_str()) {
                assert(entry_key(before[i as int]) == key);
                self.entries.set(i, entry);
                proof {
                    assert(self.entries@ == before.update(i as int, entry));
                    assert forall|k: (Seq<char>, Seq<char>)| #![trigger entry_from(self.entries@, k, 0)]
                        entry_from(self.entries@, k, 0) == (if k == key { Some(entry.policy) } else { entry_from(before, k, 0) }) by {
                        lemma_entry_from_update(before, i as int, entry, k, 0);
                    }
                    assert(self@ =~= old(self)@.insert(key, policy_view(entry.policy)));
                }
                return;
            }
            i = i + 1;
        }
        self.entries.push(entry);
        proof {
            assert forall|k: (Seq<char>, Seq<char>)| #![trigger entry_from(self.entries@, k, 0)]
                entry_from(self.entries@, k, 0) == (if k == key { Some(entry.policy) } else { entry_from(before, k, 0) }) by {
                lemma_entry_from_push(before, entry, k, 0);
                if k == key {
                    lemma_no_entry(before, k, 0);
                }
            }
            assert(self@ =~= old(self)@.insert(key, policy_view(entry.policy)));
        }
    }

    /// The policy filed under (`scope_type`, `scope_id`).
    pub fn load_for_scope(&self, scope_type: &str, scope_id: &str) -> (r: Result<ScopePolicyConfig, PolicyError>)
        ensures
            match r {
                Ok(p) => self@.contains_key((scope_type@, scope_id@)) && policy_view(p) == self@[(scope_type@, scope_id@)],
                Err(e) => !self@.contains_key((scope_type@, scope_id@)) && e is PolicyNotFound,
            },
    {
        let ghost key = (scope_type@, scope_id@);
        let mut i: usize = 0;
        while i < self.entries.len()
            invariant
                key == (scope_type@, scope_id@),
                i <= self.entries@.len(),
                entry_from(self.entries@, key, 0) == entry_from(self.entries@, key, i as int),
            decreases self.entries.len() - i,
        {
            let e = &self.entries[i];
            if str_eq(e.scope_type.as_str(), scope_type) && str_eq(e.scope_id.as_str(), scope_id) {
                return Ok(e.policy.copy());
            }
            i = i + 1;
        }
        Err(PolicyError::PolicyNotFound)
    }
}

proof fn lemma_no_entry(es: Seq<PolicyEntry>, k: (Seq<char>, Seq<char>), j: int)
    requires
        0 <= j,
        forall|m: int| 0 <= m < es.len() ==> entry_key(#[trigger] es[m]) != k,
    ensures
        entry_from(es, k, j) is None,
    decreases es.len() - j,
{
    if j < es.len() {
        lemma_no_entry(es, k, j + 1);
    }
}

/// Filing a policy and then loading the scope it names gives that policy back;
/// every other scope keeps exactly what it had.
pub proof fn law_policy_read_after_write(
    before: Map<(Seq<char>, Seq<char>), PolicyMeaning>,
    policy: ScopePolicyConfig,
    scope_type: Seq<char>,
    scope_id: Seq<char>,
)
    ensures
        ({
            let key = (scope_name(policy.scope_type), policy.scope_id@);
            let after = before.insert(key, policy_view(policy));
            &&& (scope_type, scope_id) == key ==> after.contains_key((scope_type, scope_id))
                && after[(scope_type, scope_id)] == policy_view(policy)
            &&& (scope_type, scope_id) != key ==> (after.contains_key((scope_type, scope_id))
                == before.contains_key((scope_type, scope_id))
                && (before.contains_key((scope_type, scope_id)) ==> after[(scope_type, scope_id)]
                == before[(scope_type, scope_id)]))
        }),
{
}

/// Recording a membership never removes another one.
pub proof fn law_membership_monotone(
    before: Set<(ScopeType, Seq<char>, Seq<char>)>,
    added: (ScopeType, Seq<char>, Seq<char>),
    other: (ScopeType, Seq<char>, Seq<char>),
)
    requires
        before.contains(other),
    ensures
        before.insert(added).contains(other),
        before.insert(added).contains(added),
{
}

/// The memberships an index holds when it starts empty (`new`) and records
/// `adds` in turn (`add_member` and its kind-specific forms).
pub open spec fn memberships_after(adds: Seq<(ScopeType, Seq<char>, Seq<char>)>) -> Set<(ScopeType, Seq<char>, Seq<char>)>
    decreases adds.len(),
{
    if adds.len() == 0 {
        Set::empty()
    } else {
        memberships_after(adds.drop_last()).insert(adds.last())
    }
}

/// An index that starts empty and records a run of memberships answers
/// `is_member_of` for a DID, scope kind and scope id with yes exactly when
/// that membership was recorded.
pub proof fn law_membership_read_after_adds(
    adds: Seq<(ScopeType, Seq<char>, Seq<char>)>,
    probe: (ScopeType, Seq<char>, Seq<char>),
)
    ensures
        memberships_after(adds).contains(probe) <==> adds.contains(probe),
    decreases adds.len(),
{
    if adds.len() > 0 {
        law_membership_read_after_adds(adds.drop_last(), probe);
        if adds.drop_last().contains(probe) {
            let i = choose|i: int| 0 <= i < adds.drop_last().len() && adds.drop_last()[i] == probe;
            assert(adds[i] == probe);
        }
        if adds.contains(probe) && probe != adds.last() {
            let i = choose|i: int| 0 <= i < adds.len() && adds[i] == probe;
            assert(adds.drop_last()[i] == probe);
        }
        if probe == adds.last() {
            assert(adds[adds.len() - 1] == probe);
        }
    }
}

/// The scope a policy is filed under: its kind's name and its scope id.
pub open spec fn policy_key(p: ScopePolicyConfig) -> (Seq<char>, Seq<char>) {
    (scope_name(p.scope_type), p.scope_id@)
}

/// The policies a loader holds when it starts empty (`new`) and is given
/// `policies` in turn (`set_policy`).
pub open spec fn policies_after(policies: Seq<ScopePolicyConfig>) -> Map<(Seq<char>, Seq<char>), PolicyMeaning>
    decreases policies.len(),
{
    if policies.len() == 0 {
        Map::empty()
    } else {
        policies_after(policies.drop_last()).insert(policy_key(policies.last()), policy_view(policies.last()))
    }
}

/// The position of the last of the first `k` policies filed under `key`, or
/// `-1` when none is.
pub open spec fn last_policy_for(policies: Seq<ScopePolicyConfig>, key: (Seq<char>, Seq<char>), k: int) -> int
    decreases k,
{
    if k <= 0 {
        -1
    } else if policy_key(policies[k - 1]) == key {
        k - 1
    } else {
        last_policy_for(policies, key, k - 1)
    }
}

proof fn lemma_last_policy_prefix(policies: Seq<ScopePolicyConfig>, key: (Seq<char>, Seq<char>), k: int)
    requires
        0 <= k < policies.len(),
    ensures
        last_policy_for(policies, key, k) == last_policy_for(policies.drop_last(), key, k),
        last_policy_for(policies, key, k) < k,
    decreases k,
{
    if k > 0 {
        assert(policies.drop_last()[k - 1] == policies[k - 1]);
        lemma_last_policy_prefix(policies, key, k - 1);
    }
}

/// A loader that starts empty and is given a run of policies finds a policy
/// for a scope (`load_for_scope`) exactly when one of them is filed under that
/// scope, and then it is the last one given for it.
pub proof fn law_policy_read_after_sets(policies: Seq<ScopePolicyConfig>, key: (Seq<char>, Seq<char>))
    ensures
        ({
            let i = last_policy_for(policies, key, policies.len() as int);
            &&& (policies_after(policies).contains_key(key) <==> i >= 0)
            &&& (i >= 0 ==> policy_key(policies[i]) == key
                && policies_after(policies)[key] == policy_view(policies[i]))
        }),
    decreases policies.len(),
{
    if policies.len() > 0 {
        let n = policies.len() - 1;
        law_policy_read_after_sets(policies.drop_last(), key);
        lemma_last_policy_prefix(policies, key, n as int);
    }
}

/// An action that no rule of the policy names is refused, whoever asks.
pub proof fn law_unnamed_action_refused(
    policy: PolicyMeaning,
    action: Seq<char>,
    caller: Seq<char>,
    members: Set<(ScopeType, Seq<char>, Seq<char>)>,
)
    requires
        forall|i: int| 0 <= i < policy.2.len() ==> (#[trigger] policy.2[i]).0 != action,
    ensures
        policy_decision(policy, action, caller, members) == Err::<(), PolicyError>(PolicyError::ActionNotPermitted),
{
    lemma_find_rule_none(policy.2, action, 0);
}

proof fn lemma_find_rule_none(rules: Seq<RuleMeaning>, action: Seq<char>, i: int)
    requires
        0 <= i,
        forall|k: int| 0 <= k < rules.len() ==> (#[trigger] rules[k]).0 != action,
    ensures
        find_rule_from(rules, action, i) is None,
    decreases rules.len() - i,
{
    if i < rules.len() {
        lemma_find_rule_none(rules, action, i + 1);
    }
}

proof fn lemma_find_rule_push(rules: Seq<RuleMeaning>, extra: RuleMeaning, action: Seq<char>, i: int)
    requires
        0 <= i <= rules.len(),
        find_rule_from(rules, action, i) is Some,
    ensures
        find_rule_from(rules.push(extra), action, i) == find_rule_from(rules, action, i),
    decreases rules.len() - i,
{
    assert(rules.push(extra)[i] == rules[i]);
    if rules[i].0 != action {
        lemma_find_rule_push(rules, extra, action, i + 1);
    }
}

/// Only the first rule naming an action decides it: appending another rule for an
/// action that is already governed changes no decision on that action.
pub proof fn law_first_rule_decides(
    policy: PolicyMeaning,
    extra: RuleMeaning,
    action: Seq<char>,
    caller: Seq<char>,
    members: Set<(ScopeType, Seq<char>, Seq<char>)>,
)
    requires
        exists|i: int| 0 <= i < policy.2.len() && (#[trigger] policy.2[i]).0 == action,
    ensures
        policy_decision((policy.0, policy.1, policy.2.push(extra)), action, caller, members)
            == policy_decision(policy, action, caller, members),
{
    let i = choose|i: int| 0 <= i < policy.2.len() && (#[trigger] policy.2[i]).0 == action;
    lemma_find_rule_some(policy.2, action, 0, i);
    lemma_find_rule_push(policy.2, extra, action, 0);
}

proof fn lemma_find_rule_some(rules: Seq<RuleMeaning>, action: Seq<char>, j: int, i: int)
    requires
        0 <= j <= i < rules.len(),
        rules[i].0 == action,
    ensures
        find_rule_from(rules, action, j) is Some,
    decreases i - j,
{
    if rules[j].0 != action {
        lemma_find_rule_some(rules, action, j + 1, i);
    }
}

/// A caller named on the allowlist of the rule that governs an action, with no
/// federation requirement on that rule, is permitted.
pub proof fn law_allowlisted_caller_permitted(
    policy: PolicyMeaning,
    action: Seq<char>,
    caller: Seq<char>,
    members: Set<(ScopeType, Seq<char>, Seq<char>)>,
)
    requires
        find_rule_from(policy.2, action, 0) is Some,
        governing_rule(policy, action).1 is None,
        governing_rule(policy, action).2 is Some,
        governing_rule(policy, action).2->0.contains(caller),
    ensures
        policy_decision(policy, action, caller, members) == Ok::<(), PolicyError>(()),
{
}

} // verus!
