//! A user's push rule set: five kinds of rules, each a list of rules with
//! distinct ids, and the operations of the push rule endpoints on it.
use vstd::prelude::*;
use vstd::string::*;
use crate::error::{Error, ErrorKind};
use crate::pdu::opt_string;
use crate::text::str_eq;

verus! {

/// The kinds of push rules; `Custom` stands for any kind this server does
/// not know.
#[derive(Debug, Clone, Copy, PartialEq, Eq, Structural)]
pub enum RuleKind {
    Override,
    Underride,
    Sender,
    Room,
    Content,
    Custom,
}

/// One push rule. `actions` and `conditions` hold the JSON text of each
/// action and condition; `pattern` is set for content rules only.
#[derive(Debug)]
pub struct PushRule {
    pub rule_id: String,
    pub default: bool,
    pub enabled: bool,
    pub actions: Vec<String>,
    pub conditions: Vec<String>,
    pub pattern: Option<String>,
}

/// The global push rule set of a user.
#[derive(Debug)]
pub struct Ruleset {
    pub override_: Vec<PushRule>,
    pub underride: Vec<PushRule>,
    pub sender: Vec<PushRule>,
    pub room: Vec<PushRule>,
    pub content: Vec<PushRule>,
}

/// The rules of one kind (none for an unknown kind).
pub open spec fn rules_of(rs: Ruleset, kind: RuleKind) -> Seq<PushRule> {
    match kind {
        RuleKind::Override => rs.override_@,
        RuleKind::Underride => rs.underride@,
        RuleKind::Sender => rs.sender@,
        RuleKind::Room => rs.room@,
        RuleKind::Content => rs.content@,
        RuleKind::Custom => Seq::empty(),
    }
}

/// No two rules of a list share an id.
pub open spec fn unique_ids(s: Seq<PushRule>) -> bool {
    forall|i: int, j: int|
        0 <= i < s.len() && 0 <= j < s.len() && i != j ==> s[i].rule_id@ != s[j].rule_id@
}

/// No two rules of one kind share an id.
pub open spec fn ruleset_wf(rs: Ruleset) -> bool {
    &&& unique_ids(rs.override_@)
    &&& unique_ids(rs.underride@)
    &&& unique_ids(rs.sender@)
    &&& unique_ids(rs.room@)
    &&& unique_ids(rs.content@)
}

/// The rule at position `i` has the id `id`.
pub open spec fn has_id(s: Seq<PushRule>, id: Seq<char>, i: int) -> bool {
    0 <= i < s.len() && s[i].rule_id@ == id
}

/// The position of the rule with id `id`, or -1.
pub open spec fn index_of(s: Seq<PushRule>, id: Seq<char>) -> int {
    if exists|i: int| has_id(s, id, i) {
        choose|i: int| has_id(s, id, i)
    } else {
        -1
    }
}

/// The rule with id `id`, if the list has one.
pub open spec fn lookup(s: Seq<PushRule>, id: Seq<char>) -> Option<PushRule> {
    if index_of(s, id) >= 0 {
        Some(s[index_of(s, id)])
    } else {
        None
    }
}

/// Removes the rule with id `id` the way an insertion-ordered set does: the
/// last rule takes its place.
pub open spec fn remove_spec(s: Seq<PushRule>, id: Seq<char>) -> Seq<PushRule> {
    let i = index_of(s, id);
    if i < 0 {
        s
    } else {
        s.update(i, s.last()).drop_last()
    }
}

proof fn lemma_index_of_found(s: Seq<PushRule>, id: Seq<char>, i: int)
    requires
        unique_ids(s),
        has_id(s, id, i),
    ensures
        index_of(s, id) == i,
{
}

proof fn lemma_index_of_absent(s: Seq<PushRule>, id: Seq<char>)
    requires
        forall|i: int| 0 <= i < s.len() ==> s[i].rule_id@ != id,
    ensures
        index_of(s, id) == -1,
{
}

proof fn lemma_index_of_range(s: Seq<PushRule>, id: Seq<char>)
    ensures
        -1 <= index_of(s, id) < s.len(),
        index_of(s, id) >= 0 ==> s[index_of(s, id)].rule_id@ == id,
        index_of(s, id) == -1 ==> forall|i: int| 0 <= i < s.len() ==> s[i].rule_id@ != id,
{
    if exists|i: int| has_id(s, id, i) {
        let i = choose|i: int| has_id(s, id, i);
        assert(has_id(s, id, i));
    } else {
        assert forall|i: int| 0 <= i < s.len() implies s[i].rule_id@ != id by {
            assert(!has_id(s, id, i));
        }
    }
}

/// Removing a rule keeps the ids distinct and takes exactly that id out.
proof fn lemma_remove(s: Seq<PushRule>, id: Seq<char>)
    requires
        unique_ids(s),
    ensures
        unique_ids(remove_spec(s, id)),
        lookup(remove_spec(s, id), id) is None,
        forall|other: Seq<char>| other != id ==> #[trigger] lookup(remove_spec(s, id), other)
            == lookup(s, other),
{
    lemma_index_of_range(s, id);
    let i = index_of(s, id);
    let t = remove_spec(s, id);
    if i >= 0 {
        let n = s.len();
        assert forall|a: int, b: int|
            0 <= a < t.len() && 0 <= b < t.len() && a != b implies t[a].rule_id@
            != t[b].rule_id@ by {
            let sa = if a == i { n - 1 } else { a };
            let sb = if b == i { n - 1 } else { b };
            assert(t[a] == s[sa]);
            assert(t[b] == s[sb]);
        }
        assert forall|k: int| 0 <= k < t.len() implies t[k].rule_id@ != id by {
            let sk = if k == i { n - 1 } else { k };
            assert(t[k] == s[sk]);
        }
        lemma_index_of_absent(t, id);
        assert forall|other: Seq<char>| other != id implies #[trigger] lookup(t, other) == lookup(
            s,
            other,
        ) by {
            lemma_index_of_range(s, other);
            let j = index_of(s, other);
            if j >= 0 {
                assert(j != i);
                let tj = if j == n - 1 { i } else { j };
                assert(t[tj] == s[j]);
                assert(has_id(t, other, tj));
                lemma_index_of_found(t, other, tj);
            } else {
                assert forall|k: int| 0 <= k < t.len() implies t[k].rule_id@ != other by {
                    let sk = if k == i { n - 1 } else { k };
                    assert(t[k] == s[sk]);
                }
                lemma_index_of_absent(t, other);
            }
        }
    } else {
        lemma_index_of_absent(s, id);
    }
}

/// Appending a rule whose id is absent keeps the ids distinct and makes the
/// new rule the one found under its id.
proof fn lemma_push_absent(s: Seq<PushRule>, r: PushRule)
    requires
        unique_ids(s),
        lookup(s, r.rule_id@) is None,
    ensures
        unique_ids(s.push(r)),
        lookup(s.push(r), r.rule_id@) == Some(r),
        forall|other: Seq<char>| other != r.rule_id@ ==> #[trigger] lookup(s.push(r), other)
            == lookup(s, other),
{
    lemma_index_of_range(s, r.rule_id@);
    let t = s.push(r);
    assert(has_id(t, r.rule_id@, s.len() as int));
    lemma_index_of_found(t, r.rule_id@, s.len() as int);
    assert forall|other: Seq<char>| other != r.rule_id@ implies #[trigger] lookup(t, other)
        == lookup(s, other) by {
        lemma_index_of_range(s, other);
        let j = index_of(s, other);
        if j >= 0 {
            assert(has_id(t, other, j));
            lemma_index_of_found(t, other, j);
        } else {
            lemma_index_of_absent(t, other);
        }
    }
}

/// Finds the position of the rule with the given id.
fn find_rule(v: &Vec<PushRule>, id: &str) -> (r: Option<usize>)
    requires
        unique_ids(v@),
    ensures
        match r {
            Some(i) => i == index_of(v@, id@) && i < v@.len(),
            None => index_of(v@, id@) == -1,
        },
{
    let mut i: usize = 0;
    while i < v.len()
        invariant
            i <= v@.len(),
            unique_ids(v@),
            forall|k: int| 0 <= k < i ==> v@[k].rule_id@ != id@,
        decreases v.len() - i,
    {
        if str_eq(v[i].rule_id.as_str(), id) {
            proof {
                lemma_index_of_found(v@, id@, i as int);
            }
            return Some(i);
        }
        i = i + 1;
    }
    proof {
        lemma_index_of_absent(v@, id@);
    }
    None
}

/// Removes the rule with the given id from a list (the last rule takes its
/// place) and gives it back.
fn remove_rule(v: &mut Vec<PushRule>, id: &str) -> (r: Option<PushRule>)
    requires
        unique_ids(old(v)@),
    ensures
        final(v)@ == remove_spec(old(v)@, id@),
        r == lookup(old(v)@, id@),
        unique_ids(final(v)@),
{
    proof {
        lemma_index_of_range(v@, id@);
        lemma_remove(v@, id@);
    }
    match find_rule(v, id) {
        Some(i) => Some(v.swap_remove(i)),
        None => None,
    }
}

/// The rules of a kind, for reading.
pub fn rules(rs: &Ruleset, kind: RuleKind) -> (r: Option<&Vec<PushRule>>)
    ensures
        kind == RuleKind::Custom ==> r is None,
        kind != RuleKind::Custom ==> (r matches Some(v) && v@ == rules_of(*rs, kind)),
{
    match kind {
        RuleKind::Override => Some(&rs.override_),
        RuleKind::Underride => Some(&rs.underride),
        RuleKind::Sender => Some(&rs.sender),
        RuleKind::Room => Some(&rs.room),
        RuleKind::Content => Some(&rs.content),
        RuleKind::Custom => None,
    }
}

/// Two rule sets agree on every kind but `kind`, and `rs2` holds `s` for
/// `kind`.
pub open spec fn replaced(rs1: Ruleset, rs2: Ruleset, kind: RuleKind, s: Seq<PushRule>) -> bool {
    forall|k: RuleKind| #[trigger] rules_of(rs2, k) == if k == kind && kind != RuleKind::Custom {
        s
    } else {
        rules_of(rs1, k)
    }
}

/// The rule that `set_pushrule` stores: enabled, not a default rule, with
/// the given actions; conditions for override and underride rules, a pattern
/// (empty when none is given) for content rules.
pub open spec fn new_rule_ok(
    r: PushRule,
    kind: RuleKind,
    id: Seq<char>,
    actions: Seq<String>,
    conditions: Seq<String>,
    pattern: Option<Seq<char>>,
) -> bool {
    &&& r.rule_id@ == id
    &&& r.enabled
    &&& !r.default
    &&& r.actions@ == actions
    &&& r.conditions@ == (if kind == RuleKind::Override || kind == RuleKind::Underride {
        conditions
    } else {
        Seq::empty()
    })
    &&& (kind == RuleKind::Content ==> (r.pattern matches Some(p) && p@ == match pattern {
        Some(q) => q,
        None => Seq::<char>::empty(),
    }))
    &&& (kind != RuleKind::Content ==> r.pattern is None)
}

impl Ruleset {
    /// A rule set with no rules.
    pub fn new() -> (rs: Ruleset)
        ensures
            ruleset_wf(rs),
            forall|k: RuleKind| #[trigger] rules_of(rs, k).len() == 0,
    {
        Ruleset {
            override_: Vec::new(),
            underride: Vec::new(),
            sender: Vec::new(),
            room: Vec::new(),
            content: Vec::new(),
        }
    }

    /// The rule of a kind with the given id.
    pub fn get(&self, kind: RuleKind, id: &str) -> (r: Option<&PushRule>)
        requires
            ruleset_wf(*self),
        ensures
            match r {
                Some(rule) => lookup(rules_of(*self, kind), id@) == Some(*rule),
                None => lookup(rules_of(*self, kind), id@) is None,
            },
    {
        match rules(self, kind) {
            None => {
                proof {
                    lemma_index_of_absent(rules_of(*self, kind), id@);
                }
                None
            },
            Some(v) => match find_rule(v, id) {
                Some(i) => Some(&v[i]),
                None => None,
            },
        }
    }

    fn rules_mut_apply_remove(&mut self, kind: RuleKind, id: &str) -> (r: Option<PushRule>)
        requires
            ruleset_wf(*old(self)),
        ensures
            ruleset_wf(*final(self)),
            r == lookup(rules_of(*old(self), kind), id@),
            replaced(*old(self), *final(self), kind, remove_spec(rules_of(*old(self), kind), id@)),
    {
        match kind {
            RuleKind::Override => remove_rule(&mut self.override_, id),
            RuleKind::Underride => remove_rule(&mut self.underride, id),
            RuleKind::Sender => remove_rule(&mut self.sender, id),
            RuleKind::Room => remove_rule(&mut self.room, id),
            RuleKind::Content => remove_rule(&mut self.content, id),
            RuleKind::Custom => {
                proof {
                    lemma_index_of_absent(rules_of(*self, kind), id@);
                }
                None
            },
        }
    }

    fn push_rule(&mut self, kind: RuleKind, rule: PushRule)
        requires
            ruleset_wf(*old(self)),
            lookup(rules_of(*old(self), kind), rule.rule_id@) is None,
            kind != RuleKind::Custom,
        ensures
            ruleset_wf(*final(self)),
            replaced(*old(self), *final(self), kind, rules_of(*old(self), kind).push(rule)),
    {
        proof {
            lemma_push_absent(rules_of(*self, kind), rule);
        }
        match kind {
            RuleKind::Override => self.override_.push(rule),
            RuleKind::Underride => self.underride.push(rule),
            RuleKind::Sender => self.sender.push(rule),
            RuleKind::Room => self.room.push(rule),
            RuleKind::Content => self.content.push(rule),
            RuleKind::Custom => {},
        }
    }

    /// Deletes the rule of a kind with the given id, if there is one.
    pub fn delete(&mut self, kind: RuleKind, id: &str)
        requires
            ruleset_wf(*old(self)),
        ensures
            ruleset_wf(*final(self)),
            replaced(*old(self), *final(self), kind, remove_spec(rules_of(*old(self), kind), id@)),
    {
        let _ = self.rules_mut_apply_remove(kind, id);
    }

    /// Sets a rule: any rule of the kind with this id is replaced by an
    /// enabled, non-default rule with the given actions (and conditions or
    /// pattern, as the kind has them), placed last.
    pub fn set(
        &mut self,
        kind: RuleKind,
        id: &str,
        actions: Vec<String>,
        conditions: Vec<String>,
        pattern: Option<&str>,
    )
        requires
            ruleset_wf(*old(self)),
        ensures
            ruleset_wf(*final(self)),
            kind == RuleKind::Custom ==> *final(self) == *old(self),
            kind != RuleKind::Custom ==> exists|r: PushRule|
                new_rule_ok(r, kind, id@, actions@, conditions@, match pattern {
                    Some(p) => Some(p@),
                    None => None,
                }) && replaced(
                    *old(self),
                    *final(self),
                    kind,
                    remove_spec(rules_of(*old(self), kind), id@).push(r),
                ),
    {
        if kind == RuleKind::Custom {
            return;
        }
        let _ = self.rules_mut_apply_remove(kind, id);
        let conds = if kind == RuleKind::Override || kind == RuleKind::Underride {
            conditions
        } else {
            Vec::new()
        };
        let pat = if kind == RuleKind::Content {
            match pattern {
                Some(p) => Some(String::from_str(p)),
                None => Some(String::new()),
            }
        } else {
            None
        };
        let rule = PushRule {
            rule_id: String::from_str(id),
            default: false,
            enabled: true,
            actions,
            conditions: conds,
            pattern: pat,
        };
        proof {
            lemma_remove(rules_of(*old(self), kind), id@);
        }
        self.push_rule(kind, rule);
        assert(new_rule_ok(rule, kind, id@, actions@, conditions@, match pattern {
            Some(p) => Some(p@),
            None => None,
        }));
    }

    /// Sets whether the rule of a kind with the given id is enabled; the rule
    /// moves to the end of its list. Nothing changes when there is no such
    /// rule.
    pub fn set_enabled(&mut self, kind: RuleKind, id: &str, enabled: bool)
        requires
            ruleset_wf(*old(self)),
        ensures
            ruleset_wf(*final(self)),
            lookup(rules_of(*old(self), kind), id@) is None ==> *final(self) == *old(self),
            lookup(rules_of(*old(self), kind), id@) matches Some(old_rule) ==> exists|r: PushRule|
                r == (PushRule { enabled, ..old_rule }) && replaced(
                    *old(self),
                    *final(self),
                    kind,
                    remove_spec(rules_of(*old(self), kind), id@).push(r),
                ),
    {
        proof {
            lemma_remove(rules_of(*old(self), kind), id@);
            lemma_index_of_range(rules_of(*old(self), kind), id@);
        }
        if let Some(i) = match rules(self, kind) {
            Some(v) => find_rule(v, id),
            None => None,
        } {
            let mut rule = match self.rules_mut_apply_remove(kind, id) {
                Some(r) => r,
                None => {
                    assert(false);
                    return;
                },
            };
            rule.enabled = enabled;
            self.push_rule(kind, rule);
        } else {
            proof {
                if kind != RuleKind::Custom {
                    assert(index_of(rules_of(*self, kind), id@) == -1);
                } else {
                    lemma_index_of_absent(rules_of(*self, kind), id@);
                }
            }
        }
    }

    /// Sets the actions of the rule of a kind with the given id; the rule
    /// moves to the end of its list. Nothing changes when there is no such
    /// rule.
    pub fn set_actions(&mut self, kind: RuleKind, id: &str, actions: Vec<String>)
        requires
            ruleset_wf(*old(self)),
        ensures
            ruleset_wf(*final(self)),
            lookup(rules_of(*old(self), kind), id@) is None ==> *final(self) == *old(self),
            lookup(rules_of(*old(self), kind), id@) matches Some(old_rule) ==> exists|r: PushRule|
                r == (PushRule { actions, ..old_rule }) && replaced(
                    *old(self),
                    *final(self),
                    kind,
                    remove_spec(rules_of(*old(self), kind), id@).push(r),
                ),
    {
        proof {
            lemma_remove(rules_of(*old(self), kind), id@);
            lemma_index_of_range(rules_of(*old(self), kind), id@);
        }
        if let Some(i) = match rules(self, kind) {
            Some(v) => find_rule(v, id),
            None => None,
        } {
            let mut rule = match self.rules_mut_apply_remove(kind, id) {
                Some(r) => r,
                None => {
                    assert(false);
                    return;
                },
            };
            rule.actions = actions;
            self.push_rule(kind, rule);
        } else {
            proof {
                if kind != RuleKind::Custom {
                    assert(index_of(rules_of(*self, kind), id@) == -1);
                } else {
                    lemma_index_of_absent(rules_of(*self, kind), id@);
                }
            }
        }
    }

    /// Whether the rule of a kind with the given id is enabled (`false` when
    /// there is no such rule).
    pub fn is_enabled(&self, kind: RuleKind, id: &str) -> (b: bool)
        requires
            ruleset_wf(*self),
        ensures
            b == match lookup(rules_of(*self, kind), id@) {
                Some(r) => r.enabled,
                None => false,
            },
    {
        match self.get(kind, id) {
            Some(r) => r.enabled,
            None => false,
        }
    }

    /// The actions of the rule of a kind with the given id (none when there
    /// is no such rule).
    pub fn actions(&self, kind: RuleKind, id: &str) -> (a: Option<&Vec<String>>)
        requires
            ruleset_wf(*self),
        ensures
            match lookup(rules_of(*self, kind), id@) {
                Some(r) => a matches Some(v) && *v == r.actions,
                None => a is None,
            },
    {
        match self.get(kind, id) {
            Some(r) => Some(&r.actions),
            None => None,
        }
    }
}

/// Only the `global` scope holds push rules.
pub fn check_scope(scope: &str) -> (r: Result<(), Error>)
    ensures
        r is Ok <==> scope@ == "global"@,
        r matches Err(e) ==> e.kind == ErrorKind::InvalidParam && e.message@ == "Scopes other than 'global' are not supported."@,
{
    if str_eq(scope, "global") {
        Ok(())
    } else {
        Err(Error::new(ErrorKind::InvalidParam, "Scopes other than 'global' are not supported."))
    }
}

/// After a rule is set, looking it up gives the stored rule, and the rules
/// under other ids and of other kinds stay as they were.
pub proof fn lemma_set_then_get(
    rs1: Ruleset,
    rs2: Ruleset,
    kind: RuleKind,
    id: Seq<char>,
    r: PushRule,
)
    requires
        ruleset_wf(rs1),
        kind != RuleKind::Custom,
        r.rule_id@ == id,
        replaced(rs1, rs2, kind, remove_spec(rules_of(rs1, kind), id).push(r)),
    ensures
        lookup(rules_of(rs2, kind), id) == Some(r),
        forall|other: Seq<char>| other != id ==> #[trigger] lookup(rules_of(rs2, kind), other)
            == lookup(rules_of(rs1, kind), other),
        forall|k: RuleKind| k != kind ==> #[trigger] rules_of(rs2, k) == rules_of(rs1, k),
{
    let s = rules_of(rs1, kind);
    ruleset_wf_unique(rs1, kind);
    lemma_remove(s, id);
    lemma_push_absent(remove_spec(s, id), r);
    assert(rules_of(rs2, kind) == remove_spec(s, id).push(r));
}

/// After a rule is deleted, looking it up finds nothing, and the rules under
/// other ids and of other kinds stay as they were.
pub proof fn lemma_delete_then_get(rs1: Ruleset, rs2: Ruleset, kind: RuleKind, id: Seq<char>)
    requires
        ruleset_wf(rs1),
        replaced(rs1, rs2, kind, remove_spec(rules_of(rs1, kind), id)),
    ensures
        lookup(rules_of(rs2, kind), id) is None,
        forall|other: Seq<char>| other != id ==> #[trigger] lookup(rules_of(rs2, kind), other)
            == lookup(rules_of(rs1, kind), other),
        forall|k: RuleKind| k != kind ==> #[trigger] rules_of(rs2, k) == rules_of(rs1, k),
{
    let s = rules_of(rs1, kind);
    ruleset_wf_unique(rs1, kind);
    lemma_remove(s, id);
    if kind == RuleKind::Custom {
        lemma_index_of_absent(rules_of(rs2, kind), id);
        assert(rules_of(rs2, kind) == rules_of(rs1, kind));
    } else {
        assert(rules_of(rs2, kind) == remove_spec(s, id));
    }
}

proof fn ruleset_wf_unique(rs: Ruleset, kind: RuleKind) -> (b: bool)
    requires
        ruleset_wf(rs),
    ensures
        unique_ids(rules_of(rs, kind)),
{
    true
}

// ---------------------------------------------------------------------------
// The rules a new account starts with
// ---------------------------------------------------------------------------

/// The JSON text that `serde_json::to_string` makes of `ruma`'s
/// `Ruleset::server_default` for a user id (the predefined push rules, some
/// of which name the user), or `None` where the text is no valid user id.
pub uninterp spec fn server_default_rules(user_id: Seq<char>) -> Option<Seq<char>>;

/// Reads the user id with `<&UserId>::try_from`, builds
/// `Ruleset::server_default` for it and serialises it with
/// `serde_json::to_string`. The contract claims only that the outcome is
/// `server_default_rules` of the user id.
#[verifier::external_body]
fn default_rules_json(user_id: &str) -> (r: Option<String>)
    ensures
        opt_string(r) == server_default_rules(user_id@),
{
    let user = <&ruma::UserId>::try_from(user_id).ok()?;
    serde_json::to_string(&ruma::push::Ruleset::server_default(user)).ok()
}

/// The account data a new account is populated with: the `m.push_rules`
/// event whose global rule set is the server's default rules for the user
/// (`None` where the user id is not valid).
pub fn default_push_rules_event(user_id: &str) -> (r: Option<String>)
    ensures
        match server_default_rules(user_id@) {
            Some(rules) => r matches Some(e) && e@ == "{\"type\":\"m.push_rules\",\"content\":{\"global\":"@
                + rules + "}}"@,
            None => r is None,
        },
{
    match default_rules_json(user_id) {
        None => None,
        Some(rules) => {
            let mut e = String::from_str("{\"type\":\"m.push_rules\",\"content\":{\"global\":");
            e.append(rules.as_str());
            e.append("}}");
            Some(e)
        },
    }
}

// ---------------------------------------------------------------------------
// The push rule endpoints
// ---------------------------------------------------------------------------

/// The refusal when the user has no push rules stored.
fn no_push_rules() -> (e: Error)
    ensures
        e.kind == ErrorKind::NotFound,
        e.message@ == "PushRules event not found."@,
{
    Error::new(ErrorKind::NotFound, "PushRules event not found.")
}

/// `GET /pushrules`: the whole rule set (`NotFound` when none is stored).
pub fn get_pushrules_all_route(stored: Option<Ruleset>) -> (r: Result<Ruleset, Error>)
    ensures
        match stored {
            Some(rs) => r matches Ok(x) && x == rs,
            None => (r matches Err(e) && e.kind == ErrorKind::NotFound && e.message@ == "PushRules event not found."@),
        },
{
    match stored {
        Some(rs) => Ok(rs),
        None => Err(no_push_rules()),
    }
}

/// `GET /pushrules/{scope}/{kind}/{id}`: the rule (`NotFound` when no rules
/// are stored or there is no such rule).
pub fn get_pushrule_route<'a>(stored: Option<&'a Ruleset>, kind: RuleKind, id: &str) -> (r: Result<
    &'a PushRule,
    Error,
>)
    requires
        stored matches Some(rs) ==> ruleset_wf(*rs),
    ensures
        match stored {
            None => (r matches Err(e) && e.kind == ErrorKind::NotFound && e.message@ == "PushRules event not found."@),
            Some(rs) => match lookup(rules_of(*rs, kind), id@) {
                Some(rule) => r matches Ok(x) && *x == rule,
                None => (r matches Err(e) && e.kind == ErrorKind::NotFound && e.message@
                    == "Push rule not found."@),
            },
        },
{
    let rs = match stored {
        Some(rs) => rs,
        None => {
            return Err(no_push_rules());
        },
    };
    match rs.get(kind, id) {
        Some(rule) => Ok(rule),
        None => Err(Error::new(ErrorKind::NotFound, "Push rule not found.")),
    }
}

/// `PUT /pushrules/{scope}/{kind}/{id}`: sets the rule in the stored set.
/// Refused for a scope other than `global` (`InvalidParam`), then when no
/// rules are stored (`NotFound`).
pub fn set_pushrule_route(
    scope: &str,
    stored: Option<Ruleset>,
    kind: RuleKind,
    id: &str,
    actions: Vec<String>,
    conditions: Vec<String>,
    pattern: Option<&str>,
) -> (r: Result<Ruleset, Error>)
    requires
        stored matches Some(rs) ==> ruleset_wf(rs),
    ensures
        scope@ != "global"@ ==> (r matches Err(e) && e.kind == ErrorKind::InvalidParam
            && e.message@ == "Scopes other than 'global' are not supported."@),
        scope@ == "global"@ && stored is None ==> (r matches Err(e) && e.kind
            == ErrorKind::NotFound && e.message@ == "PushRules event not found."@),
        scope@ == "global"@ && stored is Some ==> (r matches Ok(rs2) && ruleset_wf(rs2) && (
        kind == RuleKind::Custom ==> rs2 == stored.unwrap()) && (kind != RuleKind::Custom
            ==> exists|rule: PushRule|
            new_rule_ok(rule, kind, id@, actions@, conditions@, match pattern {
                Some(p) => Some(p@),
                None => None,
            }) && replaced(
                stored.unwrap(),
                rs2,
                kind,
                remove_spec(rules_of(stored.unwrap(), kind), id@).push(rule),
            ))),
{
    if let Err(e) = check_scope(scope) {
        return Err(e);
    }
    let mut rs = match stored {
        Some(rs) => rs,
        None => {
            return Err(no_push_rules());
        },
    };
    rs.set(kind, id, actions, conditions, pattern);
    Ok(rs)
}

/// `PUT /pushrules/{scope}/{kind}/{id}/enabled`: as `set_enabled` on the
/// stored set. Refused for another scope (`InvalidParam`), then when no
/// rules are stored (`NotFound`).
pub fn set_pushrule_enabled_route(
    scope: &str,
    stored: Option<Ruleset>,
    kind: RuleKind,
    id: &str,
    enabled: bool,
) -> (r: Result<Ruleset, Error>)
    requires
        stored matches Some(rs) ==> ruleset_wf(rs),
    ensures
        scope@ != "global"@ ==> (r matches Err(e) && e.kind == ErrorKind::InvalidParam
            && e.message@ == "Scopes other than 'global' are not supported."@),
        scope@ == "global"@ && stored is None ==> (r matches Err(e) && e.kind
            == ErrorKind::NotFound && e.message@ == "PushRules event not found."@),
        scope@ == "global"@ && stored is Some ==> (r matches Ok(rs2) && ruleset_wf(rs2) && (
        lookup(rules_of(stored.unwrap(), kind), id@) is None ==> rs2 == stored.unwrap()) && (
        lookup(rules_of(stored.unwrap(), kind), id@) matches Some(old_rule) ==> exists|
            rule: PushRule,
        |
            rule == (PushRule { enabled, ..old_rule }) && replaced(
                stored.unwrap(),
                rs2,
                kind,
                remove_spec(rules_of(stored.unwrap(), kind), id@).push(rule),
            ))),
{
    if let Err(e) = check_scope(scope) {
        return Err(e);
    }
    let mut rs = match stored {
        Some(rs) => rs,
        None => {
            return Err(no_push_rules());
        },
    };
    rs.set_enabled(kind, id, enabled);
    Ok(rs)
}

/// `PUT /pushrules/{scope}/{kind}/{id}/actions`: as `set_actions` on the
/// stored set. Refused for another scope (`InvalidParam`), then when no
/// rules are stored (`NotFound`).
pub fn set_pushrule_actions_route(
    scope: &str,
    stored: Option<Ruleset>,
    kind: RuleKind,
    id: &str,
    actions: Vec<String>,
) -> (r: Result<Ruleset, Error>)
    requires
        stored matches Some(rs) ==> ruleset_wf(rs),
    ensures
        scope@ != "global"@ ==> (r matches Err(e) && e.kind == ErrorKind::InvalidParam
            && e.message@ == "Scopes other than 'global' are not supported."@),
        scope@ == "global"@ && stored is None ==> (r matches Err(e) && e.kind
            == ErrorKind::NotFound && e.message@ == "PushRules event not found."@),
        scope@ == "global"@ && stored is Some ==> (r matches Ok(rs2) && ruleset_wf(rs2) && (
        lookup(rules_of(stored.unwrap(), kind), id@) is None ==> rs2 == stored.unwrap()) && (
        lookup(rules_of(stored.unwrap(), kind), id@) matches Some(old_rule) ==> exists|
            rule: PushRule,
        |
            rule == (PushRule { actions, ..old_rule }) && replaced(
                stored.unwrap(),
                rs2,
                kind,
                remove_spec(rules_of(stored.unwrap(), kind), id@).push(rule),
            ))),
{
    if let Err(e) = check_scope(scope) {
        return Err(e);
    }
    let mut rs = match stored {
        Some(rs) => rs,
        None => {
            return Err(no_push_rules());
        },
    };
    rs.set_actions(kind, id, actions);
    Ok(rs)
}

/// `DELETE /pushrules/{scope}/{kind}/{id}`: deletes the rule from the
/// stored set. Refused for another scope (`InvalidParam`), then when no
/// rules are stored (`NotFound`).
pub fn delete_pushrule_route(scope: &str, stored: Option<Ruleset>, kind: RuleKind, id: &str) -> (r:
    Result<Ruleset, Error>)
    requires
        stored matches Some(rs) ==> ruleset_wf(rs),
    ensures
        scope@ != "global"@ ==> (r matches Err(e) && e.kind == ErrorKind::InvalidParam
            && e.message@ == "Scopes other than 'global' are not supported."@),
        scope@ == "global"@ && stored is None ==> (r matches Err(e) && e.kind
            == ErrorKind::NotFound && e.message@ == "PushRules event not found."@),
        scope@ == "global"@ && stored is Some ==> (r matches Ok(rs2) && ruleset_wf(rs2)
            && replaced(
            stored.unwrap(),
            rs2,
            kind,
            remove_spec(rules_of(stored.unwrap(), kind), id@),
        )),
{
    if let Err(e) = check_scope(scope) {
        return Err(e);
    }
    let mut rs = match stored {
        Some(rs) => rs,
        None => {
            return Err(no_push_rules());
        },
    };
    rs.delete(kind, id);
    Ok(rs)
}

/// `GET /pushrules/{scope}/{kind}/{id}/enabled`: whether the rule is
/// enabled, `false` when there is no such rule. Refused for another scope
/// (`InvalidParam`), then when no rules are stored (`NotFound`).
pub fn get_pushrule_enabled_route(scope: &str, stored: Option<&Ruleset>, kind: RuleKind, id: &str) -> (r:
    Result<bool, Error>)
    requires
        stored matches Some(rs) ==> ruleset_wf(*rs),
    ensures
        scope@ != "global"@ ==> (r matches Err(e) && e.kind == ErrorKind::InvalidParam
            && e.message@ == "Scopes other than 'global' are not supported."@),
        scope@ == "global"@ && stored is None ==> (r matches Err(e) && e.kind
            == ErrorKind::NotFound && e.message@ == "PushRules event not found."@),
        scope@ == "global"@ && stored is Some ==> r == Ok::<bool, Error>(
            match lookup(rules_of(*stored.unwrap(), kind), id@) {
                Some(rule) => rule.enabled,
                None => false,
            },
        ),
{
    if let Err(e) = check_scope(scope) {
        return Err(e);
    }
    match stored {
        Some(rs) => Ok(rs.is_enabled(kind, id)),
        None => Err(no_push_rules()),
    }
}

/// `GET /pushrules/{scope}/{kind}/{id}/actions`: the rule's actions, none
/// when there is no such rule. Refused for another scope (`InvalidParam`),
/// then when no rules are stored (`NotFound`).
pub fn get_pushrule_actions_route<'a>(
    scope: &str,
    stored: Option<&'a Ruleset>,
    kind: RuleKind,
    id: &str,
) -> (r: Result<Option<&'a Vec<String>>, Error>)
    requires
        stored matches Some(rs) ==> ruleset_wf(*rs),
    ensures
        scope@ != "global"@ ==> (r matches Err(e) && e.kind == ErrorKind::InvalidParam
            && e.message@ == "Scopes other than 'global' are not supported."@),
        scope@ == "global"@ && stored is None ==> (r matches Err(e) && e.kind
            == ErrorKind::NotFound && e.message@ == "PushRules event not found."@),
        scope@ == "global"@ && stored is Some ==> (r matches Ok(a) && match lookup(
            rules_of(*stored.unwrap(), kind),
            id@,
        ) {
            Some(rule) => (a matches Some(v) && *v == rule.actions),
            None => a is None,
        }),
{
    if let Err(e) = check_scope(scope) {
        return Err(e);
    }
    match stored {
        Some(rs) => Ok(rs.actions(kind, id)),
        None => Err(no_push_rules()),
    }
}

} // verus!
