//! The predicate filter engine: given workspaces with their variables and a
//! list of (key, operator, value) rules, retains exactly the workspaces
//! that satisfy every rule, in their original order.
use vstd::prelude::*;

use crate::error::FilterError;
use crate::settings::Operators;
use crate::settings::Query;
use crate::settings::Settings;
use crate::variable;
use crate::WorkspaceVariables;
use crate::WorkspaceVariablesOuter;

verus! {

/// `needle` occurs in `hay` as a contiguous run of characters.
pub open spec fn contains_substr(hay: Seq<char>, needle: Seq<char>) -> bool {
    exists|i: int|
        0 <= i <= hay.len() - needle.len() && #[trigger] hay.subrange(i, i + needle.len() as int)
            == needle
}

/// Relies on `str::contains`: true exactly when the needle matches a
/// contiguous sub-slice of the haystack.
#[verifier::external_body]
fn contains_substr_exec(hay: &str, needle: &str) -> (r: bool)
    ensures
        r == contains_substr(hay@, needle@),
{
    hay.contains(needle)
}

/// The variable carries the rule's key, a present value, and exactly the
/// rule's value.
pub open spec fn key_value_equal(v: variable::Variable, rule: crate::settings::Variable) -> bool {
    &&& v.attributes.key@ == rule.key@
    &&& v.attributes.value matches Some(t) && t@ == rule.value@
}

/// The variable carries the rule's key and a present value that contains
/// the rule's value as a substring.
pub open spec fn key_value_contains(
    v: variable::Variable,
    rule: crate::settings::Variable,
) -> bool {
    &&& v.attributes.key@ == rule.key@
    &&& v.attributes.value matches Some(t) && contains_substr(t@, rule.value@)
}

/// One rule, evaluated independently against a workspace's variable list.
/// An attribute under another key is ignored; one with an absent value
/// never satisfies Equals or Contains and never triggers NotEquals or
/// NotContains.
pub open spec fn rule_holds(ws: WorkspaceVariables, rule: crate::settings::Variable) -> bool {
    match rule.operator {
        Operators::Equals => exists|j: int|
            0 <= j < ws.variables@.len() && key_value_equal(#[trigger] ws.variables@[j], rule),
        Operators::NotEquals => forall|j: int|
            0 <= j < ws.variables@.len() ==> !key_value_equal(#[trigger] ws.variables@[j], rule),
        Operators::Contains => exists|j: int|
            0 <= j < ws.variables@.len() && key_value_contains(#[trigger] ws.variables@[j], rule),
        Operators::NotContains => forall|j: int|
            0 <= j < ws.variables@.len() ==> !key_value_contains(
                #[trigger] ws.variables@[j],
                rule,
            ),
    }
}

/// A workspace is retained exactly when every rule, evaluated
/// independently, retains it: a true conjunction across the rule list.
pub open spec fn retained(ws: WorkspaceVariables, rules: Seq<crate::settings::Variable>) -> bool {
    forall|i: int| 0 <= i < rules.len() ==> rule_holds(ws, #[trigger] rules[i])
}

/// The rules a query declares; a query without rules declares none.
pub open spec fn query_rules(q: Query) -> Seq<crate::settings::Variable> {
    match q.variables {
        Some(rules) => rules@,
        None => Seq::empty(),
    }
}

/// The workspaces that survive the rules, in their original order.
pub open spec fn filtered(
    entities: Seq<WorkspaceVariables>,
    rules: Seq<crate::settings::Variable>,
) -> Seq<WorkspaceVariables> {
    entities.filter(|ws: WorkspaceVariables| retained(ws, rules))
}

proof fn lemma_filtered_snoc(
    s: Seq<WorkspaceVariables>,
    rules: Seq<crate::settings::Variable>,
    x: WorkspaceVariables,
)
    ensures
        retained(x, rules) ==> filtered(s.push(x), rules) == filtered(s, rules).push(x),
        !retained(x, rules) ==> filtered(s.push(x), rules) == filtered(s, rules),
{
    reveal(Seq::filter);
    assert(s.push(x).drop_last() =~= s);
    assert(s.push(x).last() == x);
}

/// Some variable of the list satisfies the rule's key and equals its value.
fn some_variable_equals(
    vars: &Vec<variable::Variable>,
    rule: &crate::settings::Variable,
) -> (found: bool)
    ensures
        found == exists|j: int|
            0 <= j < vars@.len() && key_value_equal(#[trigger] vars@[j], *rule),
{
    let mut k: usize = 0;
    while k < vars.len()
        invariant
            0 <= k <= vars@.len(),
            forall|j: int| 0 <= j < k ==> !key_value_equal(#[trigger] vars@[j], *rule),
        decreases vars@.len() - k,
    {
        let v = &vars[k];
        if v.attributes.key == rule.key {
            match &v.attributes.value {
                Some(t) => {
                    if *t == rule.value {
                        assert(key_value_equal(vars@[k as int], *rule));
                        return true;
                    }
                },
                None => {},
            }
        }
        k = k + 1;
    }
    false
}

/// Some variable of the list satisfies the rule's key and contains its
/// value as a substring.
fn some_variable_contains(
    vars: &Vec<variable::Variable>,
    rule: &crate::settings::Variable,
) -> (found: bool)
    ensures
        found == exists|j: int|
            0 <= j < vars@.len() && key_value_contains(#[trigger] vars@[j], *rule),
{
    let mut k: usize = 0;
    while k < vars.len()
        invariant
            0 <= k <= vars@.len(),
            forall|j: int| 0 <= j < k ==> !key_value_contains(#[trigger] vars@[j], *rule),
        decreases vars@.len() - k,
    {
        let v = &vars[k];
        if v.attributes.key == rule.key {
            match &v.attributes.value {
                Some(t) => {
                    if contains_substr_exec(t.as_str(), rule.value.as_str()) {
                        assert(key_value_contains(vars@[k as int], *rule));
                        return true;
                    }
                },
                None => {},
            }
        }
        k = k + 1;
    }
    false
}

/// Evaluates one rule against one workspace's variable list.
fn rule_matches(ws: &WorkspaceVariables, rule: &crate::settings::Variable) -> (keep: bool)
    ensures
        keep == rule_holds(*ws, *rule),
{
    match rule.operator {
        Operators::Equals => some_variable_equals(&ws.variables, rule),
        Operators::NotEquals => !some_variable_equals(&ws.variables, rule),
        Operators::Contains => some_variable_contains(&ws.variables, rule),
        Operators::NotContains => !some_variable_contains(&ws.variables, rule),
    }
}

/// Evaluates every rule against one workspace, with an early exit as soon
/// as any rule drops it.
fn entity_retained(ws: &WorkspaceVariables, rules: &Vec<crate::settings::Variable>) -> (keep: bool)
    ensures
        keep == retained(*ws, rules@),
{
    let mut k: usize = 0;
    while k < rules.len()
        invariant
            0 <= k <= rules@.len(),
            forall|i: int| 0 <= i < k ==> rule_holds(*ws, #[trigger] rules@[i]),
        decreases rules@.len() - k,
    {
        if !rule_matches(ws, &rules[k]) {
            return false;
        }
        k = k + 1;
    }
    true
}

/// Filters the workspaces in place: a workspace survives exactly when
/// every rule of the query retains it, and the survivors keep their
/// original order. A query without rules retains everything unchanged;
/// filtering itself never fails.
pub fn variable(workspace_variables: &mut WorkspaceVariablesOuter, config: &Settings) -> (r:
    Result<(), FilterError>)
    ensures
        r is Ok,
        final(workspace_variables).workspaces@ == filtered(
            old(workspace_variables).workspaces@,
            query_rules(config.query),
        ),
{
    let ghost orig = workspace_variables.workspaces@;
    match &config.query.variables {
        None => {
            proof {
                lemma_no_rules_keeps_all(orig);
            }
            Ok(())
        },
        Some(rules) => {
            let mut kept: Vec<WorkspaceVariables> = Vec::new();
            let ghost done: int = 0;
            while workspace_variables.workspaces.len() > 0
                invariant
                    0 <= done <= orig.len(),
                    rules@ == query_rules(config.query),
                    workspace_variables.workspaces@ == orig.subrange(done, orig.len() as int),
                    kept@ == filtered(orig.subrange(0, done), rules@),
                decreases workspace_variables.workspaces@.len(),
            {
                let ws = workspace_variables.workspaces.remove(0);
                proof {
                    assert(ws == orig[done]);
                    assert(workspace_variables.workspaces@ =~= orig.subrange(
                        done + 1,
                        orig.len() as int,
                    ));
                    assert(orig.subrange(0, done + 1) =~= orig.subrange(0, done).push(orig[done]));
                    lemma_filtered_snoc(orig.subrange(0, done), rules@, orig[done]);
                }
                if entity_retained(&ws, rules) {
                    kept.push(ws);
                }
                proof {
                    done = done + 1;
                }
            }
            proof {
                assert(orig.subrange(0, orig.len() as int) =~= orig);
            }
            workspace_variables.workspaces = kept;
            Ok(())
        },
    }
}

/// No-rules passthrough: with an empty rule list every workspace is
/// retained, unchanged and in its original order.
pub proof fn lemma_no_rules_keeps_all(entities: Seq<WorkspaceVariables>)
    ensures
        filtered(entities, Seq::empty()) == entities,
    decreases entities.len(),
{
    reveal(Seq::filter);
    if entities.len() == 0 {
        assert(filtered(entities, Seq::empty()) =~= entities);
    } else {
        lemma_no_rules_keeps_all(entities.drop_last());
        assert(retained(entities.last(), Seq::empty()));
        assert(filtered(entities, Seq::empty()) =~= entities);
    }
}

/// `at` names, in strictly increasing order, where each entity of `sub`
/// stands in `sup`.
pub open spec fn subsequence_via(
    sub: Seq<WorkspaceVariables>,
    sup: Seq<WorkspaceVariables>,
    at: Seq<int>,
) -> bool {
    &&& at.len() == sub.len()
    &&& forall|i: int|
        0 <= i < at.len() ==> 0 <= #[trigger] at[i] < sup.len() && sub[i] == sup[at[i]]
    &&& forall|i: int, j: int| 0 <= i < j < at.len() ==> at[i] < at[j]
}

/// `sub` is an order-preserving selection from `sup`.
pub open spec fn is_subsequence(
    sub: Seq<WorkspaceVariables>,
    sup: Seq<WorkspaceVariables>,
) -> bool {
    exists|at: Seq<int>| subsequence_via(sub, sup, at)
}

/// Order preservation: filtering never reorders survivors; what survives
/// is an order-preserving selection from the original sequence.
pub proof fn lemma_filter_preserves_order(
    entities: Seq<WorkspaceVariables>,
    rules: Seq<crate::settings::Variable>,
)
    ensures
        is_subsequence(filtered(entities, rules), entities),
    decreases entities.len(),
{
    reveal(Seq::filter);
    if entities.len() == 0 {
        assert(subsequence_via(filtered(entities, rules), entities, Seq::empty()));
    } else {
        let s = entities.drop_last();
        let x = entities.last();
        assert(s.push(x) =~= entities);
        lemma_filter_preserves_order(s, rules);
        let at0 = choose|at: Seq<int>| subsequence_via(filtered(s, rules), s, at);
        lemma_filtered_snoc(s, rules, x);
        if retained(x, rules) {
            let at1 = at0.push(s.len() as int);
            assert(filtered(entities, rules) == filtered(s, rules).push(x));
            assert forall|i: int| 0 <= i < at1.len() implies 0 <= #[trigger] at1[i]
                < entities.len() && filtered(entities, rules)[i] == entities[at1[i]] by {
                if i < at0.len() {
                    assert(filtered(entities, rules)[i] == filtered(s, rules)[i]);
                    assert(entities[at0[i]] == s[at0[i]]);
                }
            }
            assert(subsequence_via(filtered(entities, rules), entities, at1));
        } else {
            assert(filtered(entities, rules) == filtered(s, rules));
            assert forall|i: int| 0 <= i < at0.len() implies 0 <= #[trigger] at0[i]
                < entities.len() && filtered(entities, rules)[i] == entities[at0[i]] by {
                assert(entities[at0[i]] == s[at0[i]]);
            }
            assert(subsequence_via(filtered(entities, rules), entities, at0));
        }
    }
}

/// Absent-value attributes never match: a variable without a value cannot
/// satisfy an Equals or Contains rule, and never triggers a drop under
/// NotEquals or NotContains; a workspace whose variables all lack values is
/// dropped by Equals and Contains rules and retained by NotEquals and
/// NotContains rules.
pub proof fn lemma_absent_value_never_matches(
    v: variable::Variable,
    ws: WorkspaceVariables,
    rule: crate::settings::Variable,
)
    requires
        v.attributes.value is None,
        forall|j: int|
            0 <= j < ws.variables@.len() ==> (#[trigger] ws.variables@[j]).attributes.value
                is None,
    ensures
        !key_value_equal(v, rule),
        !key_value_contains(v, rule),
        rule.operator is Equals ==> !rule_holds(ws, rule),
        rule.operator is Contains ==> !rule_holds(ws, rule),
        rule.operator is NotEquals ==> rule_holds(ws, rule),
        rule.operator is NotContains ==> rule_holds(ws, rule),
{
}

} // verus!
