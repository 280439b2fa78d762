//! Assigning agents to tasks: what an invocation asks for, how a role maps
//! to a composition-rules agent type, and how the rules' caps narrow the
//! candidate pool without ever emptying it.
use vstd::prelude::*;
use crate::text::{decimal, owned, str_eq, push_decimal, join_with};
use crate::archive::{views, lemma_views_push};
use crate::agency_push::join_strings;

verus! {

/// What `wg assign` was asked to do.
#[derive(Debug, Clone)]
pub enum AssignAction {
    /// Remove the task's agent.
    Clear,
    /// Rank the roster and pick deterministically.
    Auto,
    /// Bind the agent matching this hash or prefix.
    Explicit(String),
}

pub open spec fn not_initialized_text() -> Seq<char> {
    "WG not initialized. Run 'wg init' first."@
}

pub open spec fn usage_text() -> Seq<char> {
    "Usage: wg assign <task-id> <agent-hash>\nOr use --auto for automatic assignment.\nOr use --clear to remove assignment."@
}

/// `--clear` wins over `--auto`, which wins over an agent hash; without a
/// graph nothing is done, and without any of the three the usage is shown.
pub fn run(graph_exists: bool, agent_hash: Option<&str>, clear: bool, auto: bool) -> (r: Result<
    AssignAction,
    String,
>)
    ensures
        !graph_exists ==> (r matches Err(m) && m@ == not_initialized_text()),
        graph_exists && clear ==> r matches Ok(AssignAction::Clear),
        graph_exists && !clear && auto ==> r matches Ok(AssignAction::Auto),
        graph_exists && !clear && !auto ==> match agent_hash {
            Some(h) => r matches Ok(AssignAction::Explicit(x)) && x@ == h@,
            None => r matches Err(m) && m@ == usage_text(),
        },
{
    if !graph_exists {
        return Err(owned("WG not initialized. Run 'wg init' first."));
    }
    if clear {
        return Ok(AssignAction::Clear);
    }
    if auto {
        return Ok(AssignAction::Auto);
    }
    match agent_hash {
        Some(h) => Ok(AssignAction::Explicit(owned(h))),
        None => Err(
            owned(
                "Usage: wg assign <task-id> <agent-hash>\nOr use --auto for automatic assignment.\nOr use --clear to remove assignment.",
            ),
        ),
    }
}

pub open spec fn agent_type_spec(role_name: Seq<char>) -> Seq<char> {
    if role_name == "Assigner"@ {
        "assigner"@
    } else if role_name == "Evaluator"@ {
        "evaluator"@
    } else if role_name == "Evolver"@ {
        "evolver"@
    } else if role_name == "Agent Creator"@ || role_name == "AgentCreator"@ {
        "agent_creator"@
    } else {
        "task"@
    }
}

/// The composition-rules agent type of a role, by its well-known name;
/// every other role is a `task` agent.
pub fn agent_type_for_role(role_name: &str) -> (t: &'static str)
    ensures
        t@ == agent_type_spec(role_name@),
{
    if str_eq(role_name, "Assigner") {
        "assigner"
    } else if str_eq(role_name, "Evaluator") {
        "evaluator"
    } else if str_eq(role_name, "Evolver") {
        "evolver"
    } else if str_eq(role_name, "Agent Creator") || str_eq(role_name, "AgentCreator") {
        "agent_creator"
    } else {
        "task"
    }
}

/// A composition rule: the most role components an agent of a type may have.
#[derive(Debug, Clone)]
pub struct CapRule {
    pub agent_type: String,
    pub max_role_components: Option<usize>,
}

/// A candidate agent as the caps read it: its short hash, and its role's
/// name and component count when the role was found.
#[derive(Debug, Clone)]
pub struct CapCandidate {
    pub short_id: String,
    pub role: Option<(String, usize)>,
}

/// The first rule for an agent type.
pub open spec fn rule_for(rules: Seq<CapRule>, agent_type: Seq<char>) -> Option<int>
    decreases rules.len(),
{
    if rules.len() == 0 {
        None
    } else {
        match rule_for(rules.drop_last(), agent_type) {
            Some(i) => Some(i),
            None => if rules.last().agent_type@ == agent_type {
                Some(rules.len() - 1)
            } else {
                None
            },
        }
    }
}

proof fn lemma_rule_for(rules: Seq<CapRule>, agent_type: Seq<char>)
    ensures
        rule_for(rules, agent_type) matches Some(i) ==> 0 <= i < rules.len(),
    decreases rules.len(),
{
    if rules.len() > 0 {
        lemma_rule_for(rules.drop_last(), agent_type);
    }
}

/// Whether a candidate passes the caps: an agent whose role is missing, or
/// has no rule for its type, or a rule without a cap, or a component count
/// within the cap.
pub open spec fn within_caps(rules: Seq<CapRule>, c: CapCandidate) -> bool {
    match c.role {
        None => true,
        Some((name, n)) => match rule_for(rules, agent_type_spec(name@)) {
            None => true,
            Some(i) => match rules[i].max_role_components {
                None => true,
                Some(cap) => n <= cap,
            },
        },
    }
}

/// How a dropped candidate is described.
pub open spec fn dropped_text(rules: Seq<CapRule>, c: CapCandidate) -> Seq<char> {
    let (name, n) = c.role.unwrap();
    let cap = rules[rule_for(rules, agent_type_spec(name@)).unwrap()].max_role_components.unwrap();
    c.short_id@ + " (role '"@ + name@ + "' has "@ + decimal(n as nat) + " components > cap "@
        + decimal(cap as nat) + ")"@
}

/// The caps applied to a pool: the kept positions, the descriptions of the
/// dropped, and whether every candidate was dropped so the whole pool stays.
#[derive(Debug, Clone)]
pub struct CapOutcome {
    pub kept: Vec<usize>,
    pub dropped: Vec<String>,
    pub fell_back: bool,
}

pub open spec fn kept_positions(rules: Seq<CapRule>, pool: Seq<CapCandidate>) -> Seq<int>
    decreases pool.len(),
{
    if pool.len() == 0 {
        Seq::empty()
    } else {
        let rest = kept_positions(rules, pool.drop_last());
        if within_caps(rules, pool.last()) {
            rest.push(pool.len() - 1)
        } else {
            rest
        }
    }
}

pub open spec fn dropped_texts(rules: Seq<CapRule>, pool: Seq<CapCandidate>) -> Seq<Seq<char>>
    decreases pool.len(),
{
    if pool.len() == 0 {
        Seq::empty()
    } else {
        let rest = dropped_texts(rules, pool.drop_last());
        if within_caps(rules, pool.last()) {
            rest
        } else {
            rest.push(dropped_text(rules, pool.last()))
        }
    }
}

fn find_rule(rules: &Vec<CapRule>, agent_type: &str) -> (r: Option<usize>)
    ensures
        match r {
            Some(i) => rule_for(rules@, agent_type@) == Some(i as int) && i < rules@.len(),
            None => rule_for(rules@, agent_type@) is None,
        },
{
    let mut i: usize = 0;
    while i < rules.len()
        invariant
            i <= rules.len(),
            rule_for(rules@.take(i as int), agent_type@) is None,
        decreases rules.len() - i,
    {
        assert(rules@.take(i + 1).drop_last() =~= rules@.take(i as int));
        if str_eq(rules[i].agent_type.as_str(), agent_type) {
            proof {
                lemma_rule_for_extends(rules@, i + 1, agent_type@);
            }
            return Some(i);
        }
        i += 1;
    }
    assert(rules@.take(i as int) =~= rules@);
    None
}

proof fn lemma_rule_for_extends(rules: Seq<CapRule>, n: int, agent_type: Seq<char>)
    requires
        0 <= n <= rules.len(),
        rule_for(rules.take(n), agent_type) is Some,
    ensures
        rule_for(rules, agent_type) == rule_for(rules.take(n), agent_type),
    decreases rules.len() - n,
{
    if n < rules.len() {
        assert(rules.take(n + 1).drop_last() =~= rules.take(n));
        lemma_rule_for_extends(rules, n + 1, agent_type);
    } else {
        assert(rules.take(n) =~= rules);
    }
}

/// Narrows a pool by the composition-rules caps. When the caps would drop
/// every candidate of a non-empty pool, the whole pool is kept instead: an
/// assignment needs some agent, and a stale cap must not block it.
pub fn apply_caps(rules: &Vec<CapRule>, pool: &Vec<CapCandidate>) -> (o: CapOutcome)
    ensures
        pool@.len() > 0 ==> o.kept@.len() > 0,
        views(o.dropped@) == dropped_texts(rules@, pool@),
        o.fell_back == (kept_positions(rules@, pool@).len() == 0 && pool@.len() > 0),
        o.fell_back ==> o.kept@.len() == pool@.len() && forall|k: int|
            0 <= k < pool@.len() ==> #[trigger] o.kept@[k] == k,
        !o.fell_back ==> o.kept@.len() == kept_positions(rules@, pool@).len() && forall|k: int|
            0 <= k < o.kept@.len() ==> #[trigger] o.kept@[k] == kept_positions(rules@, pool@)[k],
{
    let mut kept: Vec<usize> = Vec::new();
    let mut dropped: Vec<String> = Vec::new();
    let mut i: usize = 0;
    while i < pool.len()
        invariant
            i <= pool.len(),
            kept@.len() == kept_positions(rules@, pool@.take(i as int)).len(),
            forall|k: int|
                0 <= k < kept@.len() ==> #[trigger] kept@[k] == kept_positions(
                    rules@,
                    pool@.take(i as int),
                )[k],
            views(dropped@) == dropped_texts(rules@, pool@.take(i as int)),
        decreases pool.len() - i,
    {
        assert(pool@.take(i + 1).drop_last() =~= pool@.take(i as int));
        assert(pool@.take(i + 1).last() == pool@[i as int]);
        let c = &pool[i];
        match &c.role {
            None => {
                kept.push(i);
            },
            Some((name, n)) => {
                let agent_type = agent_type_for_role(name.as_str());
                match find_rule(rules, agent_type) {
                    None => {
                        kept.push(i);
                    },
                    Some(r) => match rules[r].max_role_components {
                        None => {
                            kept.push(i);
                        },
                        Some(cap) => {
                            if *n <= cap {
                                kept.push(i);
                            } else {
                                let mut d = owned(c.short_id.as_str());
                                d.append(" (role '");
                                d.append(name.as_str());
                                d.append("' has ");
                                push_decimal(&mut d, *n as u64);
                                d.append(" components > cap ");
                                push_decimal(&mut d, cap as u64);
                                d.append(")");
                                let ghost prev = dropped@;
                                dropped.push(d);
                                proof {
                                    lemma_views_push(prev, d);
                                }
                            }
                        },
                    },
                }
            },
        }
        i += 1;
    }
    assert(pool@.take(pool@.len() as int) =~= pool@);
    if kept.len() == 0 && pool.len() > 0 {
        let mut all: Vec<usize> = Vec::new();
        let mut k: usize = 0;
        while k < pool.len()
            invariant
                k <= pool.len(),
                all@.len() == k,
                forall|j: int| 0 <= j < k ==> #[trigger] all@[j] == j,
            decreases pool.len() - k,
        {
            all.push(k);
            k += 1;
        }
        return CapOutcome { kept: all, dropped, fell_back: true };
    }
    CapOutcome { kept, dropped, fell_back: false }
}

/// The warnings the caps print: a fallback when every candidate was
/// dropped, else the dropped ones when there are any.
pub open spec fn cap_warning_text(o_fell_back: bool, dropped: Seq<Seq<char>>) -> Option<Seq<char>> {
    if o_fell_back {
        Some(
            "Warning: composition-rules cap would block every candidate agent ("@ + decimal(
                dropped.len(),
            ) + " dropped: "@ + join_with(dropped, ", "@)
                + "). Falling back to unfiltered pool."@,
        )
    } else if dropped.len() > 0 {
        Some(
            "[assign] composition-rules cap dropped "@ + decimal(dropped.len()) + " agent(s): "@
                + join_with(dropped, ", "@),
        )
    } else {
        None
    }
}

pub fn cap_warning(o: &CapOutcome) -> (w: Option<String>)
    ensures
        match w {
            Some(t) => cap_warning_text(o.fell_back, views(o.dropped@)) == Some(t@),
            None => cap_warning_text(o.fell_back, views(o.dropped@)) is None,
        },
{
    let list = join_strings(&o.dropped, ", ");
    if o.fell_back {
        let mut m = owned("Warning: composition-rules cap would block every candidate agent (");
        push_decimal(&mut m, o.dropped.len() as u64);
        m.append(" dropped: ");
        m.append(list.as_str());
        m.append("). Falling back to unfiltered pool.");
        Some(m)
    } else if o.dropped.len() > 0 {
        let mut m = owned("[assign] composition-rules cap dropped ");
        push_decimal(&mut m, o.dropped.len() as u64);
        m.append(" agent(s): ");
        m.append(list.as_str());
        Some(m)
    } else {
        None
    }
}

/// The report of `--clear`.
pub fn clear_message(task_id: &str, had_agent: bool) -> (m: String)
    ensures
        m@ == if had_agent {
            "Cleared agent from task '"@ + task_id@ + "'"@
        } else {
            "Task '"@ + task_id@ + "' had no agent assigned (no change)"@
        },
{
    if had_agent {
        let mut m = owned("Cleared agent from task '");
        m.append(task_id);
        m.append("'");
        m
    } else {
        let mut m = owned("Task '");
        m.append(task_id);
        m.append("' had no agent assigned (no change)");
        m
    }
}

/// The refusal when no agent matches an explicit hash, with the agents
/// that exist.
pub fn no_agent_message(agent_hash: &str, available: &Vec<String>) -> (m: String)
    ensures
        m@ == "No agent matching '"@ + agent_hash@ + "'. "@ + if available@.len() == 0 {
            "No agents defined. Use 'wg agent create' to create one."@
        } else {
            "Available agents: "@ + join_with(views(available@), ", "@)
        },
{
    let mut m = owned("No agent matching '");
    m.append(agent_hash);
    m.append("'. ");
    if available.len() == 0 {
        m.append("No agents defined. Use 'wg agent create' to create one.");
    } else {
        m.append("Available agents: ");
        let list = join_strings(available, ", ");
        m.append(list.as_str());
    }
    m
}

// ---------------------------------------------------------------------------
// Automatic assignment: the refusals before ranking
// ---------------------------------------------------------------------------

/// An automatic assignment refused before ranking: the class of the
/// uncomposed intent it records, that intent's message, and the error shown.
#[derive(Debug, Clone)]
pub struct AutoAssignRefusal {
    pub class: String,
    pub intent_message: String,
    pub error: String,
}

/// What a configured assignment provider answered.
#[derive(Debug, Clone)]
pub enum ProviderReply {
    /// It returned an agency task id (but never a receipt-bound composition).
    Answered { agency_task_id: String },
    /// The request failed with this error.
    Failed { error: String },
}

/// An external provider assigns when the assignment source is `agency` and
/// a server URL is configured.
pub fn provider_configured(assignment_source: Option<&str>, has_server_url: bool) -> (b: bool)
    ensures
        b == (has_server_url && match assignment_source {
            Some(s) => s@ == "agency"@,
            None => false,
        }),
{
    has_server_url && match assignment_source {
        Some(s) => str_eq(s, "agency"),
        None => false,
    }
}

pub open spec fn provider_refusal_spec(reply: ProviderReply) -> (Seq<char>, Seq<char>, Seq<char>) {
    match reply {
        ProviderReply::Answered { agency_task_id } => {
            let message = "provider returned agency_task_id="@ + agency_task_id@
                + " but no receipt-bound composition"@;
            (
                "malformed_or_unbound_output"@,
                message,
                "error[WG-ASSIGNMENT-PROVIDER-UNCOMPOSED]: "@ + message
                    + "; no identity or route was fabricated. Explicit fallback policy is direct-uncomposed dispatch on the next claim"@,
            )
        },
        ProviderReply::Failed { error } => (
            "provider_unavailable"@,
            error@,
            "error[WG-ASSIGNMENT-PROVIDER-UNAVAILABLE]: configured assignment provider failed; no silent native reroute occurred. Explicit fallback policy is direct-uncomposed dispatch on the next claim: "@
                + error@,
        ),
    }
}

/// A configured provider never yields an assignment: whatever it answers,
/// the run records an uncomposed intent and refuses, fabricating no
/// identity or route.
pub fn provider_refusal(reply: &ProviderReply) -> (r: AutoAssignRefusal)
    ensures
        (r.class@, r.intent_message@, r.error@) == provider_refusal_spec(*reply),
{
    match reply {
        ProviderReply::Answered { agency_task_id } => {
            let mut message = owned("provider returned agency_task_id=");
            message.append(agency_task_id.as_str());
            message.append(" but no receipt-bound composition");
            let mut error = owned("error[WG-ASSIGNMENT-PROVIDER-UNCOMPOSED]: ");
            error.append(message.as_str());
            error.append(
                "; no identity or route was fabricated. Explicit fallback policy is direct-uncomposed dispatch on the next claim",
            );
            AutoAssignRefusal { class: owned("malformed_or_unbound_output"), intent_message: message, error }
        },
        ProviderReply::Failed { error: e } => {
            let mut error = owned(
                "error[WG-ASSIGNMENT-PROVIDER-UNAVAILABLE]: configured assignment provider failed; no silent native reroute occurred. Explicit fallback policy is direct-uncomposed dispatch on the next claim: ",
            );
            error.append(e.as_str());
            AutoAssignRefusal {
                class: owned("provider_unavailable"),
                intent_message: owned(e.as_str()),
                error,
            }
        },
    }
}

/// Ranking needs agents: with none, the run records an uncomposed intent
/// and refuses.
pub fn agent_pool_gate(agent_count: usize) -> (r: Result<(), AutoAssignRefusal>)
    ensures
        r is Ok <==> agent_count > 0,
        r matches Err(e) ==> e.class@ == "no_eligible_composition"@ && e.intent_message@
            == "no agents available for deterministic ranking"@ && e.error@
            == "No agents available for deterministic automatic assignment. The next claim may proceed with an explicit direct-uncomposed receipt; use 'wg agent create' to create agents first."@,
{
    if agent_count > 0 {
        Ok(())
    } else {
        Err(
            AutoAssignRefusal {
                class: owned("no_eligible_composition"),
                intent_message: owned("no agents available for deterministic ranking"),
                error: owned(
                    "No agents available for deterministic automatic assignment. The next claim may proceed with an explicit direct-uncomposed receipt; use 'wg agent create' to create agents first.",
                ),
            },
        )
    }
}

} // verus!
