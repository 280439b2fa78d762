//! Adaptive review bookkeeping: how an evaluating agent's verdict becomes a
//! review outcome, which route generation a review attempt records, how a
//! terminal task is projected into a learning episode, and the filters of
//! the review listing.
use vstd::prelude::*;
use crate::text::{ascii_lower, ascii_lower_char, contains, owned, str_eq, str_contains, chars_of, decimal, push_decimal};
use crate::archive::{views, opt_view, strings_contain, TaskStatus};
use crate::task_ops::{status_debug, status_debug_name};
use crate::hashing::{b3_digest, blake3, hex_lower};

verus! {

#[derive(Debug, Clone, Copy, PartialEq, Eq, Structural)]
pub enum ReviewVerdict {
    Pass,
    Reject,
    Absent,
    IncompleteEvidence,
    Unavailable,
}

/// Why an evaluating agent could not finish; `Other` stands for the rest.
#[derive(Debug, Clone, Copy, PartialEq, Eq, Structural)]
pub enum ReviewFailureClass {
    IncompleteEvidence,
    Other,
}

#[derive(Debug, Clone, Copy, PartialEq, Eq, Structural)]
pub enum SemanticOutcome {
    Pass,
    Reject,
    Inconclusive,
}

#[derive(Debug, Clone, Copy, PartialEq, Eq, Structural)]
pub enum InfrastructureOutcome {
    EvidenceUnavailable,
    Timeout,
    MalformedOutput,
    AdapterUnavailable,
}

/// A review's outcome: a judgement of the work, or a failure of the review
/// machinery.
#[derive(Debug, Clone, Copy, PartialEq, Eq, Structural)]
pub enum ReviewOutcome {
    Semantic(SemanticOutcome),
    Infrastructure(InfrastructureOutcome),
}

/// Some finding code, lowercased, contains `needle`.
pub open spec fn any_code_contains(codes: Seq<Seq<char>>, needle: Seq<char>) -> bool {
    exists|k: int| 0 <= k < codes.len() && contains(ascii_lower(#[trigger] codes[k]), needle)
}

/// Pass and reject judge the work; an absent verdict is inconclusive;
/// incomplete evidence is an infrastructure outcome; an unavailable
/// evaluating agent is classified by its findings' codes (timeout, then invalid or
/// malformed output), then by its failure class.
pub open spec fn outcome_spec(
    verdict: ReviewVerdict,
    failure: Option<ReviewFailureClass>,
    codes: Seq<Seq<char>>,
) -> ReviewOutcome {
    match verdict {
        ReviewVerdict::Pass => ReviewOutcome::Semantic(SemanticOutcome::Pass),
        ReviewVerdict::Reject => ReviewOutcome::Semantic(SemanticOutcome::Reject),
        ReviewVerdict::Absent => ReviewOutcome::Semantic(SemanticOutcome::Inconclusive),
        ReviewVerdict::IncompleteEvidence => ReviewOutcome::Infrastructure(
            InfrastructureOutcome::EvidenceUnavailable,
        ),
        ReviewVerdict::Unavailable => ReviewOutcome::Infrastructure(
            if any_code_contains(codes, "timeout"@) {
                InfrastructureOutcome::Timeout
            } else if any_code_contains(codes, "invalid"@) || any_code_contains(codes, "malformed"@) {
                InfrastructureOutcome::MalformedOutput
            } else if failure == Some(ReviewFailureClass::IncompleteEvidence) {
                InfrastructureOutcome::EvidenceUnavailable
            } else {
                InfrastructureOutcome::AdapterUnavailable
            },
        ),
    }
}

/// `str::to_ascii_lowercase`.
pub fn ascii_lowercase(s: &str) -> (out: String)
    ensures
        out@ == ascii_lower(s@),
{
    let v = chars_of(s);
    let mut out = String::new();
    let mut i: usize = 0;
    while i < v.len()
        invariant
            i <= v.len(),
            v@ == s@,
            out@ == ascii_lower(v@.take(i as int)),
        decreases v.len() - i,
    {
        let c = v[i];
        let upper = (c as u32) >= ('A' as u32) && (c as u32) <= ('Z' as u32);
        let l = if upper {
            let x: u32 = (c as u32) + 32;
            let b: u8 = x as u8;
            assert(b == x);
            let r = b as char;
            assert(r as u32 == x);
            proof {
                vstd::utf8::char_u32_cast(r, x);
                assert(ascii_lower_char(c) == ((c as u32) + 32) as char);
                assert(((c as u32) + 32) as char == x as char);
            }
            r
        } else {
            c
        };
        assert(l == ascii_lower_char(c));
        crate::text::push_char(&mut out, l);
        assert(ascii_lower(v@.take(i + 1)) =~= ascii_lower(v@.take(i as int)).push(l));
        i += 1;
    }
    assert(v@.take(v@.len() as int) =~= v@);
    out
}

fn any_contains(codes: &Vec<String>, needle: &str) -> (b: bool)
    ensures
        b == any_code_contains(views(codes@), needle@),
{
    let mut i: usize = 0;
    while i < codes.len()
        invariant
            i <= codes.len(),
            forall|k: int| 0 <= k < i ==> !contains(ascii_lower(#[trigger] views(codes@)[k]), needle@),
        decreases codes.len() - i,
    {
        let lower = ascii_lowercase(codes[i].as_str());
        if str_contains(lower.as_str(), needle) {
            assert(contains(ascii_lower(views(codes@)[i as int]), needle@));
            return true;
        }
        i += 1;
    }
    false
}

/// The outcome of a review.
pub fn classify_outcome(
    verdict: ReviewVerdict,
    failure: Option<ReviewFailureClass>,
    finding_codes: &Vec<String>,
) -> (o: ReviewOutcome)
    ensures
        o == outcome_spec(verdict, failure, views(finding_codes@)),
{
    match verdict {
        ReviewVerdict::Pass => ReviewOutcome::Semantic(SemanticOutcome::Pass),
        ReviewVerdict::Reject => ReviewOutcome::Semantic(SemanticOutcome::Reject),
        ReviewVerdict::Absent => ReviewOutcome::Semantic(SemanticOutcome::Inconclusive),
        ReviewVerdict::IncompleteEvidence => ReviewOutcome::Infrastructure(
            InfrastructureOutcome::EvidenceUnavailable,
        ),
        ReviewVerdict::Unavailable => {
            let outcome = if any_contains(finding_codes, "timeout") {
                InfrastructureOutcome::Timeout
            } else if any_contains(finding_codes, "invalid") || any_contains(
                finding_codes,
                "malformed",
            ) {
                InfrastructureOutcome::MalformedOutput
            } else if failure == Some(ReviewFailureClass::IncompleteEvidence) {
                InfrastructureOutcome::EvidenceUnavailable
            } else {
                InfrastructureOutcome::AdapterUnavailable
            };
            ReviewOutcome::Infrastructure(outcome)
        },
    }
}

#[derive(Debug, Clone, Copy, PartialEq, Eq, Structural)]
pub enum ReviewerKind {
    Flip,
    Eval,
}

/// `--candidate`: `current` keeps only current candidates (`true`), `all`
/// keeps every one (`false`).
pub fn parse_candidate_filter(candidate: &str) -> (r: Result<bool, String>)
    ensures
        match r {
            Ok(current_only) => (candidate@ == "current"@ && current_only) || (candidate@ == "all"@
                && !current_only),
            Err(m) => candidate@ != "current"@ && candidate@ != "all"@ && m@
                == "--candidate must be current or all, got '"@ + candidate@ + "'"@,
        },
{
    if str_eq(candidate, "all") {
        Ok(false)
    } else if str_eq(candidate, "current") {
        Ok(true)
    } else {
        let mut m = owned("--candidate must be current or all, got '");
        m.append(candidate);
        m.append("'");
        Err(m)
    }
}

/// `--kind`: `flip`, or `eval` / `evaluate`.
pub fn parse_kind_filter(kind: Option<&str>) -> (r: Result<Option<ReviewerKind>, String>)
    ensures
        match kind {
            None => r == Ok::<Option<ReviewerKind>, String>(None),
            Some(k) => if k@ == "flip"@ {
                r == Ok::<Option<ReviewerKind>, String>(Some(ReviewerKind::Flip))
            } else if k@ == "eval"@ || k@ == "evaluate"@ {
                r == Ok::<Option<ReviewerKind>, String>(Some(ReviewerKind::Eval))
            } else {
                r matches Err(m) && m@ == "--kind must be flip or eval, got '"@ + k@ + "'"@
            },
        },
{
    match kind {
        None => Ok(None),
        Some(k) => {
            if str_eq(k, "flip") {
                Ok(Some(ReviewerKind::Flip))
            } else if str_eq(k, "eval") || str_eq(k, "evaluate") {
                Ok(Some(ReviewerKind::Eval))
            } else {
                let mut m = owned("--kind must be flip or eval, got '");
                m.append(k);
                m.append("'");
                Err(m)
            }
        },
    }
}

// ---------------------------------------------------------------------------
// Which review activities are recorded, and on which route generation
// ---------------------------------------------------------------------------

/// A review activity is recorded once: when it is bound to the current
/// candidate, for the candidate's manifest, and not recorded before.
pub fn is_new_review(
    binding_matches: bool,
    manifest_digest: &str,
    candidate_manifest_digest: &str,
    activity_id: &str,
    recorded: &Vec<String>,
) -> (b: bool)
    ensures
        b == (binding_matches && manifest_digest@ == candidate_manifest_digest@ && !views(
            recorded@,
        ).contains(activity_id@)),
{
    binding_matches && str_eq(manifest_digest, candidate_manifest_digest) && !strings_contain(
        recorded,
        activity_id,
    )
}

/// The route recorded for an activity that names none.
pub open spec fn default_route_text(kind: ReviewerKind) -> Seq<char> {
    match kind {
        ReviewerKind::Flip => "unknown:unknown:flip"@,
        ReviewerKind::Eval => "unknown:unknown:eval"@,
    }
}

pub fn default_route(kind: ReviewerKind) -> (r: String)
    ensures
        r@ == default_route_text(kind),
{
    match kind {
        ReviewerKind::Flip => owned("unknown:unknown:flip"),
        ReviewerKind::Eval => owned("unknown:unknown:eval"),
    }
}

/// A recorded review attempt as route generation reads it: whether it is
/// bound to the current candidate, its kind, exact route, reasoning level
/// and route generation.
#[derive(Debug, Clone)]
pub struct RouteAttempt {
    pub same_binding: bool,
    pub kind: ReviewerKind,
    pub exact_route: String,
    pub reasoning: Option<String>,
    pub route_generation: u64,
}

/// An attempt of the current candidate and this kind.
pub open spec fn same_lane(a: RouteAttempt, kind: ReviewerKind) -> bool {
    a.same_binding && a.kind == kind
}

/// The first attempt of the lane that used this route and reasoning.
pub open spec fn first_same_route(
    attempts: Seq<RouteAttempt>,
    kind: ReviewerKind,
    route: Seq<char>,
    reasoning: Option<Seq<char>>,
) -> Option<int>
    decreases attempts.len(),
{
    if attempts.len() == 0 {
        None
    } else {
        match first_same_route(attempts.drop_last(), kind, route, reasoning) {
            Some(i) => Some(i),
            None => {
                let a = attempts.last();
                if same_lane(a, kind) && a.exact_route@ == route && opt_view(a.reasoning)
                    == reasoning {
                    Some(attempts.len() - 1)
                } else {
                    None
                }
            },
        }
    }
}

/// The greatest route generation of the lane, if it has attempts.
pub open spec fn lane_max_generation(attempts: Seq<RouteAttempt>, kind: ReviewerKind) -> Option<
    u64,
>
    decreases attempts.len(),
{
    if attempts.len() == 0 {
        None
    } else {
        let rest = lane_max_generation(attempts.drop_last(), kind);
        let a = attempts.last();
        if same_lane(a, kind) {
            match rest {
                Some(m) => Some(if a.route_generation > m {
                    a.route_generation
                } else {
                    m
                }),
                None => Some(a.route_generation),
            }
        } else {
            rest
        }
    }
}

/// The route generation of a new attempt: that of the lane's earlier
/// attempt on the same route and reasoning; else one past the lane's
/// greatest (saturating); else zero.
pub open spec fn route_generation_spec(
    attempts: Seq<RouteAttempt>,
    kind: ReviewerKind,
    route: Seq<char>,
    reasoning: Option<Seq<char>>,
) -> u64 {
    match first_same_route(attempts, kind, route, reasoning) {
        Some(i) => attempts[i].route_generation,
        None => match lane_max_generation(attempts, kind) {
            Some(m) => if m == u64::MAX {
                m
            } else {
                (m + 1) as u64
            },
            None => 0,
        },
    }
}

proof fn lemma_first_same_route_bound(
    attempts: Seq<RouteAttempt>,
    kind: ReviewerKind,
    route: Seq<char>,
    reasoning: Option<Seq<char>>,
)
    ensures
        first_same_route(attempts, kind, route, reasoning) matches Some(i) ==> 0 <= i
            < attempts.len(),
    decreases attempts.len(),
{
    if attempts.len() > 0 {
        lemma_first_same_route_bound(attempts.drop_last(), kind, route, reasoning);
    }
}

fn opt_str_eq(a: &Option<String>, b: Option<&str>) -> (r: bool)
    ensures
        r == (opt_view(*a) == match b {
            Some(s) => Some(s@),
            None => None::<Seq<char>>,
        }),
{
    match (a, b) {
        (Some(x), Some(y)) => str_eq(x.as_str(), y),
        (None, None) => true,
        _ => false,
    }
}

pub fn route_generation(
    attempts: &Vec<RouteAttempt>,
    kind: ReviewerKind,
    exact_route: &str,
    reasoning: Option<&str>,
) -> (g: u64)
    ensures
        g == route_generation_spec(attempts@, kind, exact_route@, match reasoning {
            Some(s) => Some(s@),
            None => None,
        }),
{
    let ghost want = match reasoning {
        Some(s) => Some(s@),
        None => None::<Seq<char>>,
    };
    let mut best: Option<u64> = None;
    let mut i: usize = 0;
    while i < attempts.len()
        invariant
            i <= attempts.len(),
            want == match reasoning {
                Some(s) => Some(s@),
                None => None::<Seq<char>>,
            },
            first_same_route(attempts@.take(i as int), kind, exact_route@, want) is None,
            best == lane_max_generation(attempts@.take(i as int), kind),
        decreases attempts.len() - i,
    {
        let ghost prefix = attempts@.take(i + 1);
        assert(prefix.drop_last() =~= attempts@.take(i as int));
        assert(prefix.last() == attempts@[i as int]);
        let a = &attempts[i];
        if a.same_binding && a.kind == kind {
            if str_eq(a.exact_route.as_str(), exact_route) && opt_str_eq(&a.reasoning, reasoning) {
                proof {
                    lemma_first_same_route_extends(attempts@, kind, exact_route@, want, i + 1);
                }
                return a.route_generation;
            }
            best = match best {
                Some(m) => Some(if a.route_generation > m {
                    a.route_generation
                } else {
                    m
                }),
                None => Some(a.route_generation),
            };
        }
        i += 1;
    }
    assert(attempts@.take(attempts@.len() as int) =~= attempts@);
    match best {
        Some(m) => m.saturating_add(1),
        None => 0,
    }
}

proof fn lemma_first_same_route_extends(
    attempts: Seq<RouteAttempt>,
    kind: ReviewerKind,
    route: Seq<char>,
    reasoning: Option<Seq<char>>,
    n: int,
)
    requires
        0 <= n <= attempts.len(),
        first_same_route(attempts.take(n), kind, route, reasoning) is Some,
    ensures
        first_same_route(attempts, kind, route, reasoning) == first_same_route(
            attempts.take(n),
            kind,
            route,
            reasoning,
        ),
    decreases attempts.len() - n,
{
    if n < attempts.len() {
        assert(attempts.take(n + 1).drop_last() =~= attempts.take(n));
        lemma_first_same_route_extends(attempts, kind, route, reasoning, n + 1);
    } else {
        assert(attempts.take(n) =~= attempts);
    }
}

// ---------------------------------------------------------------------------
// Projecting a terminal task
// ---------------------------------------------------------------------------

/// How a task ended.
#[derive(Debug, Clone, Copy, PartialEq, Eq, Structural)]
pub enum TerminalDisposition {
    Done,
    Failed,
    Abandoned,
}

/// One lifecycle audit event of a task.
#[derive(Debug, Clone)]
pub struct LifecycleEvent {
    pub event_id: String,
    pub generation: u64,
    pub new_state: TaskStatus,
    pub attempt_id: Option<String>,
    pub fence: u64,
    pub reason_code: String,
}

/// Where the assignment of the terminal attempt came from.
#[derive(Debug, Clone)]
pub enum AssignmentProvenance {
    /// The candidate's bound assignment receipt.
    BoundReceipt(String),
    /// An attempt without a bound receipt: the digest of the task id.
    UnknownLegacy(String),
    NoAttempt,
}

/// What vouches for the terminal state.
#[derive(Debug, Clone)]
pub enum TerminalProvenance {
    OperatorAcceptance(String),
    CompletionReceipt(String),
    FailureEvent(String),
}

/// Whether the episode may teach source quality.
#[derive(Debug, Clone)]
pub enum SourceQuality {
    Eligible,
    Ineligible(String),
}

/// The learning episode of a terminal task, as decided from the task:
/// its disposition, the position of its terminal audit event, and the
/// provenance and eligibility recorded.
#[derive(Debug, Clone)]
pub struct TerminalEpisode {
    pub disposition: TerminalDisposition,
    pub terminal_event: usize,
    pub source_attempt_id: Option<String>,
    pub source_fence: Option<u64>,
    pub assignment: AssignmentProvenance,
    pub provenance: TerminalProvenance,
    pub eligibility: SourceQuality,
}

pub open spec fn disposition_of(s: TaskStatus) -> Option<TerminalDisposition> {
    match s {
        TaskStatus::Done => Some(TerminalDisposition::Done),
        TaskStatus::Failed => Some(TerminalDisposition::Failed),
        TaskStatus::Abandoned => Some(TerminalDisposition::Abandoned),
        _ => None,
    }
}

/// The last audit event of this generation that entered a terminal state.
pub open spec fn last_terminal_event(audit: Seq<LifecycleEvent>, generation: u64) -> Option<int>
    decreases audit.len(),
{
    if audit.len() == 0 {
        None
    } else if audit.last().generation == generation && disposition_of(audit.last().new_state)
        is Some {
        Some(audit.len() - 1)
    } else {
        last_terminal_event(audit.drop_last(), generation)
    }
}

proof fn lemma_last_terminal_event(audit: Seq<LifecycleEvent>, generation: u64)
    ensures
        last_terminal_event(audit, generation) matches Some(k) ==> 0 <= k < audit.len()
            && audit[k].generation == generation && disposition_of(audit[k].new_state) is Some,
    decreases audit.len(),
{
    if audit.len() > 0 {
        lemma_last_terminal_event(audit.drop_last(), generation);
    }
}

pub open spec fn opt_str(o: Option<&str>) -> Option<Seq<char>> {
    match o {
        Some(s) => Some(s@),
        None => None,
    }
}

pub open spec fn no_terminal_event_text() -> Seq<char> {
    "terminal task has no terminal lifecycle event"@
}

/// The episode of a task with a terminal event: the source attempt is the
/// event's, else the task's current one, and its fence is the event's; the
/// assignment is the candidate's receipt, else (with an attempt) the BLAKE3
/// digest of the task id, else none; an operator acceptance, a completion
/// or a failure vouches for the end; only an ordinary completion is
/// eligible to teach source quality.
pub open spec fn episode_matches(
    e: TerminalEpisode,
    task_id: Seq<char>,
    status: TaskStatus,
    event: LifecycleEvent,
    current_attempt: Option<Seq<char>>,
    bound_receipt: Option<Seq<char>>,
    completion_receipt: Option<Seq<char>>,
    failure_reason: Option<Seq<char>>,
) -> bool {
    let source = match event.attempt_id {
        Some(a) => Some(a@),
        None => current_attempt,
    };
    let operator = event.reason_code@ == "operator_acceptance"@;
    let receipt = match completion_receipt {
        Some(r) => r,
        None => event.event_id@,
    };
    &&& Some(e.disposition) == disposition_of(status)
    &&& opt_view(e.source_attempt_id) == source
    &&& e.source_fence == if source is Some {
        Some(event.fence)
    } else {
        None
    }
    &&& match e.assignment {
        AssignmentProvenance::BoundReceipt(r) => bound_receipt == Some(r@),
        AssignmentProvenance::UnknownLegacy(d) => bound_receipt is None && source is Some && d@
            == "b3:"@ + hex_lower(blake3(vstd::utf8::encode_utf8(task_id))),
        AssignmentProvenance::NoAttempt => bound_receipt is None && source is None,
    }
    &&& match e.provenance {
        TerminalProvenance::OperatorAcceptance(r) => operator && r@ == receipt,
        TerminalProvenance::CompletionReceipt(r) => !operator && status == TaskStatus::Done && r@
            == receipt,
        TerminalProvenance::FailureEvent(r) => !operator && status != TaskStatus::Done && r@
            == event.event_id@,
    }
    &&& match e.eligibility {
        SourceQuality::Eligible => status == TaskStatus::Done && !operator,
        SourceQuality::Ineligible(why) => if operator {
            why@ == "operator-accepted completion is not ordinary publication truth"@
        } else {
            status != TaskStatus::Done && why@ == match failure_reason {
                Some(f) => f,
                None => "terminal disposition "@ + status_debug(status)
                    + " is not source-proven"@,
            }
        },
    }
}

fn terminal_event_of(audit: &Vec<LifecycleEvent>, generation: u64) -> (r: Option<usize>)
    ensures
        match r {
            Some(k) => last_terminal_event(audit@, generation) == Some(k as int),
            None => last_terminal_event(audit@, generation) is None,
        },
{
    let mut i: usize = audit.len();
    assert(audit@.take(i as int) =~= audit@);
    while i > 0
        invariant
            i <= audit.len(),
            last_terminal_event(audit@, generation) == last_terminal_event(
                audit@.take(i as int),
                generation,
            ),
        decreases i,
    {
        let ghost prefix = audit@.take(i as int);
        assert(prefix.last() == audit@[i - 1]);
        assert(prefix.drop_last() =~= audit@.take(i - 1));
        let e = &audit[i - 1];
        let terminal = match e.new_state {
            TaskStatus::Done | TaskStatus::Failed | TaskStatus::Abandoned => true,
            _ => false,
        };
        if e.generation == generation && terminal {
            return Some(i - 1);
        }
        i -= 1;
    }
    None
}

fn opt_owned(o: Option<&str>) -> (r: Option<String>)
    ensures
        opt_view(r) == opt_str(o),
{
    match o {
        Some(s) => Some(owned(s)),
        None => None,
    }
}

/// Projects a task into its learning episode: nothing unless the task is
/// done, failed or abandoned; an error when such a task has no terminal
/// event in its current generation.
pub fn terminal_episode(
    task_id: &str,
    status: TaskStatus,
    generation: u64,
    audit: &Vec<LifecycleEvent>,
    current_attempt: Option<&str>,
    bound_receipt: Option<&str>,
    completion_receipt: Option<&str>,
    failure_reason: Option<&str>,
) -> (r: Result<Option<TerminalEpisode>, String>)
    ensures
        disposition_of(status) is None ==> r == Ok::<Option<TerminalEpisode>, String>(None),
        disposition_of(status) is Some ==> match last_terminal_event(audit@, generation) {
            None => r matches Err(m) && m@ == no_terminal_event_text(),
            Some(k) => r matches Ok(Some(e)) && e.terminal_event == k && episode_matches(
                e,
                task_id@,
                status,
                audit@[k],
                opt_str(current_attempt),
                opt_str(bound_receipt),
                opt_str(completion_receipt),
                opt_str(failure_reason),
            ),
        },
{
    let disposition = match status {
        TaskStatus::Done => TerminalDisposition::Done,
        TaskStatus::Failed => TerminalDisposition::Failed,
        TaskStatus::Abandoned => TerminalDisposition::Abandoned,
        _ => {
            return Ok(None);
        },
    };
    let k = match terminal_event_of(audit, generation) {
        Some(k) => k,
        None => {
            return Err(owned("terminal task has no terminal lifecycle event"));
        },
    };
    proof {
        lemma_last_terminal_event(audit@, generation);
    }
    let event = &audit[k];
    let source_attempt_id = match &event.attempt_id {
        Some(a) => Some(owned(a.as_str())),
        None => opt_owned(current_attempt),
    };
    let source_fence = if source_attempt_id.is_some() {
        Some(event.fence)
    } else {
        None
    };
    let assignment = match bound_receipt {
        Some(b) => AssignmentProvenance::BoundReceipt(owned(b)),
        None => if source_attempt_id.is_some() {
            AssignmentProvenance::UnknownLegacy(b3_digest(task_id.as_bytes()))
        } else {
            AssignmentProvenance::NoAttempt
        },
    };
    let operator = str_eq(event.reason_code.as_str(), "operator_acceptance");
    let receipt = match completion_receipt {
        Some(c) => owned(c),
        None => owned(event.event_id.as_str()),
    };
    let is_done = match status {
        TaskStatus::Done => true,
        _ => false,
    };
    let provenance = if operator {
        TerminalProvenance::OperatorAcceptance(receipt)
    } else if is_done {
        TerminalProvenance::CompletionReceipt(receipt)
    } else {
        TerminalProvenance::FailureEvent(owned(event.event_id.as_str()))
    };
    let eligibility = if is_done && !operator {
        SourceQuality::Eligible
    } else if operator {
        SourceQuality::Ineligible(
            owned("operator-accepted completion is not ordinary publication truth"),
        )
    } else {
        match failure_reason {
            Some(f) => SourceQuality::Ineligible(owned(f)),
            None => {
                let mut why = owned("terminal disposition ");
                why.append(status_debug_name(status));
                why.append(" is not source-proven");
                SourceQuality::Ineligible(why)
            },
        }
    };
    Ok(
        Some(
            TerminalEpisode {
                disposition,
                terminal_event: k,
                source_attempt_id,
                source_fence,
                assignment,
                provenance,
                eligibility,
            },
        ),
    )
}

// ---------------------------------------------------------------------------
// Showing one review attempt
// ---------------------------------------------------------------------------

/// The provider usage of a review attempt; `cost` is the provider cost
/// already rendered to six decimal places, when reported.
#[derive(Debug, Clone)]
pub struct ReviewUsage {
    pub input_tokens: u64,
    pub output_tokens: u64,
    pub cache_read_tokens: u64,
    pub cache_write_tokens: u64,
    pub cost: Option<String>,
}

/// A finding of a review: its code and message.
#[derive(Debug, Clone)]
pub struct ReviewFindingText {
    pub code: String,
    pub message: String,
}

/// What `wg reviews show` reports of one review attempt.
#[derive(Debug, Clone)]
pub struct ReviewShow {
    pub alias: String,
    pub attempt_id: String,
    pub ordinal: u64,
    pub run_id: String,
    pub source_task_id: String,
    pub source_generation: u64,
    pub source_attempt_id: String,
    pub source_fence: u64,
    pub candidate_sequence: u64,
    pub exact_route: String,
    pub reasoning: Option<String>,
    pub adapter: String,
    pub adapter_version: String,
    pub route_generation: u64,
    /// The outcome, as debug text.
    pub outcome: String,
    pub current_candidate: bool,
    pub consumed: bool,
    pub usage: Option<ReviewUsage>,
    pub findings_digest: Option<String>,
    pub findings: Vec<ReviewFindingText>,
    pub receipt_digest: Option<String>,
}

/// A review attempt's names: its alias, attempt id and run id.
#[derive(Debug, Clone)]
pub struct ReviewNames {
    pub alias: String,
    pub attempt_id: String,
    pub run_id: String,
}

pub open spec fn names_target(n: ReviewNames, target: Seq<char>) -> bool {
    n.alias@ == target || n.attempt_id@ == target || n.run_id@ == target
}

/// The first attempt that a target names, by alias, attempt id or run id.
pub fn find_review(attempts: &Vec<ReviewNames>, target: &str) -> (r: Option<usize>)
    ensures
        match r {
            Some(i) => i < attempts@.len() && names_target(attempts@[i as int], target@) && forall|
                k: int,
            | 0 <= k < i ==> !names_target(#[trigger] attempts@[k], target@),
            None => forall|k: int|
                0 <= k < attempts@.len() ==> !names_target(#[trigger] attempts@[k], target@),
        },
{
    let mut i: usize = 0;
    while i < attempts.len()
        invariant
            i <= attempts@.len(),
            forall|k: int| 0 <= k < i ==> !names_target(#[trigger] attempts@[k], target@),
        decreases attempts@.len() - i,
    {
        let a = &attempts[i];
        if str_eq(a.alias.as_str(), target) || str_eq(a.attempt_id.as_str(), target) || str_eq(
            a.run_id.as_str(),
            target,
        ) {
            return Some(i);
        }
        i += 1;
    }
    None
}

pub open spec fn or_text(o: Option<String>, fallback: Seq<char>) -> Seq<char> {
    match o {
        Some(v) => v@,
        None => fallback,
    }
}

/// One finding as listed: its code and at most the first 400 characters of
/// its message.
pub open spec fn finding_line(f: ReviewFindingText) -> Seq<char> {
    "  - "@ + f.code@ + ": "@ + f.message@.take(
        if f.message@.len() < 400 {
            f.message@.len() as int
        } else {
            400
        },
    )
}

/// The findings listed: at most the first 32.
pub open spec fn finding_lines(fs: Seq<ReviewFindingText>) -> Seq<Seq<char>> {
    fs.take(
        if fs.len() < 32 {
            fs.len() as int
        } else {
            32
        },
    ).map_values(|f: ReviewFindingText| finding_line(f))
}

pub open spec fn usage_line(u: Option<ReviewUsage>) -> Seq<char> {
    match u {
        Some(x) => "Provider usage: in="@ + decimal(x.input_tokens as nat) + " out="@ + decimal(
            x.output_tokens as nat,
        ) + " cache-read="@ + decimal(x.cache_read_tokens as nat) + " cache-write="@ + decimal(
            x.cache_write_tokens as nat,
        ) + " cost="@ + match x.cost {
            Some(c) => "$"@ + c@,
            None => "unknown"@,
        },
        None => "Provider usage: unavailable; cost=unknown"@,
    }
}

/// The text lines of `wg reviews show`.
pub open spec fn review_show_text(r: ReviewShow) -> Seq<Seq<char>> {
    seq![
        "VIRTUAL REVIEW — not a graph task; no status, edge, worker slot, or lifecycle authority"@,
        "Alias: "@ + r.alias@,
        "Attempt: "@ + r.attempt_id@ + " ordinal="@ + decimal(r.ordinal as nat),
        "Run: "@ + r.run_id@,
        "Source: "@ + r.source_task_id@ + " generation="@ + decimal(r.source_generation as nat)
            + " attempt="@ + r.source_attempt_id@ + " fence="@ + decimal(r.source_fence as nat)
            + " candidate="@ + decimal(r.candidate_sequence as nat),
        "Route: "@ + r.exact_route@ + " reasoning="@ + or_text(r.reasoning, "unset"@) + " adapter="@
            + r.adapter@ + "@"@ + r.adapter_version@ + " generation="@ + decimal(
            r.route_generation as nat,
        ),
        "Outcome: "@ + r.outcome@,
        "Candidate: "@ + if r.current_candidate {
            "current"@
        } else {
            "superseded"@
        },
        "Consumed: "@ + if r.consumed {
            "true"@
        } else {
            "false"@
        },
        usage_line(r.usage),
        "Findings digest: "@ + or_text(r.findings_digest, "none"@),
    ] + (if r.findings@.len() == 0 {
        seq!["Findings: none or unavailable"@]
    } else {
        seq!["Findings (bounded immutable projection):"@] + finding_lines(r.findings@)
    }) + seq!["Receipt: "@ + or_text(r.receipt_digest, "pending"@)]
}

fn push_show(out: &mut Vec<String>, line: String)
    ensures
        views(final(out)@) == views(old(out)@).push(line@),
{
    let ghost before = out@;
    out.push(line);
    proof {
        crate::archive::lemma_views_push(before, line);
    }
}

fn text_or(o: &Option<String>, fallback: &str) -> (r: String)
    ensures
        r@ == or_text(*o, fallback@),
{
    match o {
        Some(v) => owned(v.as_str()),
        None => owned(fallback),
    }
}

fn with_prefix(prefix: &str, value: &str) -> (l: String)
    ensures
        l@ == prefix@ + value@,
{
    let mut l = owned(prefix);
    l.append(value);
    l
}

fn usage_line_of(u: &Option<ReviewUsage>) -> (l: String)
    ensures
        l@ == usage_line(*u),
{
    match u {
        Some(x) => {
            let mut l = owned("Provider usage: in=");
            push_decimal(&mut l, x.input_tokens);
            l.append(" out=");
            push_decimal(&mut l, x.output_tokens);
            l.append(" cache-read=");
            push_decimal(&mut l, x.cache_read_tokens);
            l.append(" cache-write=");
            push_decimal(&mut l, x.cache_write_tokens);
            l.append(" cost=");
            match &x.cost {
                Some(c) => {
                    l.append("$");
                    l.append(c.as_str());
                },
                None => l.append("unknown"),
            }
            l
        },
        None => owned("Provider usage: unavailable; cost=unknown"),
    }
}

/// The first `n` characters of `s`.
fn char_prefix(s: &str, n: usize) -> (r: String)
    ensures
        r@ == s@.take(if s@.len() < n { s@.len() as int } else { n as int }),
{
    let v = chars_of(s);
    let end = if v.len() < n {
        v.len()
    } else {
        n
    };
    let r = crate::text::string_of_range(&v, 0, end);
    assert(v@.subrange(0, end as int) =~= s@.take(end as int));
    r
}

fn finding_line_of(f: &ReviewFindingText) -> (l: String)
    ensures
        l@ == finding_line(*f),
{
    let mut l = owned("  - ");
    l.append(f.code.as_str());
    l.append(": ");
    let m = char_prefix(f.message.as_str(), 400);
    l.append(m.as_str());
    l
}

fn push_review_header(out: &mut Vec<String>, r: &ReviewShow)
    ensures
        views(final(out)@) == views(old(out)@) + review_show_text(*r).take(7),
{
    push_show(
        out,
        owned(
            "VIRTUAL REVIEW — not a graph task; no status, edge, worker slot, or lifecycle authority",
        ),
    );
    push_show(out, with_prefix("Alias: ", r.alias.as_str()));
    let mut a = with_prefix("Attempt: ", r.attempt_id.as_str());
    a.append(" ordinal=");
    push_decimal(&mut a, r.ordinal);
    push_show(out, a);
    push_show(out, with_prefix("Run: ", r.run_id.as_str()));
    let mut src = with_prefix("Source: ", r.source_task_id.as_str());
    src.append(" generation=");
    push_decimal(&mut src, r.source_generation);
    src.append(" attempt=");
    src.append(r.source_attempt_id.as_str());
    src.append(" fence=");
    push_decimal(&mut src, r.source_fence);
    src.append(" candidate=");
    push_decimal(&mut src, r.candidate_sequence);
    push_show(out, src);
    let mut route = with_prefix("Route: ", r.exact_route.as_str());
    route.append(" reasoning=");
    let reasoning = text_or(&r.reasoning, "unset");
    route.append(reasoning.as_str());
    route.append(" adapter=");
    route.append(r.adapter.as_str());
    route.append("@");
    route.append(r.adapter_version.as_str());
    route.append(" generation=");
    push_decimal(&mut route, r.route_generation);
    push_show(out, route);
    push_show(out, with_prefix("Outcome: ", r.outcome.as_str()));
    assert(views(out@) =~= views(old(out)@) + review_show_text(*r).take(7));
}

/// The lines `wg reviews show` prints for one attempt.
pub fn review_show_lines(r: &ReviewShow) -> (lines: Vec<String>)
    ensures
        views(lines@) == review_show_text(*r),
{
    let mut lines: Vec<String> = Vec::new();
    push_review_header(&mut lines, r);
    let ghost head = views(lines@);
    push_show(
        &mut lines,
        with_prefix(
            "Candidate: ",
            if r.current_candidate {
                "current"
            } else {
                "superseded"
            },
        ),
    );
    push_show(
        &mut lines,
        with_prefix(
            "Consumed: ",
            if r.consumed {
                "true"
            } else {
                "false"
            },
        ),
    );
    push_show(&mut lines, usage_line_of(&r.usage));
    let digest = text_or(&r.findings_digest, "none");
    push_show(&mut lines, with_prefix("Findings digest: ", digest.as_str()));
    let ghost upto = views(lines@);
    assert(upto =~= review_show_text(*r).take(11));
    if r.findings.len() == 0 {
        push_show(&mut lines, owned("Findings: none or unavailable"));
    } else {
        push_show(&mut lines, owned("Findings (bounded immutable projection):"));
        let ghost start = views(lines@);
        let n: usize = if r.findings.len() < 32 {
            r.findings.len()
        } else {
            32
        };
        let mut k: usize = 0;
        while k < n
            invariant
                k <= n <= r.findings@.len(),
                n == if r.findings@.len() < 32 {
                    r.findings@.len()
                } else {
                    32
                },
                views(lines@) == start + r.findings@.take(k as int).map_values(
                    |f: ReviewFindingText| finding_line(f),
                ),
            decreases n - k,
        {
            let l = finding_line_of(&r.findings[k]);
            push_show(&mut lines, l);
            assert(r.findings@.take(k + 1).map_values(|f: ReviewFindingText| finding_line(f))
                =~= r.findings@.take(k as int).map_values(|f: ReviewFindingText| finding_line(f)).push(
                finding_line(r.findings@[k as int]),
            ));
            k += 1;
        }
    }
    let receipt = text_or(&r.receipt_digest, "pending");
    push_show(&mut lines, with_prefix("Receipt: ", receipt.as_str()));
    assert(views(lines@) =~= review_show_text(*r));
    lines
}

// ---------------------------------------------------------------------------
// Showing a learning episode, and the backlog
// ---------------------------------------------------------------------------

/// A learning episode as the lookup reads it.
#[derive(Debug, Clone)]
pub struct EpisodeKey {
    pub episode_id: String,
    pub task_id: String,
    pub generation: u64,
}

pub open spec fn episode_named(e: EpisodeKey, target: Seq<char>) -> bool {
    e.episode_id@ == target || e.task_id@ == target
}

/// The episode a target names (by episode id or task id) with the greatest
/// generation; of equal generations, the last.
pub open spec fn is_selected_episode(es: Seq<EpisodeKey>, target: Seq<char>, i: int) -> bool {
    &&& 0 <= i < es.len()
    &&& episode_named(es[i], target)
    &&& forall|k: int|
        0 <= k < es.len() && episode_named(#[trigger] es[k], target) ==> es[k].generation
            <= es[i].generation
    &&& forall|k: int|
        i < k < es.len() && episode_named(#[trigger] es[k], target) ==> es[k].generation
            < es[i].generation
}

pub fn select_episode(episodes: &Vec<EpisodeKey>, target: &str) -> (r: Option<usize>)
    ensures
        match r {
            Some(i) => is_selected_episode(episodes@, target@, i as int),
            None => forall|k: int|
                0 <= k < episodes@.len() ==> !episode_named(#[trigger] episodes@[k], target@),
        },
{
    let mut best: Option<usize> = None;
    let mut i: usize = 0;
    while i < episodes.len()
        invariant
            i <= episodes@.len(),
            match best {
                Some(b) => b < i && episode_named(episodes@[b as int], target@) && (forall|k: int|
                    0 <= k < i && episode_named(#[trigger] episodes@[k], target@)
                        ==> episodes@[k].generation <= episodes@[b as int].generation) && (forall|
                    k: int,
                |
                    b < k < i && episode_named(#[trigger] episodes@[k], target@)
                        ==> episodes@[k].generation < episodes@[b as int].generation),
                None => forall|k: int|
                    0 <= k < i ==> !episode_named(#[trigger] episodes@[k], target@),
            },
        decreases episodes@.len() - i,
    {
        let e = &episodes[i];
        if str_eq(e.episode_id.as_str(), target) || str_eq(e.task_id.as_str(), target) {
            match best {
                Some(b) => {
                    if e.generation >= episodes[b].generation {
                        best = Some(i);
                    }
                },
                None => {
                    best = Some(i);
                },
            }
        }
        i += 1;
    }
    best
}

/// A lookup that finds no episode projects the task first, unless the
/// target is a digest.
pub fn projects_on_miss(target: &str) -> (b: bool)
    ensures
        b == !crate::text::starts_with(target@, "b3:"@),
{
    !crate::text::str_starts_with(target, "b3:")
}

/// The delayed reward of an episode: the reward rendered to three decimal
/// places, its receipt and outcome, and the evolution manifest that
/// projected it, if one did.
#[derive(Debug, Clone)]
pub struct RewardShow {
    pub reward: String,
    pub receipt: String,
    pub outcome: String,
    pub manifest: Option<String>,
}

/// What `wg learning show` reports of an episode. The disposition and the
/// source quality are debug text.
#[derive(Debug, Clone)]
pub struct LearningShow {
    pub episode_id: String,
    pub task_id: String,
    pub generation: u64,
    pub disposition: String,
    pub candidates: u64,
    pub passes: u64,
    pub rejects: u64,
    pub infrastructure_attempts: u64,
    pub source_quality: String,
    pub reward: Option<RewardShow>,
    pub policy: String,
}

pub open spec fn learning_show_text(l: LearningShow) -> Seq<Seq<char>> {
    seq![
        "Learning episode: "@ + l.episode_id@,
        "Terminal generation observation: task="@ + l.task_id@ + " generation="@ + decimal(
            l.generation as nat,
        ) + " disposition="@ + l.disposition@,
        "Trajectory: candidates="@ + decimal(l.candidates as nat) + " semantic-pass="@ + decimal(
            l.passes as nat,
        ) + " semantic-reject="@ + decimal(l.rejects as nat) + " infrastructure-attempts="@
            + decimal(l.infrastructure_attempts as nat),
        "Source quality: "@ + l.source_quality@,
    ] + match l.reward {
        Some(r) => seq![
            "Delayed assignment reward: "@ + r.reward@ + " receipt="@ + r.receipt@ + " outcome="@
                + r.outcome@,
            "Evolver input: projected="@ + (if r.manifest is Some {
                "true"@
            } else {
                "false"@
            }) + " manifest="@ + or_text(r.manifest, "pending"@),
        ],
        None => seq![
            "Delayed assignment reward: pending/unscored independent outcome"@,
            "Evolver input: pending"@,
        ],
    } + seq!["Policy: "@ + l.policy@ + " (one episode per terminal generation)"@]
}

/// The lines `wg learning show` prints.
pub fn learning_show_lines(l: &LearningShow) -> (lines: Vec<String>)
    ensures
        views(lines@) == learning_show_text(*l),
{
    let mut lines: Vec<String> = Vec::new();
    push_show(&mut lines, with_prefix("Learning episode: ", l.episode_id.as_str()));
    let mut t = with_prefix("Terminal generation observation: task=", l.task_id.as_str());
    t.append(" generation=");
    push_decimal(&mut t, l.generation);
    t.append(" disposition=");
    t.append(l.disposition.as_str());
    push_show(&mut lines, t);
    let mut tr = owned("Trajectory: candidates=");
    push_decimal(&mut tr, l.candidates);
    tr.append(" semantic-pass=");
    push_decimal(&mut tr, l.passes);
    tr.append(" semantic-reject=");
    push_decimal(&mut tr, l.rejects);
    tr.append(" infrastructure-attempts=");
    push_decimal(&mut tr, l.infrastructure_attempts);
    push_show(&mut lines, tr);
    push_show(&mut lines, with_prefix("Source quality: ", l.source_quality.as_str()));
    let ghost head = views(lines@);
    match &l.reward {
        Some(r) => {
            let mut a = with_prefix("Delayed assignment reward: ", r.reward.as_str());
            a.append(" receipt=");
            a.append(r.receipt.as_str());
            a.append(" outcome=");
            a.append(r.outcome.as_str());
            push_show(&mut lines, a);
            let mut b = with_prefix(
                "Evolver input: projected=",
                if r.manifest.is_some() {
                    "true"
                } else {
                    "false"
                },
            );
            b.append(" manifest=");
            let m = text_or(&r.manifest, "pending");
            b.append(m.as_str());
            push_show(&mut lines, b);
        },
        None => {
            push_show(&mut lines, owned("Delayed assignment reward: pending/unscored independent outcome"));
            push_show(&mut lines, owned("Evolver input: pending"));
        },
    }
    let mut p = with_prefix("Policy: ", l.policy.as_str());
    p.append(" (one episode per terminal generation)");
    push_show(&mut lines, p);
    assert(views(lines@) =~= learning_show_text(*l));
    lines
}

/// The lines `wg learning backlog` prints.
pub fn backlog_lines(expired_unsettled: u64, invalid_objects: u64) -> (lines: Vec<String>)
    ensures
        views(lines@) == seq![
            "Adaptive learning backlog:"@,
            "  expired/unsettled review attempts: "@ + decimal(expired_unsettled as nat),
            "  invalid canonical objects: "@ + decimal(invalid_objects as nat),
            "  projector failures never change terminal source lifecycle"@,
        ],
{
    let mut lines: Vec<String> = Vec::new();
    push_show(&mut lines, owned("Adaptive learning backlog:"));
    let mut a = owned("  expired/unsettled review attempts: ");
    push_decimal(&mut a, expired_unsettled);
    push_show(&mut lines, a);
    let mut b = owned("  invalid canonical objects: ");
    push_decimal(&mut b, invalid_objects);
    push_show(&mut lines, b);
    push_show(&mut lines, owned("  projector failures never change terminal source lifecycle"));
    assert(views(lines@) =~= seq![
        "Adaptive learning backlog:"@,
        "  expired/unsettled review attempts: "@ + decimal(expired_unsettled as nat),
        "  invalid canonical objects: "@ + decimal(invalid_objects as nat),
        "  projector failures never change terminal source lifecycle"@,
    ]);
    lines
}

// ---------------------------------------------------------------------------
// The next attempt's assignment
// ---------------------------------------------------------------------------

/// The id and fence of a task's next attempt: `attempt-<generation>-<n>`
/// with `n` one past the attempt sequence, and the fence one past the
/// current one (both saturating).
pub fn next_attempt(generation: u64, attempt_sequence: u64, fence: u64) -> (r: (String, u64))
    ensures
        r.0@ == "attempt-"@ + decimal(generation as nat) + "-"@ + decimal(
            (if attempt_sequence == u64::MAX {
                attempt_sequence as nat
            } else {
                (attempt_sequence + 1) as nat
            }),
        ),
        r.1 == if fence == u64::MAX {
            fence
        } else {
            (fence + 1) as u64
        },
{
    let mut id = owned("attempt-");
    push_decimal(&mut id, generation);
    id.append("-");
    push_decimal(&mut id, attempt_sequence.saturating_add(1));
    (id, fence.saturating_add(1))
}

/// Where the next attempt's assignment comes from.
#[derive(Debug, Clone)]
pub enum AssignmentSource {
    /// The recorded intent, which still matches the task's agent.
    Intent,
    /// No usable composition: the reason recorded.
    Uncomposed(String),
    /// The task's explicitly set agent.
    Explicit(String),
}

pub open spec fn intent_matches(intent_agent: Option<Seq<char>>, task_agent: Option<Seq<char>>) -> bool {
    intent_agent == task_agent
}

/// A recorded intent is used when its composition's agent is the task's
/// (or neither has one); a stale intent, or no intent and no agent, leaves
/// the attempt uncomposed; without an intent, the task's agent is taken.
/// `intent` is `Some(agent of the intent's composition)` when an intent was
/// recorded.
pub fn assignment_source(intent: Option<Option<&str>>, task_agent: Option<&str>) -> (s:
    AssignmentSource)
    ensures
        match intent {
            Some(ia) => if intent_matches(opt_str(ia), opt_str(task_agent)) {
                s is Intent
            } else {
                s matches AssignmentSource::Uncomposed(r) && r@
                    == "assignment intent no longer matches the admitted task"@
            },
            None => match task_agent {
                Some(a) => s matches AssignmentSource::Explicit(x) && x@ == a@,
                None => s matches AssignmentSource::Uncomposed(r) && r@
                    == "direct dispatch without agency composition"@,
            },
        },
{
    match intent {
        Some(ia) => {
            let same = match (ia, task_agent) {
                (Some(x), Some(y)) => str_eq(x, y),
                (None, None) => true,
                _ => false,
            };
            if same {
                AssignmentSource::Intent
            } else {
                AssignmentSource::Uncomposed(
                    owned("assignment intent no longer matches the admitted task"),
                )
            }
        },
        None => match task_agent {
            Some(a) => AssignmentSource::Explicit(owned(a)),
            None => AssignmentSource::Uncomposed(owned("direct dispatch without agency composition")),
        },
    }
}

// ---------------------------------------------------------------------------
// Laws
// ---------------------------------------------------------------------------

proof fn lemma_lane_max_bounds(attempts: Seq<RouteAttempt>, kind: ReviewerKind)
    ensures
        forall|k: int|
            0 <= k < attempts.len() && same_lane(#[trigger] attempts[k], kind) ==> (
            lane_max_generation(attempts, kind) matches Some(m) && attempts[k].route_generation <= m),
    decreases attempts.len(),
{
    if attempts.len() > 0 {
        let d = attempts.drop_last();
        lemma_lane_max_bounds(d, kind);
        assert forall|k: int|
            0 <= k < attempts.len() && same_lane(#[trigger] attempts[k], kind) implies (
            lane_max_generation(attempts, kind) matches Some(m) && attempts[k].route_generation
                <= m) by {
            if k < attempts.len() - 1 {
                assert(attempts[k] == d[k]);
            }
        }
    }
}

/// A new route of a lane gets a generation above every earlier attempt of
/// that lane (short of the top generation); a route used before keeps the
/// generation it had.
pub proof fn law_route_generations_advance(
    attempts: Seq<RouteAttempt>,
    kind: ReviewerKind,
    route: Seq<char>,
    reasoning: Option<Seq<char>>,
)
    ensures
        first_same_route(attempts, kind, route, reasoning) matches Some(i) ==> route_generation_spec(
            attempts,
            kind,
            route,
            reasoning,
        ) == attempts[i].route_generation,
        (first_same_route(attempts, kind, route, reasoning) is None && (lane_max_generation(
            attempts,
            kind,
        ) matches Some(m) && m < u64::MAX)) ==> forall|k: int|
            0 <= k < attempts.len() && same_lane(#[trigger] attempts[k], kind)
                ==> attempts[k].route_generation < route_generation_spec(
                attempts,
                kind,
                route,
                reasoning,
            ),
{
    lemma_lane_max_bounds(attempts, kind);
}

} // verus!
