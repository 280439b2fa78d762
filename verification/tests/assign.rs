use wg_commands::assign::{agent_pool_gate, provider_configured, provider_refusal, ProviderReply};
use wg_commands::assign::{
    agent_type_for_role, apply_caps, cap_warning, clear_message, no_agent_message, run,
    AssignAction, CapCandidate, CapRule,
};

fn cand(id: &str, role: Option<(&str, usize)>) -> CapCandidate {
    CapCandidate { short_id: id.to_string(), role: role.map(|(n, c)| (n.to_string(), c)) }
}

#[test]
fn test_assign_no_args_fails() {
    let e = run(true, None, false, false).unwrap_err();
    assert!(e.starts_with("Usage: wg assign <task-id> <agent-hash>"));
    assert_eq!(run(false, Some("abc"), false, false).unwrap_err(), "WG not initialized. Run 'wg init' first.");
}

#[test]
fn test_assign_clear() {
    assert!(matches!(run(true, Some("abc"), true, true), Ok(AssignAction::Clear)));
    assert_eq!(clear_message("t1", true), "Cleared agent from task 't1'");
}

#[test]
fn test_clear_no_agent_is_noop() {
    assert_eq!(clear_message("t1", false), "Task 't1' had no agent assigned (no change)");
}

#[test]
fn test_assign_explicit_agent_hash() {
    match run(true, Some("deadbeef"), false, false) {
        Ok(AssignAction::Explicit(h)) => assert_eq!(h, "deadbeef"),
        other => panic!("unexpected {other:?}"),
    }
    assert!(matches!(run(true, Some("deadbeef"), false, true), Ok(AssignAction::Auto)));
}

#[test]
fn test_assign_nonexistent_agent() {
    assert_eq!(
        no_agent_message("zzz", &vec![]),
        "No agent matching 'zzz'. No agents defined. Use 'wg agent create' to create one."
    );
    assert_eq!(
        no_agent_message("zzz", &vec!["a1 (Dev)".into(), "b2 (Ops)".into()]),
        "No agent matching 'zzz'. Available agents: a1 (Dev), b2 (Ops)"
    );
}

#[test]
fn agent_types_follow_well_known_role_names() {
    assert_eq!(agent_type_for_role("Assigner"), "assigner");
    assert_eq!(agent_type_for_role("Evaluator"), "evaluator");
    assert_eq!(agent_type_for_role("Evolver"), "evolver");
    assert_eq!(agent_type_for_role("Agent Creator"), "agent_creator");
    assert_eq!(agent_type_for_role("AgentCreator"), "agent_creator");
    assert_eq!(agent_type_for_role("Programmer"), "task");
}

#[test]
fn caps_drop_oversized_roles_but_never_empty_the_pool() {
    let rules = vec![CapRule { agent_type: "task".into(), max_role_components: Some(3) }];
    let pool = vec![
        cand("a1", Some(("Programmer", 2))),
        cand("b2", Some(("Architect", 5))),
        cand("c3", None),
        cand("d4", Some(("Evaluator", 9))),
    ];
    let o = apply_caps(&rules, &pool);
    assert_eq!(o.kept, vec![0, 2, 3]);
    assert_eq!(o.dropped, vec!["b2 (role 'Architect' has 5 components > cap 3)".to_string()]);
    assert!(!o.fell_back);
    assert_eq!(
        cap_warning(&o).as_deref(),
        Some("[assign] composition-rules cap dropped 1 agent(s): b2 (role 'Architect' has 5 components > cap 3)")
    );

    let all_big = vec![cand("b2", Some(("Architect", 5))), cand("e5", Some(("Writer", 4)))];
    let o = apply_caps(&rules, &all_big);
    assert!(o.fell_back);
    assert_eq!(o.kept, vec![0, 1]);
    assert_eq!(
        cap_warning(&o).as_deref(),
        Some("Warning: composition-rules cap would block every candidate agent (2 dropped: b2 (role 'Architect' has 5 components > cap 3), e5 (role 'Writer' has 4 components > cap 3)). Falling back to unfiltered pool.")
    );
    let none = apply_caps(&rules, &vec![]);
    assert!(none.kept.is_empty() && !none.fell_back);
    assert_eq!(cap_warning(&none), None);
}

#[test]
fn auto_assign_refuses_before_ranking() {
    assert!(provider_configured(Some("agency"), true));
    assert!(!provider_configured(Some("agency"), false));
    assert!(!provider_configured(Some("native"), true));
    assert!(!provider_configured(None, true));

    let r = provider_refusal(&ProviderReply::Answered { agency_task_id: "at-7".to_string() });
    assert_eq!(r.class, "malformed_or_unbound_output");
    assert_eq!(r.intent_message, "provider returned agency_task_id=at-7 but no receipt-bound composition");
    assert_eq!(
        r.error,
        "error[WG-ASSIGNMENT-PROVIDER-UNCOMPOSED]: provider returned agency_task_id=at-7 but no receipt-bound composition; no identity or route was fabricated. Explicit fallback policy is direct-uncomposed dispatch on the next claim"
    );
    let r = provider_refusal(&ProviderReply::Failed { error: "connection refused".to_string() });
    assert_eq!(r.class, "provider_unavailable");
    assert_eq!(r.intent_message, "connection refused");
    assert!(r.error.starts_with("error[WG-ASSIGNMENT-PROVIDER-UNAVAILABLE]: configured assignment provider failed"));
    assert!(r.error.ends_with("next claim: connection refused"));

    assert!(agent_pool_gate(2).is_ok());
    let e = agent_pool_gate(0).unwrap_err();
    assert_eq!(e.class, "no_eligible_composition");
    assert_eq!(e.intent_message, "no agents available for deterministic ranking");
    assert!(e.error.starts_with("No agents available for deterministic automatic assignment."));
}
