use wg_commands::agency_import::{dry_run_line, import_report_lines, run_from_bytes_with, saved_provenance, unknown_type_warning};
use wg_commands::agency_import::{run_from_bytes, run_from_table};
use wg_commands::agency_import::{
    build_manifest, detect_format, fetch_failure, format_collision_warning, format_strict_error,
    import_row, manifest_path, parse_agency_columns, parse_legacy_columns,
    parse_parent_ids_column, plan_import, primitive_kind, pull_decision, pull_decision_for_bytes,
    read_csv_table,
    resolve_import_source, success_criteria, tradeoff_lists, CollisionOrigin, CsvFormat,
    DiskOwner, ImportCounts, ImportOptions, ImportRequestError, ImportRow, ImportSource,
    PrimitiveKind, PullDecision,
};

fn strings(v: &[&str]) -> Vec<String> {
    v.iter().map(|s| s.to_string()).collect()
}

const AGENCY_HEADER: &str =
    "type,name,description,quality,domain_specificity,domain,origin_instance_id,parent_content_hash,scope";

/// Rows of a CSV as the planner sees them, every row hashed to `hash`.
fn rows_of(csv: &str, hash: &str, on_disk: Option<DiskOwner>) -> Vec<ImportRow> {
    let table = read_csv_table(csv.as_bytes()).expect("header");
    assert!(table.complete);
    let format = detect_format(&table.headers);
    table
        .records
        .iter()
        .map(|r| import_row(format, r, hash.to_string(), on_disk.clone()))
        .collect()
}

#[test]
fn test_detect_format_agency() {
    let header = strings(&[
        "type",
        "name",
        "description",
        "quality",
        "domain_specificity",
        "domain",
        "origin_instance_id",
        "parent_content_hash",
        "scope",
    ]);
    assert_eq!(detect_format(&header), CsvFormat::Agency);
}

#[test]
fn test_detect_format_legacy() {
    let header = strings(&[
        "type",
        "name",
        "description",
        "col4",
        "col5",
        "domain_tags",
        "quality_score",
    ]);
    assert_eq!(detect_format(&header), CsvFormat::Legacy);
}

#[test]
fn detect_format_reads_the_fourth_header_without_case() {
    assert_eq!(detect_format(&strings(&["type", "name", "description", " Quality "])), CsvFormat::Agency);
    assert_eq!(
        detect_format(&strings(&["type", "name", "description", "DOMAIN_SPECIFICITY"])),
        CsvFormat::Agency
    );
    assert_eq!(detect_format(&strings(&["type", "name", "description"])), CsvFormat::Legacy);
}

#[test]
fn test_agency_import_per_scope_variant_collision() {
    let csv = format!(
        "{AGENCY_HEADER}\n\
         role_component,forward-compatible-deferral-spec,Deferral spec contents,80,high,management,inst-001,,task\n\
         role_component,forward-compatible-deferral-spec,Deferral spec contents,80,high,management,inst-001,,meta:assigner\n"
    );
    let rows = rows_of(&csv, "0123456789abcdef0123", None);
    let plan = plan_import(&rows, false, false);
    assert_eq!(plan.counts.role_components, 1);
    assert_eq!(plan.counts.skipped, 1);
    assert_eq!(plan.saves, vec![0]);
    assert_eq!(plan.collisions.len(), 1);
    let coll = &plan.collisions[0];
    assert_eq!(coll.kind, "component");
    assert_eq!(coll.kept_name, "forward-compatible-deferral-spec");
    assert_eq!(coll.dropped_name, "forward-compatible-deferral-spec");
    assert_eq!(coll.kept_scope.as_deref(), Some("task"));
    assert_eq!(coll.dropped_scope.as_deref(), Some("meta:assigner"));
    assert_eq!(coll.origin, CollisionOrigin::SameImport);
    assert!(plan.stopped.is_none());

    let strict = plan_import(&rows, false, true);
    let stop = strict.stopped.expect("strict import stops");
    let msg = format_strict_error(&stop, "0123456789ab");
    assert!(msg.contains("--strict"), "{msg}");
    assert!(msg.contains("forward-compatible-deferral-spec"));
    assert_eq!(
        msg,
        "agency import --strict: row 2 component 'forward-compatible-deferral-spec' (scope=meta:assigner) \
         collides on description-hash 0123456789ab with 'forward-compatible-deferral-spec' (scope=task)"
    );

    // The strict run writes no manifest; the lenient one does.
    let table = read_csv_table(csv.as_bytes()).unwrap();
    let ids = vec!["0123456789abcdef0123".to_string(); 2];
    let owners = vec![None, None];
    assert!(!run_from_table(&table, &ids, &owners, false, true).writes_manifest);
    assert!(run_from_table(&table, &ids, &owners, false, false).writes_manifest);
    assert!(!run_from_table(&table, &ids, &owners, true, false).writes_manifest);
}

#[test]
fn test_agency_import_same_description_name_collision_with_existing() {
    let seed = format!(
        "{AGENCY_HEADER}\n\
         role_component,adapt-research-synthesis-for-non-domain-audience,Identical description text,90,high,research,inst-seed,,task\n"
    );
    let seeded = plan_import(&rows_of(&seed, "feedface00112233", None), false, false);
    assert_eq!(seeded.counts.role_components, 1);
    assert!(seeded.collisions.is_empty());

    let upstream = format!(
        "{AGENCY_HEADER}\n\
         role_component,identify-write-up-audience-and-adapt,Identical description text,80,medium,writing,inst-up,,task\n"
    );
    let owner = DiskOwner {
        name: Some("adapt-research-synthesis-for-non-domain-audience".to_string()),
        scope: Some("task".to_string()),
    };
    let rows = rows_of(&upstream, "feedface00112233", Some(owner));
    let plan = plan_import(&rows, false, false);
    assert_eq!(plan.counts.role_components, 0, "upstream row should be skipped, not saved");
    assert!(plan.saves.is_empty());
    assert_eq!(plan.collisions.len(), 1);
    let coll = &plan.collisions[0];
    assert_eq!(coll.origin, CollisionOrigin::Existing);
    assert_eq!(coll.kept_name, "adapt-research-synthesis-for-non-domain-audience");
    assert_eq!(coll.dropped_name, "identify-write-up-audience-and-adapt");

    let strict = plan_import(&rows, false, true);
    let msg = format_strict_error(&strict.stopped.expect("stops"), "feedface0011");
    assert!(msg.contains("--strict"), "{msg}");
}

#[test]
fn plan_counts_each_kind_and_skips_unknown_types() {
    let csv = format!(
        "{AGENCY_HEADER}\n\
         role_component,Identify Gaps,Find gaps,80,high,research,inst-001,,task\n\
         desired_outcome,Working Code,Code compiles,90,low,engineering,inst-002,,\n\
         trade_off_config,Speed over polish,Ship quickly,70,medium,ops,inst-003,,\n\
         mystery,Whatever,Unknown,1,low,x,inst-004,,\n"
    );
    let table = read_csv_table(csv.as_bytes()).unwrap();
    let rows: Vec<ImportRow> = table
        .records
        .iter()
        .enumerate()
        .map(|(i, r)| import_row(CsvFormat::Agency, r, format!("hash-{i}"), None))
        .collect();
    let plan = plan_import(&rows, false, false);
    assert_eq!(plan.counts.role_components, 1);
    assert_eq!(plan.counts.desired_outcomes, 1);
    assert_eq!(plan.counts.trade_off_configs, 1);
    assert_eq!(plan.counts.skipped, 1);
    assert_eq!(plan.saves, vec![0, 1, 2]);
    let dry = plan_import(&rows, true, false);
    assert_eq!(dry.saves, vec![0, 1, 2]);
    assert_eq!(dry.counts.role_components, 1);
}

#[test]
fn same_name_on_disk_is_a_rewrite_not_a_collision() {
    let owner = DiskOwner { name: Some("Identify Gaps".to_string()), scope: Some("task".to_string()) };
    let row = ImportRow {
        kind: Some(PrimitiveKind::Component),
        name: "Identify Gaps".to_string(),
        scope: Some("task".to_string()),
        id: "abc".to_string(),
        on_disk: Some(owner),
    };
    let plan = plan_import(&vec![row], false, false);
    assert!(plan.collisions.is_empty());
    assert_eq!(plan.counts.role_components, 1);
    assert_eq!(plan.saves, vec![0]);
    let mut moved = rows_of(
        &format!("{AGENCY_HEADER}\nrole_component,Identify Gaps,d,1,1,x,i,,meta\n"),
        "abc",
        Some(DiskOwner { name: Some("Identify Gaps".to_string()), scope: Some("task".to_string()) }),
    );
    let plan = plan_import(&moved, false, false);
    assert_eq!(plan.collisions[0].origin, CollisionOrigin::Existing);
    assert_eq!(plan.collisions[0].kept_scope.as_deref(), Some("task"));
    // A dry run does not read the store, so it reports no collision with it.
    assert!(plan_import(&moved, true, false).collisions.is_empty());
    moved[0].on_disk = Some(DiskOwner { name: None, scope: None });
    assert_eq!(plan_import(&moved, false, false).collisions[0].kept_name, "<unknown>");
}

#[test]
fn collision_warning_names_both_rows() {
    let csv = format!(
        "{AGENCY_HEADER}\n\
         role_component,a,Same,80,high,d,i,,\n\
         role_component,b,Same,80,high,d,i,,task\n"
    );
    let plan = plan_import(&rows_of(&csv, "h", None), false, false);
    let w = format_collision_warning(&plan.collisions[0], "h");
    assert_eq!(
        w,
        "Warning: agency import collision (row 2): component 'b' (scope=task) shares description-hash h \
         with earlier row in this import 'a' (scope=<none>); skipping"
    );
}

#[test]
fn parse_columns_follow_each_layout() {
    let agency = strings(&[
        "role_component",
        "Identify Gaps",
        "Find what is missing",
        "85",
        "high",
        "research, analysis",
        "inst-009",
        "parenthash",
        "task",
        "[\"p1\", \"parenthash\"]",
        "3",
        "agent-7",
    ]);
    let c = parse_agency_columns(&agency);
    assert_eq!(c.quality_text, "85");
    assert_eq!(c.domain_tags, strings(&["research", "analysis"]));
    assert_eq!(c.parent_ids, strings(&["parenthash", "p1"]));
    assert_eq!(c.generation, 3);
    assert_eq!(c.created_by.as_deref(), Some("agent-7"));
    assert_eq!(c.metadata.scope.as_deref(), Some("task"));
    assert_eq!(c.metadata.domain_specificity.as_deref(), Some("high"));
    let legacy = strings(&["trade_off_config", "Speed", "Ship fast", "speed, scope", "polish", "rust, cli", "0.9"]);
    let l = parse_legacy_columns(&legacy);
    assert_eq!(l.quality_text, "0.9");
    assert_eq!(l.domain_tags, strings(&["rust", "cli"]));
    assert!(l.parent_ids.is_empty());
    assert!(l.metadata.scope.is_none());
    assert_eq!(success_criteria(CsvFormat::Agency, &agency), Vec::<String>::new());
    let (ok, not_ok) = tradeoff_lists(CsvFormat::Legacy, &legacy);
    assert_eq!(ok, strings(&["speed", "scope"]));
    assert_eq!(not_ok, strings(&["polish"]));
    let outcome = strings(&["desired_outcome", "Works", "It works", "", "compiles\n tests pass \n"]);
    assert_eq!(success_criteria(CsvFormat::Legacy, &outcome), strings(&["compiles", "tests pass"]));
}

#[test]
fn parent_ids_column_reads_json_or_commas() {
    assert_eq!(parse_parent_ids_column(""), Vec::<String>::new());
    assert_eq!(parse_parent_ids_column("a, b,,"), strings(&["a", "b"]));
    assert_eq!(parse_parent_ids_column("[\" x \", \"\", \"y\"]"), strings(&["x", "y"]));
}

#[test]
fn primitive_kinds_by_type_name() {
    assert_eq!(primitive_kind("role_component"), Some(PrimitiveKind::Component));
    assert_eq!(primitive_kind("desired_outcome"), Some(PrimitiveKind::Outcome));
    assert_eq!(primitive_kind("trade_off_config"), Some(PrimitiveKind::Tradeoff));
    assert_eq!(primitive_kind("component"), Some(PrimitiveKind::Component));
    assert_eq!(primitive_kind("skill"), Some(PrimitiveKind::Component));
    assert_eq!(primitive_kind("widget"), None);
    assert_eq!(PrimitiveKind::Tradeoff.name(), "tradeoff");
}

fn opts() -> ImportOptions {
    ImportOptions {
        csv_path: None,
        url: None,
        upstream: false,
        format: None,
        dry_run: false,
        tag: None,
        force: false,
        check: false,
        strict: false,
    }
}

#[test]
fn test_agency_pull_error_multiple_sources() {
    let mut o = opts();
    o.csv_path = Some("x.csv".into());
    o.url = Some("https://example.com/a.csv".into());
    let e = resolve_import_source(&o, None).unwrap_err();
    assert!(matches!(e, ImportRequestError::MultipleSources));
    assert!(e.message().contains("Specify only one of"));
}

#[test]
fn test_agency_pull_error_no_source() {
    let e = resolve_import_source(&opts(), None).unwrap_err();
    assert!(e.message().contains("Specify one of"));
}

#[test]
fn test_agency_pull_upstream_no_config() {
    let mut o = opts();
    o.upstream = true;
    let e = resolve_import_source(&o, None).unwrap_err();
    assert!(e.message().contains("No upstream URL configured"));
    match resolve_import_source(&o, Some("https://up/agency.csv")).unwrap() {
        ImportSource::Remote(u) => assert_eq!(u, "https://up/agency.csv"),
        other => panic!("unexpected {other:?}"),
    }
}

#[test]
fn unsupported_format_is_refused_first() {
    let mut o = opts();
    o.format = Some("yaml".into());
    o.csv_path = Some("a".into());
    o.url = Some("b".into());
    let e = resolve_import_source(&o, None).unwrap_err();
    assert_eq!(e.message(), "Unsupported agency import format 'yaml'. Use: agency-csv");
    let mut o = opts();
    o.csv_path = Some("local.csv".into());
    match resolve_import_source(&o, None).unwrap() {
        ImportSource::Local(p) => assert_eq!(p, "local.csv"),
        other => panic!("unexpected {other:?}"),
    }
}

#[test]
fn test_agency_pull_change_detection_same_hash() {
    let h = "aaaaaaaaaaaaaaaaaaaaaaaa";
    match pull_decision(false, false, Some(h), h) {
        PullDecision::UpToDate(m) => assert_eq!(m, "Already up to date (hash: aaaaaaaaaaaa…)"),
        other => panic!("unexpected {other:?}"),
    }
    match pull_decision(false, true, Some(h), h) {
        PullDecision::Exit { code, message } => {
            assert_eq!(code, 1);
            assert_eq!(message, "Up to date (hash: aaaaaaaaaaaa…)");
        }
        other => panic!("unexpected {other:?}"),
    }
    assert!(matches!(pull_decision(true, false, Some(h), h), PullDecision::Import));
}

#[test]
fn test_agency_pull_change_detection_different_hash() {
    let old = "111111111111111111";
    let new = "222222222222222222";
    assert!(matches!(pull_decision(false, false, Some(old), new), PullDecision::Import));
    match pull_decision(false, true, Some(old), new) {
        PullDecision::Exit { code, message } => {
            assert_eq!(code, 0);
            assert_eq!(message, "Upstream has changed (local: 111111111111… remote: 222222222222…)");
        }
        other => panic!("unexpected {other:?}"),
    }
    match pull_decision(false, true, None, new) {
        PullDecision::Exit { code, message } => {
            assert_eq!(code, 0);
            assert_eq!(message, "No previous import found; upstream available");
        }
        other => panic!("unexpected {other:?}"),
    }
}

#[test]
fn test_agency_pull_url_network_error_graceful() {
    let (w, exit2) = fetch_failure(false, false, "connection refused");
    assert_eq!(w.as_deref(), Some("Warning: could not fetch upstream CSV: connection refused"));
    assert!(!exit2);
    let (w, exit2) = fetch_failure(true, true, "timeout");
    assert_eq!(w.as_deref(), Some("Warning: could not fetch upstream: timeout"));
    assert!(exit2);
    assert_eq!(fetch_failure(false, true, "x"), (None, false));
}

#[test]
fn test_import_writes_manifest() {
    assert_eq!(manifest_path("/tmp/.wg"), "/tmp/.wg/agency/import-manifest.yaml");
    let counts = ImportCounts { role_components: 2, desired_outcomes: 1, trade_off_configs: 1, skipped: 0 };
    let m = build_manifest("agency.csv", "0.9.1", "1.2.4", "2026-01-01T00:00:00Z", &counts, b"abc");
    assert_eq!(m.source, "agency.csv");
    assert_eq!(m.version, "v0.9.1");
    assert_eq!(m.schema.as_deref(), Some("agency-12col-v1.2.4"));
    assert_eq!(m.agency_compat_version.as_deref(), Some("1.2.4"));
    assert_eq!(m.counts.role_components, 2);
    assert_eq!(m.content_hash, "ba7816bf8f01cfea414140de5dae2223b00361a396177a9cb410ff61f20015ad");
    let d = ImportCounts::default();
    assert_eq!(d.skipped, 0);
}

#[test]
fn csv_table_reports_the_header_and_rows() {
    let t = read_csv_table(b"a,b\n1,2\n3,4\n").unwrap();
    assert_eq!(t.headers, strings(&["a", "b"]));
    assert_eq!(t.records, vec![strings(&["1", "2"]), strings(&["3", "4"])]);
    assert!(t.complete);
}

#[test]
fn pull_decisions_hash_the_fetched_bytes() {
    let abc = "ba7816bf8f01cfea414140de5dae2223b00361a396177a9cb410ff61f20015ad";
    match pull_decision_for_bytes(false, false, Some(abc), b"abc") {
        Some(PullDecision::UpToDate(m)) => assert_eq!(m, "Already up to date (hash: ba7816bf8f01…)"),
        other => panic!("unexpected {other:?}"),
    }
    assert!(matches!(pull_decision_for_bytes(false, false, Some(abc), b"abd"), Some(PullDecision::Import)));
    match pull_decision_for_bytes(false, true, Some("0123456789abcdef"), b"abc") {
        Some(PullDecision::Exit { code, message }) => {
            assert_eq!(code, 0);
            assert_eq!(message, "Upstream has changed (local: 0123456789ab… remote: ba7816bf8f01…)");
        }
        other => panic!("unexpected {other:?}"),
    }
    assert!(pull_decision_for_bytes(false, true, Some("short"), b"abc").is_none());
}

#[test]
fn test_agency_import_parses_csv() {
    let csv = format!(
        "{AGENCY_HEADER}\n\
         role_component,Identify Gaps,Find gaps,80,high,research,inst-001,,task\n\
         desired_outcome,Working Code,Code compiles,90,low,engineering,inst-002,,\n\
         trade_off_config,Speed over polish,Ship quickly,70,medium,ops,inst-003,,\n"
    );
    let table = read_csv_table(csv.as_bytes()).unwrap();
    let ids: Vec<String> = (0..3).map(|i| format!("h{i}")).collect();
    let owners = vec![None, None, None];
    let run = run_from_table(&table, &ids, &owners, false, false);
    assert_eq!(run.format, CsvFormat::Agency);
    assert_eq!(run.plan.counts.role_components, 1, "Expected 1 component");
    assert_eq!(run.plan.counts.desired_outcomes, 1, "Expected 1 outcome");
    assert_eq!(run.plan.counts.trade_off_configs, 1, "Expected 1 tradeoff");
    assert_eq!(run.failed_row, None);
}

#[test]
fn unreadable_records_fail_the_import_at_their_row() {
    let table = read_csv_table(b"type,name,description\nrole_component,a,b\nbroken\n").unwrap();
    assert!(!table.complete);
    assert_eq!(table.records.len(), 1);
    let run = run_from_table(&table, &vec!["h".to_string()], &vec![None], false, false);
    assert_eq!(run.format, CsvFormat::Legacy);
    assert_eq!(run.failed_row, Some(2));
    assert_eq!(run.plan.counts.role_components, 1);
}

fn planned(kind: PrimitiveKind, name: &str, id: &str, on_disk: Option<DiskOwner>) -> ImportRow {
    ImportRow { kind: Some(kind), name: name.to_string(), scope: None, id: id.to_string(), on_disk }
}

fn owner(name: &str) -> Option<DiskOwner> {
    Some(DiskOwner { name: Some(name.to_string()), scope: None })
}

#[test]
fn reimport_over_written_store_decides_the_same() {
    let first = vec![
        planned(PrimitiveKind::Component, "a", "h1", None),
        planned(PrimitiveKind::Component, "b", "h1", None),
        planned(PrimitiveKind::Outcome, "c", "h2", None),
        ImportRow { kind: None, name: "x".to_string(), scope: None, id: "h3".to_string(), on_disk: None },
    ];
    let p1 = plan_import(&first, false, false);
    assert_eq!(p1.saves, vec![0, 2]);
    assert_eq!(p1.collisions.len(), 1);
    assert_eq!(p1.collisions[0].origin, CollisionOrigin::SameImport);

    // The store now holds h1 owned by "a" and h2 owned by "c".
    let again = vec![
        planned(PrimitiveKind::Component, "a", "h1", owner("a")),
        planned(PrimitiveKind::Component, "b", "h1", owner("a")),
        planned(PrimitiveKind::Outcome, "c", "h2", owner("c")),
        ImportRow { kind: None, name: "x".to_string(), scope: None, id: "h3".to_string(), on_disk: None },
    ];
    let p2 = plan_import(&again, false, false);
    assert_eq!(p2.saves, p1.saves);
    assert_eq!(p2.counts.role_components, 1);
    assert_eq!(p2.counts.desired_outcomes, 1);
    assert_eq!(p2.counts.skipped, 2);
    assert_eq!(p2.collisions.len(), 1);
    assert_eq!(p2.collisions[0].origin, CollisionOrigin::SameImport);
    assert_eq!(p2.collisions[0].kept_name, "a");
    assert_eq!(p2.collisions[0].dropped_name, "b");
}

#[test]
fn run_from_bytes_imports_leniently_and_reports_failures() {
    let csv = format!(
        "{AGENCY_HEADER}\n\
         role_component,forward-compatible-deferral-spec,Deferral spec contents,80,high,management,inst-001,,task\n\
         role_component,forward-compatible-deferral-spec,Deferral spec contents,80,high,management,inst-001,,meta:assigner\n"
    );
    let ids = vec!["h".to_string(); 2];
    let run = run_from_bytes(csv.as_bytes(), &ids, &vec![None, None], false).unwrap().unwrap();
    assert_eq!(run.plan.counts.role_components, 1);
    assert_eq!(run.plan.counts.skipped, 1);
    assert_eq!(run.plan.collisions.len(), 1);
    assert!(run.plan.stopped.is_none());
    assert!(run.writes_manifest);
    let dry = run_from_bytes(csv.as_bytes(), &ids, &vec![None, None], true).unwrap().unwrap();
    assert!(!dry.writes_manifest);

    // Hashes that do not match the records one for one.
    assert!(run_from_bytes(csv.as_bytes(), &vec!["h".to_string()], &vec![None], false).is_none());

    // An unreadable record fails the import at its row.
    let err = run_from_bytes(b"type,name,description\nrole_component,a,b\nbroken\n", &vec!["h".to_string()], &vec![None], false)
        .unwrap()
        .unwrap_err();
    assert_eq!(err, "Failed to parse CSV row 2");
}

#[test]
fn strict_import_from_bytes_stops_without_a_manifest() {
    let csv = format!(
        "{AGENCY_HEADER}\n\
         role_component,forward-compatible-deferral-spec,Deferral spec contents,80,high,management,inst-001,,task\n\
         role_component,forward-compatible-deferral-spec,Deferral spec contents,80,high,management,inst-001,,meta:assigner\n"
    );
    let ids = vec!["0123456789abcdef0123".to_string(); 2];
    let run = run_from_bytes_with(csv.as_bytes(), &ids, &vec![None, None], false, true).unwrap().unwrap();
    let stop = run.plan.stopped.clone().expect("strict import stops");
    assert!(!run.writes_manifest);
    assert_eq!(run.plan.counts.role_components, 1);
    let msg = format_strict_error(&stop, "0123456789ab");
    assert!(msg.contains("--strict") && msg.contains("forward-compatible-deferral-spec"));
    let lenient = run_from_bytes_with(csv.as_bytes(), &ids, &vec![None, None], false, false).unwrap().unwrap();
    assert!(lenient.plan.stopped.is_none());
    assert!(lenient.writes_manifest);
}

#[test]
fn saved_rows_record_owner_and_creator() {
    assert_eq!(saved_provenance(None, None, "0.9.1"), ("agency-import".to_string(), "agency-import-v0.9.1".to_string()));
    assert_eq!(saved_provenance(Some("upstream"), Some("   "), "0.9.1"), ("upstream".to_string(), "upstream-v0.9.1".to_string()));
    assert_eq!(saved_provenance(Some("upstream"), Some("evolver"), "0.9.1"), ("upstream".to_string(), "evolver".to_string()));
}

#[test]
fn import_report_and_warnings() {
    let counts = ImportCounts { role_components: 2, desired_outcomes: 1, trade_off_configs: 0, skipped: 3 };
    assert_eq!(
        import_report_lines(&counts, 1, true),
        vec![
            "Agency import complete (dry run):",
            "  Components: 2",
            "  Outcomes:   1",
            "  Tradeoffs:  0",
            "  Skipped:    3",
            "  Collisions: 1 (description-hash dedup; rerun with --strict to fail)",
        ]
    );
    let quiet = ImportCounts { role_components: 1, desired_outcomes: 0, trade_off_configs: 0, skipped: 0 };
    assert_eq!(
        import_report_lines(&quiet, 0, false),
        vec!["Agency import complete:", "  Components: 1", "  Outcomes:   0", "  Tradeoffs:  0"]
    );
    assert_eq!(
        unknown_type_warning(&strings(&[" widget ", "W"]), 4),
        Some("Warning: skipping unknown type 'widget' for 'W' (row 4)".to_string())
    );
    assert_eq!(unknown_type_warning(&strings(&["", "W"]), 4), None);
    assert_eq!(unknown_type_warning(&strings(&["skill", "W"]), 4), None);
    assert_eq!(dry_run_line(PrimitiveKind::Outcome, "Working Code", "abcd1234"), "  [outcome] Working Code (abcd1234)");
}
