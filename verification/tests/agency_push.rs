use wg_commands::agency_import::{parse_agency_columns, primitive_kind, read_csv_table, PrimitiveKind};
use wg_commands::agency_push::{
    agency_csv_fields, agency_csv_row, check_export_format, csv_row_idx, export_order,
    include_metadata, join_strings, local_store_path, missing_store_message, parse_entity_filter,
    parse_origin_filter, store_path_from, write_agency_csv, AgencyCsvRow, EntityFilter,
    ExportMetadata, ExportPrimitive,
};

fn empty_metadata() -> ExportMetadata {
    ExportMetadata {
        agency_quality: None,
        parent_ids: None,
        domain_raw: None,
        domain_specificity: None,
        origin_instance_id: None,
        parent_content_hash: None,
        scope: None,
        agency_csv_row_idx: None,
    }
}

fn primitive(kind: PrimitiveKind, id: &str, name: &str) -> ExportPrimitive {
    ExportPrimitive {
        kind,
        id: id.to_string(),
        name: name.to_string(),
        description: format!("{name} description"),
        quality: 80,
        domain_specificity: 40,
        domain: vec![],
        origin_instance_id: None,
        parent_content_hash: None,
        scope: None,
        score_quality: String::new(),
        lineage_parent_ids: vec![],
        generation: 0,
        created_by: "human".to_string(),
        domain_tags: vec![],
        metadata: empty_metadata(),
    }
}

/// What an import records of each CSV row, as an export reads it back.
fn imported(csv: &[u8]) -> Vec<AgencyCsvRow> {
    let table = read_csv_table(csv).unwrap();
    table
        .records
        .iter()
        .enumerate()
        .map(|(i, r)| {
            let cols = parse_agency_columns(r);
            let mut p = primitive(primitive_kind(&r[0]).unwrap(), &format!("id{i}"), &r[1]);
            p.description = r[2].clone();
            p.lineage_parent_ids = cols.parent_ids.clone();
            p.parent_content_hash = cols.metadata.parent_content_hash.clone();
            p.generation = cols.generation;
            p.created_by = r[11].clone();
            p.metadata = ExportMetadata {
                agency_quality: cols.metadata.agency_quality.clone(),
                parent_ids: cols.metadata.parent_ids.clone(),
                domain_raw: Some(r[5].clone()),
                domain_specificity: cols.metadata.domain_specificity.clone(),
                origin_instance_id: cols.metadata.origin_instance_id.clone(),
                parent_content_hash: cols.metadata.parent_content_hash.clone(),
                scope: cols.metadata.scope.clone(),
                agency_csv_row_idx: Some(i.to_string()),
            };
            agency_csv_row(&p)
        })
        .collect()
}

#[test]
fn agency_csv_roundtrip_byte_equal_synthetic() {
    let csv = b"\
type,name,description,quality,domain_specificity,domain,origin_instance_id,parent_content_hash,scope,parent_ids,generation,created_by\r\n\
role_component,verify-distribution-channel-currency,After each release verify that every distribution channel referenced in documentation points to the current release version,100,45,software,upstream-1,5028f239d7f7080f,task,,0,human\r\n\
role_component,write-session-handoff-context,Write a timestamped handoff file at session end,100,50,\"software, management\",upstream-1,,task,,0,human\r\n\
role_component,classify-claims-by-type,\"Extract and classify claims from source material by type: fact, opinion, or theory\",100,40,\"research,analysis\",upstream-1,,task,,0,human\r\n\
trade_off_config,prefer-depth,When depth and breadth conflict prefer deeper analysis,80,low,research,upstream-1,pch-depth,task,\"[\"\"pch-depth\"\"]\",1,human\r\n\
desired_outcome,verification-summary,Return a summary with total claim count,90,50,analysis,upstream-1,,task,,0,human\r\n\
";
    let mut rows = imported(csv);
    // The store lists primitives in another order; the recorded row index restores it.
    rows.reverse();
    let exported = write_agency_csv(&rows);
    assert_eq!(String::from_utf8_lossy(&exported), String::from_utf8_lossy(csv));
}

#[test]
fn agency_csv_export_does_not_synthesise_parent_ids_from_parent_content_hash() {
    let csv = b"\
type,name,description,quality,domain_specificity,domain,origin_instance_id,parent_content_hash,scope,parent_ids,generation,created_by\r\n\
role_component,verify-install-path,Run install command from documentation in clean environment,100,50,software,upstream-1,5028f239d7f7080f,task,,0,human\r\n\
";
    let mut rows = imported(csv);
    assert_eq!(rows[0].fields[9], "");
    let exported = write_agency_csv(&rows);
    let text = String::from_utf8(exported.clone()).unwrap();
    assert!(!text.contains("[\"5028f239d7f7080f\"]"), "{text}");
    assert_eq!(exported, csv.to_vec());

    // Without the recorded cell, the lineage minus the parent hash is written as JSON.
    let mut p = primitive(PrimitiveKind::Component, "c1", "n");
    p.parent_content_hash = Some("5028f239d7f7080f".into());
    p.lineage_parent_ids = vec!["5028f239d7f7080f".into(), "other".into()];
    assert_eq!(agency_csv_fields(&p)[9], "[\"other\"]");
    p.lineage_parent_ids = vec!["5028f239d7f7080f".into()];
    assert_eq!(agency_csv_fields(&p)[9], "");
    rows.clear();
}

#[test]
fn fields_fall_back_to_the_typed_values() {
    let mut p = primitive(PrimitiveKind::Tradeoff, "t1", "speed");
    p.domain = vec!["ops".into(), "infra".into()];
    p.scope = Some("task".into());
    p.generation = 4;
    let f = agency_csv_fields(&p);
    assert_eq!(
        f,
        vec![
            "trade_off_config", "speed", "speed description", "80", "40", "ops,infra", "", "",
            "task", "", "4", "human"
        ]
    );
    p.quality = 0;
    p.score_quality = "0.75".into();
    p.domain = vec![];
    p.domain_tags = vec!["tag".into()];
    let f = agency_csv_fields(&p);
    assert_eq!(f[3], "0.75");
    assert_eq!(f[5], "tag");
}

#[test]
fn export_order_puts_recorded_rows_first_then_type_name_id() {
    let mut a = agency_csv_row(&primitive(PrimitiveKind::Tradeoff, "t", "alpha"));
    let b = agency_csv_row(&primitive(PrimitiveKind::Component, "c2", "beta"));
    let c = agency_csv_row(&primitive(PrimitiveKind::Component, "c1", "beta"));
    let mut d = primitive(PrimitiveKind::Outcome, "o", "zeta");
    d.metadata.agency_csv_row_idx = Some("3".into());
    let d = agency_csv_row(&d);
    a.csv_row_idx = None;
    let rows = vec![a, b, c, d];
    assert_eq!(export_order(&rows), vec![3, 2, 1, 0]);
}

#[test]
fn push_invalid_type_errors() {
    let e = parse_entity_filter(Some("invalid_type")).unwrap_err();
    assert!(e.contains("Unknown entity type"));
    assert_eq!(
        e,
        "Unknown entity type 'invalid_type'. Use: component, outcome, role, tradeoff, motivation, or agent"
    );
}

#[test]
fn push_type_filter_roles_only() {
    assert_eq!(parse_entity_filter(Some("role")), Ok(EntityFilter::Roles));
    assert_eq!(parse_entity_filter(Some("roles")), Ok(EntityFilter::Roles));
    assert_eq!(parse_entity_filter(Some("motivation")), Ok(EntityFilter::Tradeoffs));
    assert_eq!(parse_entity_filter(Some("agents")), Ok(EntityFilter::Agents));
    assert_eq!(parse_entity_filter(None), Ok(EntityFilter::All));
}

#[test]
fn push_no_local_store_errors() {
    assert!(missing_store_message(false).contains("No local agency store"));
    assert_eq!(
        missing_store_message(true),
        "No global agency store found at ~/.wg/agency/. Run 'wg agency init' first."
    );
    assert_eq!(local_store_path("/p/.wg", false).unwrap(), "/p/.wg/agency");
    assert_eq!(store_path_from("/p/.wg", true, Some("/home/u".into())).unwrap(), "/home/u/.wg/agency");
    assert_eq!(
        store_path_from("/p/.wg", true, None).unwrap_err(),
        "Cannot determine home directory"
    );
}

#[test]
fn export_format_and_filter_are_checked() {
    assert!(check_export_format("agency-csv").is_ok());
    assert_eq!(
        check_export_format("json").unwrap_err(),
        "Unsupported agency export format 'json'. Use: agency-csv"
    );
    assert_eq!(parse_origin_filter(None), Ok(None));
    assert_eq!(parse_origin_filter(Some("  ")), Ok(None));
    assert_eq!(parse_origin_filter(Some("origin_instance_id=up-1")), Ok(Some("up-1".to_string())));
    assert_eq!(
        parse_origin_filter(Some("scope=task")).unwrap_err(),
        "Unsupported agency export filter 'scope=task'. Use origin_instance_id=<value>"
    );
    assert!(include_metadata(Some("up-1"), Some("up-1")));
    assert!(!include_metadata(None, Some("up-1")));
    assert!(include_metadata(None, None));
    assert_eq!(csv_row_idx(Some("17")), Some(17));
    assert_eq!(csv_row_idx(Some("x")), None);
    assert_eq!(join_strings(&vec!["a".into(), "b".into()], ", "), "a, b");
}
