//! Exporting and pushing agency primitives: which store is the source, the
//! origin filter, the twelve CSV columns of a primitive, the order rows are
//! written in, and the entity filter of a push.
use vstd::prelude::*;
use crate::text::{
    trim, strip_prefix, parse_unsigned, decimal, join_with, owned, str_eq, trim_str,
    str_strip_prefix, parse_unsigned_str, push_decimal, lex_le, lex_lt, chars_of,
};
use crate::archive::{views, opt_view, join_path, join};
use crate::json::{json_string_list_text, json_string_list};
use crate::agency_import::{PrimitiveKind, nonempty};
use crate::order::{
    stable_sort_indices, vec_lex_lt, is_permutation_of_range, sorted_stably, total_preorder,
    lemma_lex_le_total_order, lemma_lex_total, lemma_lex_asymmetric, lemma_lex_irreflexive,
};

verus! {

/// Options for the push command.
pub struct PushOptions<'a> {
    pub target: &'a str,
    pub dry_run: bool,
    pub no_performance: bool,
    pub no_evaluations: bool,
    pub force: bool,
    pub global: bool,
    pub entity_ids: &'a [String],
    pub entity_type: Option<&'a str>,
    pub json: bool,
}

/// Options for `wg agency export`.
pub struct ExportOptions<'a> {
    pub output: &'a str,
    pub format: &'a str,
    pub filter: Option<&'a str>,
    pub global: bool,
}

// ---------------------------------------------------------------------------
// The source store and the filter
// ---------------------------------------------------------------------------

/// `dirs::home_dir`, as text (lossily, if the path is not UTF-8). It reads
/// the environment, so nothing is claimed of it.
#[verifier::external_body]
fn home_dir() -> (r: Option<String>) {
    dirs::home_dir().map(|p| p.to_string_lossy().into_owned())
}

/// The store a push or export reads: the project's `agency` directory, or
/// with `global` the user's `~/.wg/agency`, which needs a home directory.
pub open spec fn store_path_spec(workgraph_dir: Seq<char>, global: bool, home: Option<Seq<char>>) -> Option<
    Seq<char>,
> {
    if global {
        match home {
            Some(h) => Some(join_path(join_path(h, ".wg"@), "agency"@)),
            None => None,
        }
    } else {
        Some(join_path(workgraph_dir, "agency"@))
    }
}

pub fn store_path_from(workgraph_dir: &str, global: bool, home: Option<String>) -> (r: Result<
    String,
    String,
>)
    ensures
        match r {
            Ok(p) => store_path_spec(workgraph_dir@, global, opt_view(home)) == Some(p@),
            Err(m) => store_path_spec(workgraph_dir@, global, opt_view(home)) is None && m@
                == "Cannot determine home directory"@,
        },
{
    if global {
        match home {
            Some(h) => {
                let wg = join(h.as_str(), ".wg");
                Ok(join(wg.as_str(), "agency"))
            },
            None => Err(owned("Cannot determine home directory")),
        }
    } else {
        Ok(join(workgraph_dir, "agency"))
    }
}

/// The source store's path. Without `global` it is the project's `agency`
/// directory; with it, the home directory the environment gives decides.
pub fn local_store_path(workgraph_dir: &str, global: bool) -> (r: Result<String, String>)
    ensures
        !global ==> (r matches Ok(p) && p@ == join_path(workgraph_dir@, "agency"@)),
        global ==> match r {
            Ok(p) => exists|h: Seq<char>| p@ == join_path(join_path(h, ".wg"@), "agency"@),
            Err(m) => m@ == "Cannot determine home directory"@,
        },
{
    if global {
        store_path_from(workgraph_dir, global, home_dir())
    } else {
        store_path_from(workgraph_dir, global, None)
    }
}

pub open spec fn missing_store_text(global: bool) -> Seq<char> {
    if global {
        "No global agency store found at ~/.wg/agency/. Run 'wg agency init' first."@
    } else {
        "No local agency store found. Run 'wg agency init' first."@
    }
}

/// The refusal when the source store does not exist.
pub fn missing_store_message(global: bool) -> (m: String)
    ensures
        m@ == missing_store_text(global),
{
    if global {
        owned("No global agency store found at ~/.wg/agency/. Run 'wg agency init' first.")
    } else {
        owned("No local agency store found. Run 'wg agency init' first.")
    }
}

pub open spec fn export_format_error(format: Seq<char>) -> Seq<char> {
    "Unsupported agency export format '"@ + format + "'. Use: agency-csv"@
}

/// Export writes only `agency-csv`.
pub fn check_export_format(format: &str) -> (r: Result<(), String>)
    ensures
        r is Ok <==> format@ == "agency-csv"@,
        r matches Err(m) ==> m@ == export_format_error(format@),
{
    if !str_eq(format, "agency-csv") {
        let mut m = owned("Unsupported agency export format '");
        m.append(format);
        m.append("'. Use: agency-csv");
        return Err(m);
    }
    Ok(())
}

pub open spec fn origin_filter_spec(filter: Option<Seq<char>>) -> Result<Option<Seq<char>>, Seq<
    char,
>> {
    match filter {
        None => Ok(None),
        Some(raw) => if trim(raw).len() == 0 {
            Ok(None)
        } else {
            match strip_prefix(raw, "origin_instance_id="@) {
                Some(v) => Ok(Some(v)),
                None => Err(
                    "Unsupported agency export filter '"@ + raw
                        + "'. Use origin_instance_id=<value>"@,
                ),
            }
        },
    }
}

pub open spec fn opt_str(o: Option<&str>) -> Option<Seq<char>> {
    match o {
        Some(s) => Some(s@),
        None => None,
    }
}

/// The export filter: none (or blank), or `origin_instance_id=<value>`.
pub fn parse_origin_filter(filter: Option<&str>) -> (r: Result<Option<String>, String>)
    ensures
        match r {
            Ok(v) => origin_filter_spec(opt_str(filter)) == Ok::<Option<Seq<char>>, Seq<char>>(
                opt_view(v),
            ),
            Err(m) => origin_filter_spec(opt_str(filter)) == Err::<Option<Seq<char>>, Seq<char>>(
                m@,
            ),
        },
{
    match filter {
        None => Ok(None),
        Some(raw) => {
            let t = trim_str(raw);
            if t.as_str().is_empty() {
                return Ok(None);
            }
            match str_strip_prefix(raw, "origin_instance_id=") {
                Some(v) => Ok(Some(v)),
                None => {
                    let mut m = owned("Unsupported agency export filter '");
                    m.append(raw);
                    m.append("'. Use origin_instance_id=<value>");
                    Err(m)
                },
            }
        },
    }
}

/// Whether a primitive passes the origin filter: every primitive without a
/// filter; with one, those whose recorded origin instance equals it.
pub fn include_metadata(origin_instance_id: Option<&str>, origin_filter: Option<&str>) -> (b: bool)
    ensures
        b == match origin_filter {
            None => true,
            Some(f) => origin_instance_id matches Some(o) && o@ == f@,
        },
{
    match origin_filter {
        None => true,
        Some(f) => match origin_instance_id {
            Some(o) => str_eq(o, f),
            None => false,
        },
    }
}

/// The original CSV position recorded at import, when it is a `u64`.
pub fn csv_row_idx(recorded: Option<&str>) -> (r: Option<u64>)
    ensures
        r == match recorded {
            Some(t) => match parse_unsigned(t@, u64::MAX as nat) {
                Some(n) => Some(n as u64),
                None => None,
            },
            None => None,
        },
{
    match recorded {
        Some(t) => parse_unsigned_str(t, u64::MAX),
        None => None,
    }
}

// ---------------------------------------------------------------------------
// The twelve CSV columns of a primitive
// ---------------------------------------------------------------------------

/// The metadata entries an export reads back, each when recorded.
#[derive(Debug, Clone)]
pub struct ExportMetadata {
    pub agency_quality: Option<String>,
    pub parent_ids: Option<String>,
    pub domain_raw: Option<String>,
    pub domain_specificity: Option<String>,
    pub origin_instance_id: Option<String>,
    pub parent_content_hash: Option<String>,
    pub scope: Option<String>,
    pub agency_csv_row_idx: Option<String>,
}

/// A primitive as export reads it. `score_quality` is the quality derived
/// from its average score (`round(score * 100)`, 100 without a score),
/// already rendered.
#[derive(Debug, Clone)]
pub struct ExportPrimitive {
    pub kind: PrimitiveKind,
    pub id: String,
    pub name: String,
    pub description: String,
    pub quality: u8,
    pub domain_specificity: u8,
    pub domain: Vec<String>,
    pub origin_instance_id: Option<String>,
    pub parent_content_hash: Option<String>,
    pub scope: Option<String>,
    pub score_quality: String,
    pub lineage_parent_ids: Vec<String>,
    pub generation: u32,
    pub created_by: String,
    pub domain_tags: Vec<String>,
    pub metadata: ExportMetadata,
}

/// The header row of an agency CSV.
pub open spec fn agency_csv_headers() -> Seq<Seq<char>> {
    seq![
        "type"@,
        "name"@,
        "description"@,
        "quality"@,
        "domain_specificity"@,
        "domain"@,
        "origin_instance_id"@,
        "parent_content_hash"@,
        "scope"@,
        "parent_ids"@,
        "generation"@,
        "created_by"@,
    ]
}

/// The type cell of a kind.
pub open spec fn type_name_of(k: PrimitiveKind) -> Seq<char> {
    match k {
        PrimitiveKind::Component => "role_component"@,
        PrimitiveKind::Outcome => "desired_outcome"@,
        PrimitiveKind::Tradeoff => "trade_off_config"@,
    }
}

/// Components, then outcomes, then tradeoffs.
pub open spec fn type_rank_of(k: PrimitiveKind) -> u8 {
    match k {
        PrimitiveKind::Component => 0,
        PrimitiveKind::Outcome => 1,
        PrimitiveKind::Tradeoff => 2,
    }
}

/// `ids` without those equal to `x`.
pub open spec fn without(ids: Seq<Seq<char>>, x: Option<Seq<char>>) -> Seq<Seq<char>>
    decreases ids.len(),
{
    if ids.len() == 0 {
        Seq::empty()
    } else {
        let rest = without(ids.drop_last(), x);
        if Some(ids.last()) == x {
            rest
        } else {
            rest.push(ids.last())
        }
    }
}

/// A recorded value, else a fallback.
pub open spec fn or_else(v: Option<String>, fallback: Seq<char>) -> Seq<char> {
    match v {
        Some(s) => s@,
        None => fallback,
    }
}

pub open spec fn opt_or_empty(v: Option<String>) -> Seq<char> {
    or_else(v, Seq::empty())
}

/// The parent ids cell: the raw text recorded at import, else the lineage's
/// parents other than the parent content hash as a JSON array (empty when
/// none are left).
pub open spec fn parent_ids_cell(p: ExportPrimitive) -> Seq<char> {
    let derived = without(views(p.lineage_parent_ids@), opt_view(p.parent_content_hash));
    or_else(
        p.metadata.parent_ids,
        if derived.len() == 0 {
            Seq::empty()
        } else {
            json_string_list_text(derived)
        },
    )
}

/// The twelve cells of a primitive's row. Text recorded at import wins, so
/// an imported CSV exports back as it came.
pub open spec fn agency_fields(p: ExportPrimitive) -> Seq<Seq<char>> {
    seq![
        type_name_of(p.kind),
        p.name@,
        p.description@,
        or_else(
            p.metadata.agency_quality,
            if p.quality > 0 {
                decimal(p.quality as nat)
            } else {
                p.score_quality@
            },
        ),
        or_else(p.metadata.domain_specificity, decimal(p.domain_specificity as nat)),
        or_else(
            p.metadata.domain_raw,
            join_with(
                if p.domain@.len() == 0 {
                    views(p.domain_tags@)
                } else {
                    views(p.domain@)
                },
                ","@,
            ),
        ),
        or_else(p.metadata.origin_instance_id, opt_or_empty(p.origin_instance_id)),
        or_else(p.metadata.parent_content_hash, opt_or_empty(p.parent_content_hash)),
        or_else(p.metadata.scope, opt_or_empty(p.scope)),
        parent_ids_cell(p),
        decimal(p.generation as nat),
        p.created_by@,
    ]
}

fn or_else_of(v: &Option<String>, fallback: String) -> (r: String)
    ensures
        r@ == or_else(*v, fallback@),
{
    match v {
        Some(s) => owned(s.as_str()),
        None => fallback,
    }
}

fn opt_text(v: &Option<String>) -> (r: String)
    ensures
        r@ == opt_or_empty(*v),
{
    or_else_of(v, String::new())
}

fn decimal_text(n: u64) -> (r: String)
    ensures
        r@ == decimal(n as nat),
{
    let mut r = String::new();
    push_decimal(&mut r, n);
    r
}

/// The strings joined by `sep`.
pub fn join_strings(parts: &Vec<String>, sep: &str) -> (out: String)
    ensures
        out@ == join_with(views(parts@), sep@),
{
    let mut out = String::new();
    let mut i: usize = 0;
    assert(views(parts@).take(0) =~= Seq::<Seq<char>>::empty());
    while i < parts.len()
        invariant
            i <= parts.len(),
            out@ == join_with(views(parts@).take(i as int), sep@),
        decreases parts.len() - i,
    {
        let ghost prev = views(parts@).take(i as int);
        if i > 0 {
            out.append(sep);
        }
        out.append(parts[i].as_str());
        proof {
            let next = views(parts@).take(i + 1);
            assert(next.drop_last() =~= prev);
            assert(next.last() == parts@[i as int]@);
            if i == 0 {
                assert(out@ =~= next[0]);
            } else {
                assert(out@ =~= join_with(prev, sep@) + sep@ + next.last());
            }
        }
        i += 1;
    }
    assert(views(parts@).take(parts@.len() as int) =~= views(parts@));
    out
}

fn without_of(ids: &Vec<String>, x: &Option<String>) -> (out: Vec<String>)
    ensures
        views(out@) == without(views(ids@), opt_view(*x)),
{
    let mut out: Vec<String> = Vec::new();
    let mut i: usize = 0;
    assert(views(ids@).take(0) =~= Seq::<Seq<char>>::empty());
    while i < ids.len()
        invariant
            i <= ids.len(),
            views(out@) == without(views(ids@).take(i as int), opt_view(*x)),
        decreases ids.len() - i,
    {
        let ghost prev = out@;
        proof {
            let next = views(ids@).take(i + 1);
            assert(next.drop_last() =~= views(ids@).take(i as int));
            assert(next.last() == ids@[i as int]@);
        }
        let same = match x {
            Some(v) => str_eq(ids[i].as_str(), v.as_str()),
            None => false,
        };
        if !same {
            out.push(owned(ids[i].as_str()));
            proof {
                assert(views(out@) =~= views(prev).push(ids@[i as int]@));
            }
        }
        i += 1;
    }
    assert(views(ids@).take(ids@.len() as int) =~= views(ids@));
    out
}

/// The twelve cells of a primitive's row.
pub fn agency_csv_fields(p: &ExportPrimitive) -> (fields: Vec<String>)
    ensures
        views(fields@) == agency_fields(*p),
{
    let type_label = match p.kind {
        PrimitiveKind::Component => owned("role_component"),
        PrimitiveKind::Outcome => owned("desired_outcome"),
        PrimitiveKind::Tradeoff => owned("trade_off_config"),
    };
    let quality_fallback = if p.quality > 0 {
        decimal_text(p.quality as u64)
    } else {
        owned(p.score_quality.as_str())
    };
    let quality = or_else_of(&p.metadata.agency_quality, quality_fallback);
    let specificity = or_else_of(
        &p.metadata.domain_specificity,
        decimal_text(p.domain_specificity as u64),
    );
    let domain_joined = if p.domain.len() == 0 {
        join_strings(&p.domain_tags, ",")
    } else {
        join_strings(&p.domain, ",")
    };
    let domain = or_else_of(&p.metadata.domain_raw, domain_joined);
    let origin = or_else_of(&p.metadata.origin_instance_id, opt_text(&p.origin_instance_id));
    let pch = or_else_of(&p.metadata.parent_content_hash, opt_text(&p.parent_content_hash));
    let scope = or_else_of(&p.metadata.scope, opt_text(&p.scope));
    let derived = without_of(&p.lineage_parent_ids, &p.parent_content_hash);
    let derived_text = if derived.len() == 0 {
        String::new()
    } else {
        json_string_list(&derived)
    };
    let parent_ids = or_else_of(&p.metadata.parent_ids, derived_text);
    let mut fields: Vec<String> = Vec::new();
    fields.push(type_label);
    fields.push(owned(p.name.as_str()));
    fields.push(owned(p.description.as_str()));
    fields.push(quality);
    fields.push(specificity);
    fields.push(domain);
    fields.push(origin);
    fields.push(pch);
    fields.push(scope);
    fields.push(parent_ids);
    fields.push(decimal_text(p.generation as u64));
    fields.push(owned(p.created_by.as_str()));
    assert(views(fields@) =~= agency_fields(*p));
    fields
}

// ---------------------------------------------------------------------------
// Rows and their order
// ---------------------------------------------------------------------------

/// A primitive's export row, with what orders it.
#[derive(Debug, Clone)]
pub struct AgencyCsvRow {
    pub type_rank: u8,
    pub type_label: &'static str,
    pub name: String,
    pub id: String,
    /// The row's position in the CSV it was imported from, if any.
    pub csv_row_idx: Option<u64>,
    pub fields: Vec<String>,
}

pub fn agency_csv_row(p: &ExportPrimitive) -> (r: AgencyCsvRow)
    ensures
        r.type_rank == type_rank_of(p.kind),
        r.type_label@ == type_name_of(p.kind),
        r.name@ == p.name@,
        r.id@ == p.id@,
        r.csv_row_idx == match p.metadata.agency_csv_row_idx {
            Some(t) => match parse_unsigned(t@, u64::MAX as nat) {
                Some(n) => Some(n as u64),
                None => None,
            },
            None => None,
        },
        views(r.fields@) == agency_fields(*p),
{
    let (rank, type_label): (u8, &'static str) = match p.kind {
        PrimitiveKind::Component => (0, "role_component"),
        PrimitiveKind::Outcome => (1, "desired_outcome"),
        PrimitiveKind::Tradeoff => (2, "trade_off_config"),
    };
    let idx = match &p.metadata.agency_csv_row_idx {
        Some(t) => csv_row_idx(Some(t.as_str())),
        None => None,
    };
    AgencyCsvRow {
        type_rank: rank,
        type_label,
        name: owned(p.name.as_str()),
        id: owned(p.id.as_str()),
        csv_row_idx: idx,
        fields: agency_csv_fields(p),
    }
}

/// Export order: imported rows first, by their original position; then the
/// rest by type rank, name and id.
pub open spec fn row_le(a: AgencyCsvRow, b: AgencyCsvRow) -> bool {
    match (a.csv_row_idx, b.csv_row_idx) {
        (Some(x), Some(y)) => x <= y,
        (Some(_), None) => true,
        (None, Some(_)) => false,
        (None, None) => a.type_rank < b.type_rank || (a.type_rank == b.type_rank && (lex_lt(
            a.name@,
            b.name@,
        ) || (a.name@ == b.name@ && lex_le(a.id@, b.id@)))),
    }
}

pub open spec fn rows_le(rows: Seq<AgencyCsvRow>) -> spec_fn(int, int) -> bool {
    |i: int, j: int| row_le(rows[i], rows[j])
}

proof fn lemma_row_le_total_preorder(rows: Seq<AgencyCsvRow>)
    ensures
        total_preorder(rows_le(rows), rows.len() as int),
{
    lemma_lex_le_total_order();
    let le = rows_le(rows);
    assert forall|i: int, j: int| 0 <= i < rows.len() && 0 <= j < rows.len() implies #[trigger] le(
        i,
        j,
    ) || le(j, i) by {
        lemma_lex_total(rows[i].name@, rows[j].name@);
        lemma_lex_total(rows[i].id@, rows[j].id@);
    }
    assert forall|i: int, j: int, k: int|
        0 <= i < rows.len() && 0 <= j < rows.len() && 0 <= k < rows.len() && #[trigger] le(i, j)
            && #[trigger] le(j, k) implies le(i, k) by {
        let (a, b, c) = (rows[i], rows[j], rows[k]);
        if a.csv_row_idx is None && b.csv_row_idx is None && c.csv_row_idx is None {
            lemma_lex_irreflexive(a.name@);
            lemma_lex_irreflexive(b.name@);
            if a.type_rank == b.type_rank && b.type_rank == c.type_rank {
                if lex_lt(a.name@, b.name@) && lex_lt(b.name@, c.name@) {
                    crate::order::lemma_lex_transitive(a.name@, b.name@, c.name@);
                }
                if a.name@ == b.name@ && b.name@ == c.name@ {
                    assert(lex_le(a.id@, b.id@) && lex_le(b.id@, c.id@));
                }
            }
        }
    }
}

fn row_le_exec(a: &AgencyCsvRow, b: &AgencyCsvRow) -> (r: bool)
    ensures
        r == row_le(*a, *b),
{
    match (a.csv_row_idx, b.csv_row_idx) {
        (Some(x), Some(y)) => x <= y,
        (Some(_), None) => true,
        (None, Some(_)) => false,
        (None, None) => {
            if a.type_rank != b.type_rank {
                return a.type_rank < b.type_rank;
            }
            let an = chars_of(a.name.as_str());
            let bn = chars_of(b.name.as_str());
            if vec_lex_lt(&an, &bn) {
                return true;
            }
            if !str_eq(a.name.as_str(), b.name.as_str()) {
                return false;
            }
            let ai = chars_of(a.id.as_str());
            let bi = chars_of(b.id.as_str());
            let gt = vec_lex_lt(&bi, &ai);
            proof {
                lemma_lex_total(a.id@, b.id@);
                lemma_lex_asymmetric(a.id@, b.id@);
                if a.id@ == b.id@ {
                    lemma_lex_irreflexive(a.id@);
                }
            }
            !gt
        },
    }
}

/// The order rows are written in: sorted stably by `row_le`.
pub fn export_order(rows: &Vec<AgencyCsvRow>) -> (order: Vec<usize>)
    ensures
        is_permutation_of_range(order@, rows.len() as int),
        sorted_stably(order@, rows_le(rows@)),
{
    proof {
        lemma_row_le_total_preorder(rows@);
    }
    let le = |i: usize, j: usize| -> (r: bool)
        requires
            i < rows.len(),
            j < rows.len(),
        ensures
            r == row_le(rows@[i as int], rows@[j as int]),
        { row_le_exec(&rows[i], &rows[j]) };
    stable_sort_indices(rows.len(), le, Ghost(rows_le(rows@)))
}

// ---------------------------------------------------------------------------
// Writing the CSV
// ---------------------------------------------------------------------------

/// The bytes the csv crate writes for these records, with CRLF line ends
/// and quotes only where a field needs them.
pub uninterp spec fn agency_csv_bytes(records: Seq<Seq<Seq<char>>>) -> Seq<u8>;

pub open spec fn records_of(v: Seq<Vec<String>>) -> Seq<Seq<Seq<char>>> {
    v.map_values(|r: Vec<String>| views(r@))
}

/// `csv::WriterBuilder` (CRLF terminator, necessary quoting) writing every
/// record into memory. Writing to memory fails only on records of unequal
/// length, which the caller rules out.
#[verifier::external_body]
fn write_csv_records(records: &Vec<Vec<String>>) -> (r: Vec<u8>)
    requires
        forall|i: int| 0 <= i < records@.len() ==> #[trigger] records@[i]@.len() == records@[0]@.len(),
    ensures
        r@ == agency_csv_bytes(records_of(records@)),
{
    let mut output = Vec::new();
    {
        let mut writer = csv::WriterBuilder::new().terminator(csv::Terminator::CRLF).quote_style(
            csv::QuoteStyle::Necessary,
        ).from_writer(&mut output);
        for record in records {
            let _ = writer.write_record(record);
        }
        let _ = writer.flush();
    }
    output
}

fn header_record() -> (h: Vec<String>)
    ensures
        views(h@) == agency_csv_headers(),
{
    let mut h: Vec<String> = Vec::new();
    h.push(owned("type"));
    h.push(owned("name"));
    h.push(owned("description"));
    h.push(owned("quality"));
    h.push(owned("domain_specificity"));
    h.push(owned("domain"));
    h.push(owned("origin_instance_id"));
    h.push(owned("parent_content_hash"));
    h.push(owned("scope"));
    h.push(owned("parent_ids"));
    h.push(owned("generation"));
    h.push(owned("created_by"));
    assert(views(h@) =~= agency_csv_headers());
    h
}


/// The agency CSV of `rows`: the header, then each row's cells in the
/// export order.
pub fn write_agency_csv(rows: &Vec<AgencyCsvRow>) -> (bytes: Vec<u8>)
    requires
        forall|i: int| 0 <= i < rows@.len() ==> #[trigger] rows@[i].fields@.len() == 12,
    ensures
        exists|order: Seq<usize>|
            #![trigger is_permutation_of_range(order, rows@.len() as int)]
            is_permutation_of_range(order, rows@.len() as int) && sorted_stably(
                order,
                rows_le(rows@),
            ) && bytes@ == agency_csv_bytes(
                seq![agency_csv_headers()] + Seq::new(
                    rows@.len(),
                    |k: int| views(rows@[order[k] as int].fields@),
                ),
            ),
{
    let order = export_order(rows);
    let mut records: Vec<Vec<String>> = Vec::new();
    let header = header_record();
    assert(header@.len() == views(header@).len());
    records.push(header);
    assert(records_of(records@) =~= seq![agency_csv_headers()] + Seq::new(
        0,
        |m: int| views(rows@[order@[m] as int].fields@),
    ));
    let mut k: usize = 0;
    while k < order.len()
        invariant
            k <= order.len() == rows@.len(),
            is_permutation_of_range(order@, rows@.len() as int),
            forall|i: int| 0 <= i < rows@.len() ==> #[trigger] rows@[i].fields@.len() == 12,
            records@.len() == k + 1,
            records_of(records@) == seq![agency_csv_headers()] + Seq::new(
                k as nat,
                |m: int| views(rows@[order@[m] as int].fields@),
            ),
            forall|i: int| 0 <= i < records@.len() ==> #[trigger] records@[i]@.len() == 12,
        decreases order.len() - k,
    {
        let ghost prev = records@;
        let row = crate::text::clone_strings(&rows[order[k]].fields);
        assert(row@.len() == views(row@).len());
        assert(rows@[order@[k as int] as int].fields@.len() == views(
            rows@[order@[k as int] as int].fields@,
        ).len());
        records.push(row);
        proof {
            assert(records_of(records@) =~= seq![agency_csv_headers()] + Seq::new(
                (k + 1) as nat,
                |m: int| views(rows@[order@[m] as int].fields@),
            )) by {
                assert(records_of(records@) =~= records_of(prev).push(views(row@)));
            }
        }
        k += 1;
    }
    let bytes = write_csv_records(&records);
    assert(is_permutation_of_range(order@, rows@.len() as int));
    bytes
}

// ---------------------------------------------------------------------------
// What a push transfers
// ---------------------------------------------------------------------------

/// Which entities a push transfers.
#[derive(Debug, Clone, Copy, PartialEq, Eq, Structural)]
pub enum EntityFilter {
    All,
    Components,
    Outcomes,
    Roles,
    Tradeoffs,
    Agents,
}

pub open spec fn entity_filter_spec(t: Option<Seq<char>>) -> Option<EntityFilter> {
    match t {
        None => Some(EntityFilter::All),
        Some(s) => if s == "component"@ || s == "components"@ {
            Some(EntityFilter::Components)
        } else if s == "outcome"@ || s == "outcomes"@ {
            Some(EntityFilter::Outcomes)
        } else if s == "role"@ || s == "roles"@ {
            Some(EntityFilter::Roles)
        } else if s == "motivation"@ || s == "motivations"@ || s == "tradeoff"@ || s
            == "tradeoffs"@ {
            Some(EntityFilter::Tradeoffs)
        } else if s == "agent"@ || s == "agents"@ {
            Some(EntityFilter::Agents)
        } else {
            None
        },
    }
}

pub open spec fn unknown_entity_text(t: Seq<char>) -> Seq<char> {
    "Unknown entity type '"@ + t
        + "'. Use: component, outcome, role, tradeoff, motivation, or agent"@
}

/// The entity filter a push's `--type` names, singular or plural.
pub fn parse_entity_filter(entity_type: Option<&str>) -> (r: Result<EntityFilter, String>)
    ensures
        match r {
            Ok(f) => entity_filter_spec(opt_str(entity_type)) == Some(f),
            Err(m) => entity_filter_spec(opt_str(entity_type)) is None && m@
                == unknown_entity_text(entity_type.unwrap()@),
        },
{
    match entity_type {
        None => Ok(EntityFilter::All),
        Some(s) => {
            if str_eq(s, "component") || str_eq(s, "components") {
                Ok(EntityFilter::Components)
            } else if str_eq(s, "outcome") || str_eq(s, "outcomes") {
                Ok(EntityFilter::Outcomes)
            } else if str_eq(s, "role") || str_eq(s, "roles") {
                Ok(EntityFilter::Roles)
            } else if str_eq(s, "motivation") || str_eq(s, "motivations") || str_eq(s, "tradeoff")
                || str_eq(s, "tradeoffs") {
                Ok(EntityFilter::Tradeoffs)
            } else if str_eq(s, "agent") || str_eq(s, "agents") {
                Ok(EntityFilter::Agents)
            } else {
                let mut m = owned("Unknown entity type '");
                m.append(s);
                m.append("'. Use: component, outcome, role, tradeoff, motivation, or agent");
                Err(m)
            }
        },
    }
}

} // verus!
