//! Importing agency primitives from CSV: the two column layouts, what each
//! row contributes, the description-hash dedup rule, the provenance
//! manifest, and when an upstream pull is needed.
use vstd::prelude::*;
use crate::text::{
    trim, parse_unsigned, lowercase, list_items, kept_trimmed, chars_of, trim_str, to_lowercase,
    str_eq, split_items, keep_trimmed, parse_u32, owned, decimal, push_decimal, utf8_lossy,
    byte_prefix, byte_prefix_of,
};
use crate::archive::{views, opt_view, join_path, join, lemma_views_push};
use crate::json::{json_string_array, parse_json_string_list};
use crate::text::from_utf8_lossy;
use crate::hashing::{sha256, hex_lower, sha256_hex, lemma_hex_lower_ascii};
use crate::text::lemma_ascii_byte_prefix;

verus! {

// ---------------------------------------------------------------------------
// Counts, manifest and options
// ---------------------------------------------------------------------------

/// Counts of primitives imported from a CSV file.
#[derive(Debug, Clone)]
pub struct ImportCounts {
    pub role_components: u32,
    pub desired_outcomes: u32,
    pub trade_off_configs: u32,
    /// Rows skipped: an unknown type, or a dedup collision.
    pub skipped: u32,
}

impl Default for ImportCounts {
    fn default() -> (c: Self)
        ensures
            c.role_components == 0 && c.desired_outcomes == 0 && c.trade_off_configs == 0
                && c.skipped == 0,
    {
        ImportCounts { role_components: 0, desired_outcomes: 0, trade_off_configs: 0, skipped: 0 }
    }
}

/// Provenance manifest written after a successful CSV import.
#[derive(Debug, Clone)]
pub struct ImportManifest {
    pub source: String,
    pub version: String,
    pub schema: Option<String>,
    pub agency_compat_version: Option<String>,
    pub imported_at: String,
    pub counts: ManifestCounts,
    pub content_hash: String,
}

#[derive(Debug, Clone)]
pub struct ManifestCounts {
    pub role_components: u32,
    pub desired_outcomes: u32,
    pub trade_off_configs: u32,
}

/// Options for the import command (covers local file, URL, and upstream modes).
#[derive(Debug, Clone)]
pub struct ImportOptions {
    pub csv_path: Option<String>,
    pub url: Option<String>,
    pub upstream: bool,
    pub format: Option<String>,
    pub dry_run: bool,
    pub tag: Option<String>,
    pub force: bool,
    pub check: bool,
    /// Error on the first dedup collision rather than warn-and-skip.
    pub strict: bool,
}

/// Path to the import manifest within the workgraph agency directory.
pub fn manifest_path(workgraph_dir: &str) -> (p: String)
    ensures
        p@ == join_path(workgraph_dir@, "agency/import-manifest.yaml"@),
{
    join(workgraph_dir, "agency/import-manifest.yaml")
}

/// The schema every manifest records.
pub open spec fn manifest_schema() -> Seq<char> {
    "agency-12col-v1.2.4"@
}

/// The manifest of an import: its source, the running version (`v` and the
/// package version), the schema and compatibility version, when, the counts
/// and the SHA-256 hex digest of the CSV bytes.
pub fn build_manifest(
    source: &str,
    package_version: &str,
    compat_version: &str,
    imported_at: &str,
    counts: &ImportCounts,
    csv_content: &[u8],
) -> (m: ImportManifest)
    ensures
        m.source@ == source@,
        m.version@ == "v"@ + package_version@,
        opt_view(m.schema) == Some(manifest_schema()),
        opt_view(m.agency_compat_version) == Some(compat_version@),
        m.imported_at@ == imported_at@,
        m.counts.role_components == counts.role_components,
        m.counts.desired_outcomes == counts.desired_outcomes,
        m.counts.trade_off_configs == counts.trade_off_configs,
        m.content_hash@ == hex_lower(sha256(csv_content@)),
{
    let mut version = owned("v");
    version.append(package_version);
    ImportManifest {
        source: owned(source),
        version,
        schema: Some(owned("agency-12col-v1.2.4")),
        agency_compat_version: Some(owned(compat_version)),
        imported_at: owned(imported_at),
        counts: ManifestCounts {
            role_components: counts.role_components,
            desired_outcomes: counts.desired_outcomes,
            trade_off_configs: counts.trade_off_configs,
        },
        content_hash: sha256_hex(csv_content),
    }
}

// ---------------------------------------------------------------------------
// CSV layouts and row columns
// ---------------------------------------------------------------------------

/// The two CSV layouts an import reads.
#[derive(Debug, Clone, Copy, PartialEq, Eq, Structural)]
pub enum CsvFormat {
    /// `type,name,description,col4,col5,domain_tags,quality_score`.
    Legacy,
    /// The 9-column agency subset, or the 12-column upstream schema ending in
    /// `parent_ids,generation,created_by`.
    Agency,
}

/// Nine or more header columns, or a fourth column named `quality` or
/// `domain_specificity` (trimmed, any case), mean the agency layout.
pub open spec fn format_of(headers: Seq<Seq<char>>) -> CsvFormat {
    if headers.len() >= 9 {
        CsvFormat::Agency
    } else if headers.len() > 3 && (lowercase(trim(headers[3])) == "quality"@ || lowercase(
        trim(headers[3]),
    ) == "domain_specificity"@) {
        CsvFormat::Agency
    } else {
        CsvFormat::Legacy
    }
}

pub fn detect_format(headers: &Vec<String>) -> (f: CsvFormat)
    ensures
        f == format_of(views(headers@)),
{
    if headers.len() >= 9 {
        return CsvFormat::Agency;
    }
    if headers.len() > 3 {
        let col3 = trim_str(headers[3].as_str());
        let lower = to_lowercase(col3.as_str());
        if str_eq(lower.as_str(), "quality") || str_eq(lower.as_str(), "domain_specificity") {
            return CsvFormat::Agency;
        }
    }
    CsvFormat::Legacy
}

/// Column `i` of a record, untrimmed, or empty when the record is shorter.
pub open spec fn raw_field(r: Seq<Seq<char>>, i: int) -> Seq<char> {
    if 0 <= i < r.len() {
        r[i]
    } else {
        Seq::empty()
    }
}

/// Column `i` of a record, trimmed, or empty when the record is shorter.
pub open spec fn field(r: Seq<Seq<char>>, i: int) -> Seq<char> {
    trim(raw_field(r, i))
}

/// A text when it is not empty.
pub open spec fn nonempty(t: Seq<char>) -> Option<Seq<char>> {
    if t.len() > 0 {
        Some(t)
    } else {
        None
    }
}

fn raw_field_of(r: &Vec<String>, i: usize) -> (t: String)
    ensures
        t@ == raw_field(views(r@), i as int),
{
    if i < r.len() {
        owned(r[i].as_str())
    } else {
        String::new()
    }
}

fn field_of(r: &Vec<String>, i: usize) -> (t: String)
    ensures
        t@ == field(views(r@), i as int),
{
    let raw = raw_field_of(r, i);
    trim_str(raw.as_str())
}

fn nonempty_of(t: String) -> (o: Option<String>)
    ensures
        opt_view(o) == nonempty(t@),
{
    if t.as_str().is_empty() {
        None
    } else {
        Some(t)
    }
}

/// The parent ids column: a JSON array of strings, or else a comma list;
/// each id trimmed, empty ones dropped.
pub open spec fn parent_ids_column(raw: Seq<char>) -> Seq<Seq<char>> {
    if raw.len() == 0 {
        Seq::empty()
    } else {
        match json_string_array(raw) {
            Some(ids) => kept_trimmed(ids),
            None => list_items(raw, ','),
        }
    }
}

pub fn parse_parent_ids_column(raw: &str) -> (ids: Vec<String>)
    ensures
        views(ids@) == parent_ids_column(raw@),
{
    if raw.is_empty() {
        return Vec::new();
    }
    match parse_json_string_list(raw) {
        Some(list) => keep_trimmed(&list),
        None => split_items(raw, ','),
    }
}

/// `acc` followed by each of `items` not already present, in order.
pub open spec fn append_new(acc: Seq<Seq<char>>, items: Seq<Seq<char>>) -> Seq<Seq<char>>
    decreases items.len(),
{
    if items.len() == 0 {
        acc
    } else {
        append_new(
            if acc.contains(items[0]) {
                acc
            } else {
                acc.push(items[0])
            },
            items.drop_first(),
        )
    }
}

fn contains_string(v: &Vec<String>, x: &str) -> (b: bool)
    ensures
        b == views(v@).contains(x@),
{
    crate::archive::strings_contain(v, x)
}

fn append_new_items(acc: Vec<String>, items: &Vec<String>) -> (out: Vec<String>)
    ensures
        views(out@) == append_new(views(acc@), views(items@)),
{
    let mut out = acc;
    let mut i: usize = 0;
    let ghost all = views(items@);
    assert(all.skip(0) =~= all);
    while i < items.len()
        invariant
            i <= items.len(),
            all == views(items@),
            append_new(views(acc@), all) == append_new(views(out@), all.skip(i as int)),
        decreases items.len() - i,
    {
        let ghost before = out@;
        proof {
            assert(all.skip(i as int).drop_first() =~= all.skip(i + 1));
            assert(all.skip(i as int)[0] == items@[i as int]@);
        }
        if !contains_string(&out, items[i].as_str()) {
            let x = owned(items[i].as_str());
            out.push(x);
            proof {
                lemma_views_push(before, x);
            }
        }
        i += 1;
    }
    assert(all.skip(i as int) =~= Seq::<Seq<char>>::empty());
    out
}

/// The metadata an agency row records: each entry only when non-empty.
#[derive(Debug, Clone)]
pub struct CsvMetadata {
    pub agency_quality: Option<String>,
    pub scope: Option<String>,
    pub domain_specificity: Option<String>,
    pub origin_instance_id: Option<String>,
    pub parent_content_hash: Option<String>,
    pub parent_ids: Option<String>,
}

/// The columns of a row beyond type, name and description. `quality_text`
/// is the trimmed quality cell as written (a 0-100 integer in the agency
/// layout, a 0.0-1.0 score in the legacy one).
#[derive(Debug, Clone)]
pub struct ParsedCsvColumns {
    pub quality_text: String,
    pub domain_tags: Vec<String>,
    pub metadata: CsvMetadata,
    pub parent_ids: Vec<String>,
    pub generation: u32,
    pub created_by: Option<String>,
}

/// The parent ids of an agency row: its parent content hash first, then the
/// parent ids column, without repeats.
pub open spec fn agency_parent_ids(r: Seq<Seq<char>>) -> Seq<Seq<char>> {
    append_new(
        if field(r, 7).len() > 0 {
            seq![field(r, 7)]
        } else {
            Seq::empty()
        },
        parent_ids_column(field(r, 9)),
    )
}

/// The generation column as a `u32`, or 0.
pub open spec fn generation_of(r: Seq<Seq<char>>) -> u32 {
    match parse_unsigned(field(r, 10), u32::MAX as nat) {
        Some(n) => n as u32,
        None => 0,
    }
}

/// Columns of the agency layout: type(0), name(1), description(2),
/// quality(3), domain_specificity(4), domain(5), origin_instance_id(6),
/// parent_content_hash(7), scope(8), parent_ids(9), generation(10),
/// created_by(11).
pub fn parse_agency_columns(record: &Vec<String>) -> (c: ParsedCsvColumns)
    ensures
        c.quality_text@ == field(views(record@), 3),
        views(c.domain_tags@) == list_items(raw_field(views(record@), 5), ','),
        opt_view(c.metadata.agency_quality) == nonempty(field(views(record@), 3)),
        opt_view(c.metadata.domain_specificity) == nonempty(field(views(record@), 4)),
        opt_view(c.metadata.origin_instance_id) == nonempty(field(views(record@), 6)),
        opt_view(c.metadata.parent_content_hash) == nonempty(field(views(record@), 7)),
        opt_view(c.metadata.scope) == nonempty(field(views(record@), 8)),
        opt_view(c.metadata.parent_ids) == nonempty(field(views(record@), 9)),
        views(c.parent_ids@) == agency_parent_ids(views(record@)),
        c.generation == generation_of(views(record@)),
        opt_view(c.created_by) == nonempty(field(views(record@), 11)),
{
    let quality = field_of(record, 3);
    let domain_raw = raw_field_of(record, 5);
    let domain_tags = split_items(domain_raw.as_str(), ',');
    let pch = field_of(record, 7);
    let parent_raw = field_of(record, 9);
    let mut first: Vec<String> = Vec::new();
    if !pch.as_str().is_empty() {
        first.push(owned(pch.as_str()));
        assert(views(first@) =~= seq![pch@]);
    } else {
        assert(views(first@) =~= Seq::<Seq<char>>::empty());
    }
    let column_ids = parse_parent_ids_column(parent_raw.as_str());
    let parent_ids = append_new_items(first, &column_ids);
    let generation_text = field_of(record, 10);
    let generation = match parse_u32(generation_text.as_str()) {
        Some(n) => n,
        None => 0,
    };
    let metadata = CsvMetadata {
        agency_quality: nonempty_of(owned(quality.as_str())),
        scope: nonempty_of(field_of(record, 8)),
        domain_specificity: nonempty_of(field_of(record, 4)),
        origin_instance_id: nonempty_of(field_of(record, 6)),
        parent_content_hash: nonempty_of(pch),
        parent_ids: nonempty_of(parent_raw),
    };
    ParsedCsvColumns {
        quality_text: quality,
        domain_tags,
        metadata,
        parent_ids,
        generation,
        created_by: nonempty_of(field_of(record, 11)),
    }
}

/// Columns of the legacy layout: type(0), name(1), description(2), col4(3),
/// col5(4), domain_tags(5), quality_score(6). No metadata or lineage.
pub fn parse_legacy_columns(record: &Vec<String>) -> (c: ParsedCsvColumns)
    ensures
        c.quality_text@ == field(views(record@), 6),
        views(c.domain_tags@) == list_items(raw_field(views(record@), 5), ','),
        c.metadata.agency_quality is None,
        c.metadata.scope is None,
        c.metadata.domain_specificity is None,
        c.metadata.origin_instance_id is None,
        c.metadata.parent_content_hash is None,
        c.metadata.parent_ids is None,
        c.parent_ids@.len() == 0,
        c.generation == 0,
        c.created_by is None,
{
    let domain_raw = raw_field_of(record, 5);
    ParsedCsvColumns {
        quality_text: field_of(record, 6),
        domain_tags: split_items(domain_raw.as_str(), ','),
        metadata: CsvMetadata {
            agency_quality: None,
            scope: None,
            domain_specificity: None,
            origin_instance_id: None,
            parent_content_hash: None,
            parent_ids: None,
        },
        parent_ids: Vec::new(),
        generation: 0,
        created_by: None,
    }
}

/// The columns of a row in the given layout.
pub fn parse_columns(format: CsvFormat, record: &Vec<String>) -> (c: ParsedCsvColumns)
    ensures
        format == CsvFormat::Agency ==> c.quality_text@ == field(views(record@), 3)
            && views(c.parent_ids@) == agency_parent_ids(views(record@)),
        format == CsvFormat::Legacy ==> c.quality_text@ == field(views(record@), 6)
            && c.parent_ids@.len() == 0,
        views(c.domain_tags@) == list_items(raw_field(views(record@), 5), ','),
{
    match format {
        CsvFormat::Agency => parse_agency_columns(record),
        CsvFormat::Legacy => parse_legacy_columns(record),
    }
}

/// The three kinds of agency primitive.
#[derive(Debug, Clone, Copy, PartialEq, Eq, Structural)]
pub enum PrimitiveKind {
    Component,
    Outcome,
    Tradeoff,
}

impl PrimitiveKind {
    pub open spec fn name_spec(self) -> Seq<char> {
        match self {
            PrimitiveKind::Component => "component"@,
            PrimitiveKind::Outcome => "outcome"@,
            PrimitiveKind::Tradeoff => "tradeoff"@,
        }
    }

    /// `component`, `outcome` or `tradeoff`.
    pub fn name(&self) -> (s: &'static str)
        ensures
            s@ == self.name_spec(),
    {
        match self {
            PrimitiveKind::Component => "component",
            PrimitiveKind::Outcome => "outcome",
            PrimitiveKind::Tradeoff => "tradeoff",
        }
    }
}

/// The kind a type cell names: the legacy and agency spellings of each, and
/// the kind's own name; anything else is unknown.
pub open spec fn kind_of(ptype: Seq<char>) -> Option<PrimitiveKind> {
    if ptype == "skill"@ || ptype == "role_component"@ || ptype == "component"@ {
        Some(PrimitiveKind::Component)
    } else if ptype == "outcome"@ || ptype == "desired_outcome"@ {
        Some(PrimitiveKind::Outcome)
    } else if ptype == "tradeoff"@ || ptype == "trade_off_config"@ {
        Some(PrimitiveKind::Tradeoff)
    } else {
        None
    }
}

pub fn primitive_kind(ptype: &str) -> (k: Option<PrimitiveKind>)
    ensures
        k == kind_of(ptype@),
{
    if str_eq(ptype, "skill") || str_eq(ptype, "role_component") || str_eq(ptype, "component") {
        Some(PrimitiveKind::Component)
    } else if str_eq(ptype, "outcome") || str_eq(ptype, "desired_outcome") {
        Some(PrimitiveKind::Outcome)
    } else if str_eq(ptype, "tradeoff") || str_eq(ptype, "trade_off_config") {
        Some(PrimitiveKind::Tradeoff)
    } else {
        None
    }
}

/// A legacy outcome's success criteria: the lines of its fifth column.
pub fn success_criteria(format: CsvFormat, record: &Vec<String>) -> (items: Vec<String>)
    ensures
        format == CsvFormat::Legacy ==> views(items@) == list_items(field(views(record@), 4), '\n'),
        format == CsvFormat::Agency ==> items@.len() == 0,
{
    match format {
        CsvFormat::Legacy => {
            let col5 = field_of(record, 4);
            split_items(col5.as_str(), '\n')
        },
        CsvFormat::Agency => Vec::new(),
    }
}

/// A legacy tradeoff's acceptable and unacceptable lists: the comma items
/// of its fourth and fifth columns.
pub fn tradeoff_lists(format: CsvFormat, record: &Vec<String>) -> (lists: (Vec<String>, Vec<String>))
    ensures
        format == CsvFormat::Legacy ==> views(lists.0@) == list_items(field(views(record@), 3), ',')
            && views(lists.1@) == list_items(field(views(record@), 4), ','),
        format == CsvFormat::Agency ==> lists.0@.len() == 0 && lists.1@.len() == 0,
{
    match format {
        CsvFormat::Legacy => {
            let col4 = field_of(record, 3);
            let col5 = field_of(record, 4);
            (split_items(col4.as_str(), ','), split_items(col5.as_str(), ','))
        },
        CsvFormat::Agency => (Vec::new(), Vec::new()),
    }
}

// ---------------------------------------------------------------------------
// The description-hash dedup rule
// ---------------------------------------------------------------------------

/// Where a collision happened.
#[derive(Debug, Clone, Copy, PartialEq, Eq, Structural)]
pub enum CollisionOrigin {
    /// Collided with a previous row in this same import.
    SameImport,
    /// Collided with a primitive file already present on disk (seed, prior
    /// import, or another remote).
    Existing,
}

/// One detected dedup collision during import.
#[derive(Debug, Clone)]
pub struct ImportCollision {
    pub kind: &'static str,
    pub row: usize,
    pub hash: String,
    pub kept_name: String,
    pub kept_scope: Option<String>,
    pub dropped_name: String,
    pub dropped_scope: Option<String>,
    /// Against another CSV row, or against an existing on-disk file.
    pub origin: CollisionOrigin,
}

/// The name and scope recorded in a primitive file already on disk; `name`
/// is `None` when the file could not be read as that kind.
#[derive(Debug, Clone)]
pub struct DiskOwner {
    pub name: Option<String>,
    pub scope: Option<String>,
}

/// Who owns a content hash of a kind during an import.
#[derive(Debug, Clone)]
pub struct SeenOwner {
    pub kind: PrimitiveKind,
    pub id: String,
    pub name: String,
    pub scope: Option<String>,
}

/// An owner as plain values.
pub struct OwnerRecord {
    pub kind: PrimitiveKind,
    pub id: Seq<char>,
    pub name: Seq<char>,
    pub scope: Option<Seq<char>>,
}

/// A collision as plain values.
pub struct CollisionRecord {
    pub kind: PrimitiveKind,
    pub row: int,
    pub hash: Seq<char>,
    pub kept_name: Seq<char>,
    pub kept_scope: Option<Seq<char>>,
    pub dropped_name: Seq<char>,
    pub dropped_scope: Option<Seq<char>>,
    pub origin: CollisionOrigin,
}

pub open spec fn owner_record(o: SeenOwner) -> OwnerRecord {
    OwnerRecord { kind: o.kind, id: o.id@, name: o.name@, scope: opt_view(o.scope) }
}

pub open spec fn owner_records(v: Seq<SeenOwner>) -> Seq<OwnerRecord> {
    v.map_values(|o: SeenOwner| owner_record(o))
}

pub open spec fn collision_record_of(c: ImportCollision, kind: PrimitiveKind) -> CollisionRecord {
    CollisionRecord {
        kind,
        row: c.row as int,
        hash: c.hash@,
        kept_name: c.kept_name@,
        kept_scope: opt_view(c.kept_scope),
        dropped_name: c.dropped_name@,
        dropped_scope: opt_view(c.dropped_scope),
        origin: c.origin,
    }
}

/// `c` is the collision `r`.
pub open spec fn collision_is(c: ImportCollision, r: CollisionRecord) -> bool {
    c.kind@ == r.kind.name_spec() && collision_record_of(c, r.kind) == r
}

/// The first owner of `(kind, id)`.
pub open spec fn find_owner(s: Seq<OwnerRecord>, kind: PrimitiveKind, id: Seq<char>) -> Option<int>
    decreases s.len(),
{
    if s.len() == 0 {
        None
    } else {
        match find_owner(s.drop_last(), kind, id) {
            Some(i) => Some(i),
            None => if s.last().kind == kind && s.last().id == id {
                Some(s.len() - 1)
            } else {
                None
            },
        }
    }
}

pub open spec fn disk_record(d: Option<DiskOwner>) -> Option<(Option<Seq<char>>, Option<Seq<char>>)> {
    match d {
        Some(o) => Some((opt_view(o.name), opt_view(o.scope))),
        None => None,
    }
}

/// The dedup rule for one row: a hash already owned in this import with a
/// different name or scope is a same-import collision (the owner stays); a
/// hash first met here whose file on disk (outside a dry run) records a
/// different name or scope is an existing collision, and the disk's owner
/// is remembered; otherwise the row owns the hash. Gives the collision, if
/// any, and the owners after the row.
pub open spec fn check_spec(
    seen: Seq<OwnerRecord>,
    kind: PrimitiveKind,
    id: Seq<char>,
    name: Seq<char>,
    scope: Option<Seq<char>>,
    row: int,
    disk: Option<(Option<Seq<char>>, Option<Seq<char>>)>,
    dry_run: bool,
) -> (Option<CollisionRecord>, Seq<OwnerRecord>) {
    match find_owner(seen, kind, id) {
        Some(i) => if seen[i].name != name || seen[i].scope != scope {
            (
                Some(
                    CollisionRecord {
                        kind,
                        row,
                        hash: id,
                        kept_name: seen[i].name,
                        kept_scope: seen[i].scope,
                        dropped_name: name,
                        dropped_scope: scope,
                        origin: CollisionOrigin::SameImport,
                    },
                ),
                seen,
            )
        } else {
            (None, seen)
        },
        None => if !dry_run && disk is Some && (disk.unwrap().0 != Some(name) || disk.unwrap().1
            != scope) {
            let kept = match disk.unwrap().0 {
                Some(n) => n,
                None => "<unknown>"@,
            };
            (
                Some(
                    CollisionRecord {
                        kind,
                        row,
                        hash: id,
                        kept_name: kept,
                        kept_scope: disk.unwrap().1,
                        dropped_name: name,
                        dropped_scope: scope,
                        origin: CollisionOrigin::Existing,
                    },
                ),
                seen.push(OwnerRecord { kind, id, name: kept, scope: disk.unwrap().1 }),
            )
        } else {
            (None, seen.push(OwnerRecord { kind, id, name, scope }))
        },
    }
}

fn opt_string_eq(a: &Option<String>, b: &Option<String>) -> (r: bool)
    ensures
        r == (opt_view(*a) == opt_view(*b)),
{
    match (a, b) {
        (Some(x), Some(y)) => str_eq(x.as_str(), y.as_str()),
        (None, None) => true,
        _ => false,
    }
}

fn clone_opt(a: &Option<String>) -> (r: Option<String>)
    ensures
        opt_view(r) == opt_view(*a),
{
    match a {
        Some(x) => Some(owned(x.as_str())),
        None => None,
    }
}

fn find_owner_index(seen: &Vec<SeenOwner>, kind: PrimitiveKind, id: &str) -> (r: Option<usize>)
    ensures
        match r {
            Some(i) => find_owner(owner_records(seen@), kind, id@) == Some(i as int) && i
                < seen@.len(),
            None => find_owner(owner_records(seen@), kind, id@) is None,
        },
{
    let mut i: usize = 0;
    while i < seen.len()
        invariant
            i <= seen.len(),
            find_owner(owner_records(seen@).take(i as int), kind, id@) is None,
        decreases seen.len() - i,
    {
        let ghost s = owner_records(seen@);
        proof {
            assert(s.take(i + 1).drop_last() =~= s.take(i as int));
        }
        if seen[i].kind == kind && str_eq(seen[i].id.as_str(), id) {
            proof {
                lemma_find_owner_extends(s, i + 1, kind, id@);
            }
            return Some(i);
        }
        i += 1;
    }
    assert(owner_records(seen@).take(i as int) =~= owner_records(seen@));
    None
}

/// A found owner is in range and is of that kind and hash.
pub proof fn lemma_find_owner_bounds(s: Seq<OwnerRecord>, kind: PrimitiveKind, id: Seq<char>)
    ensures
        find_owner(s, kind, id) matches Some(i) ==> 0 <= i < s.len() && s[i].kind == kind
            && s[i].id == id,
        find_owner(s, kind, id) is None ==> forall|k: int|
            0 <= k < s.len() ==> !((#[trigger] s[k]).kind == kind && s[k].id == id),
    decreases s.len(),
{
    if s.len() > 0 {
        lemma_find_owner_bounds(s.drop_last(), kind, id);
        if find_owner(s, kind, id) is None {
            assert forall|k: int| 0 <= k < s.len() implies !((#[trigger] s[k]).kind == kind
                && s[k].id == id) by {
                if k < s.len() - 1 {
                    assert(s[k] == s.drop_last()[k]);
                }
            }
        }
    }
}

/// Finding in a prefix that already has the owner finds the same one.
pub proof fn lemma_find_owner_extends(s: Seq<OwnerRecord>, n: int, kind: PrimitiveKind, id: Seq<
    char,
>)
    requires
        0 <= n <= s.len(),
        find_owner(s.take(n), kind, id) is Some,
    ensures
        find_owner(s, kind, id) == find_owner(s.take(n), kind, id),
    decreases s.len() - n,
{
    if n < s.len() {
        assert(s.take(n + 1).drop_last() =~= s.take(n));
        lemma_find_owner_extends(s, n + 1, kind, id);
    } else {
        assert(s.take(n) =~= s);
    }
}

/// Applies the dedup rule to one row, remembering its owner.
pub fn check_collision(
    kind: PrimitiveKind,
    id: &str,
    name: &str,
    scope: &Option<String>,
    row: usize,
    seen: &mut Vec<SeenOwner>,
    on_disk: &Option<DiskOwner>,
    dry_run: bool,
) -> (c: Option<ImportCollision>)
    ensures
        ({
            let (expected, after) = check_spec(
                owner_records(old(seen)@),
                kind,
                id@,
                name@,
                opt_view(*scope),
                row as int,
                disk_record(*on_disk),
                dry_run,
            );
            &&& owner_records(final(seen)@) == after
            &&& match c {
                Some(x) => expected matches Some(r) && collision_is(x, r),
                None => expected is None,
            }
        }),
{
    let ghost before = seen@;
    match find_owner_index(seen, kind, id) {
        Some(i) => {
            let kept_name = owned(seen[i].name.as_str());
            let kept_scope = clone_opt(&seen[i].scope);
            proof {
                assert(owner_records(seen@)[i as int] == owner_record(seen@[i as int]));
            }
            if !str_eq(kept_name.as_str(), name) || !opt_string_eq(&kept_scope, scope) {
                return Some(
                    ImportCollision {
                        kind: kind.name(),
                        row,
                        hash: owned(id),
                        kept_name,
                        kept_scope,
                        dropped_name: owned(name),
                        dropped_scope: clone_opt(scope),
                        origin: CollisionOrigin::SameImport,
                    },
                );
            }
            return None;
        },
        None => {},
    }
    if !dry_run {
        match on_disk {
            Some(d) => {
                let same_name = match &d.name {
                    Some(n) => str_eq(n.as_str(), name),
                    None => false,
                };
                if !same_name || !opt_string_eq(&d.scope, scope) {
                    let kept_name = match &d.name {
                        Some(n) => owned(n.as_str()),
                        None => owned("<unknown>"),
                    };
                    let collision = ImportCollision {
                        kind: kind.name(),
                        row,
                        hash: owned(id),
                        kept_name: owned(kept_name.as_str()),
                        kept_scope: clone_opt(&d.scope),
                        dropped_name: owned(name),
                        dropped_scope: clone_opt(scope),
                        origin: CollisionOrigin::Existing,
                    };
                    let owner = SeenOwner {
                        kind,
                        id: owned(id),
                        name: kept_name,
                        scope: clone_opt(&d.scope),
                    };
                    seen.push(owner);
                    proof {
                        assert(owner_records(seen@) =~= owner_records(before).push(
                            owner_record(owner),
                        ));
                    }
                    return Some(collision);
                }
            },
            None => {},
        }
    }
    let owner = SeenOwner { kind, id: owned(id), name: owned(name), scope: clone_opt(scope) };
    seen.push(owner);
    proof {
        assert(owner_records(seen@) =~= owner_records(before).push(owner_record(owner)));
    }
    None
}

// ---------------------------------------------------------------------------
// Planning an import
// ---------------------------------------------------------------------------

/// One CSV row as the planner reads it: its kind (unknown types are
/// skipped), name, scope, content hash, and the owner recorded in the file
/// of that hash on disk, if one exists.
#[derive(Debug, Clone)]
pub struct ImportRow {
    pub kind: Option<PrimitiveKind>,
    pub name: String,
    pub scope: Option<String>,
    pub id: String,
    pub on_disk: Option<DiskOwner>,
}

/// An import in progress, as plain values.
pub struct PlanModel {
    pub seen: Seq<OwnerRecord>,
    pub components: int,
    pub outcomes: int,
    pub tradeoffs: int,
    pub skipped: int,
    pub collisions: Seq<CollisionRecord>,
    /// The rows accepted, in order.
    pub saves: Seq<int>,
    /// The collision that a strict import stopped at.
    pub stopped: Option<CollisionRecord>,
}

pub open spec fn initial_model() -> PlanModel {
    PlanModel {
        seen: Seq::empty(),
        components: 0,
        outcomes: 0,
        tradeoffs: 0,
        skipped: 0,
        collisions: Seq::empty(),
        saves: Seq::empty(),
        stopped: None,
    }
}

/// What one row does: an unknown type is skipped; a collision is recorded
/// and the row skipped, or, in a strict import, stops it; otherwise the row
/// is saved and counted under its kind. Nothing happens after a stop.
pub open spec fn import_step(
    m: PlanModel,
    row: ImportRow,
    i: int,
    dry_run: bool,
    strict: bool,
) -> PlanModel {
    if m.stopped is Some {
        m
    } else {
        match row.kind {
            None => PlanModel { skipped: m.skipped + 1, ..m },
            Some(k) => {
                let (c, seen2) = check_spec(
                    m.seen,
                    k,
                    row.id@,
                    row.name@,
                    opt_view(row.scope),
                    i + 1,
                    disk_record(row.on_disk),
                    dry_run,
                );
                match c {
                    Some(coll) => if strict {
                        PlanModel { seen: seen2, stopped: Some(coll), ..m }
                    } else {
                        PlanModel {
                            seen: seen2,
                            collisions: m.collisions.push(coll),
                            skipped: m.skipped + 1,
                            ..m
                        }
                    },
                    None => match k {
                        PrimitiveKind::Component => PlanModel {
                            seen: seen2,
                            saves: m.saves.push(i),
                            components: m.components + 1,
                            ..m
                        },
                        PrimitiveKind::Outcome => PlanModel {
                            seen: seen2,
                            saves: m.saves.push(i),
                            outcomes: m.outcomes + 1,
                            ..m
                        },
                        PrimitiveKind::Tradeoff => PlanModel {
                            seen: seen2,
                            saves: m.saves.push(i),
                            tradeoffs: m.tradeoffs + 1,
                            ..m
                        },
                    },
                }
            },
        }
    }
}

/// The import after its first `n` rows.
pub open spec fn import_fold(rows: Seq<ImportRow>, n: int, dry_run: bool, strict: bool) -> PlanModel
    decreases n,
{
    if n <= 0 {
        initial_model()
    } else {
        import_step(import_fold(rows, n - 1, dry_run, strict), rows[n - 1], n - 1, dry_run, strict)
    }
}

/// What an import does with its rows.
#[derive(Debug, Clone)]
pub struct ImportPlan {
    pub counts: ImportCounts,
    pub collisions: Vec<ImportCollision>,
    /// The rows accepted, in order: saved, or on a dry run listed.
    pub saves: Vec<usize>,
    /// The collision a strict import stopped at; rows after it are not read.
    pub stopped: Option<ImportCollision>,
}

/// `p` is the model `m`.
pub open spec fn plan_is(p: ImportPlan, m: PlanModel) -> bool {
    &&& p.counts.role_components == m.components
    &&& p.counts.desired_outcomes == m.outcomes
    &&& p.counts.trade_off_configs == m.tradeoffs
    &&& p.counts.skipped == m.skipped
    &&& p.collisions@.len() == m.collisions.len()
    &&& forall|k: int|
        0 <= k < m.collisions.len() ==> collision_is(#[trigger] p.collisions@[k], m.collisions[k])
    &&& p.saves@.len() == m.saves.len()
    &&& forall|k: int| 0 <= k < m.saves.len() ==> #[trigger] p.saves@[k] == m.saves[k]
    &&& match p.stopped {
        Some(c) => m.stopped matches Some(r) && collision_is(c, r),
        None => m.stopped is None,
    }
}

/// Counted rows never outnumber the rows read, and each save is counted.
pub proof fn lemma_fold_counts(rows: Seq<ImportRow>, n: int, dry_run: bool, strict: bool)
    requires
        0 <= n <= rows.len(),
    ensures
        ({
            let m = import_fold(rows, n, dry_run, strict);
            &&& 0 <= m.components && 0 <= m.outcomes && 0 <= m.tradeoffs && 0 <= m.skipped
            &&& m.components + m.outcomes + m.tradeoffs + m.skipped <= n
            &&& m.stopped is None ==> m.components + m.outcomes + m.tradeoffs + m.skipped == n
            &&& m.saves.len() == m.components + m.outcomes + m.tradeoffs
            &&& forall|k: int| 0 <= k < m.saves.len() ==> 0 <= #[trigger] m.saves[k] < n
            &&& strict ==> m.collisions.len() == 0
        }),
    decreases n,
{
    if n > 0 {
        lemma_fold_counts(rows, n - 1, dry_run, strict);
    }
}

/// After a strict import stops, later rows change nothing.
pub proof fn lemma_fold_stays_stopped(
    rows: Seq<ImportRow>,
    i: int,
    n: int,
    dry_run: bool,
    strict: bool,
)
    requires
        0 <= i <= n <= rows.len(),
        import_fold(rows, i, dry_run, strict).stopped is Some,
    ensures
        import_fold(rows, n, dry_run, strict) == import_fold(rows, i, dry_run, strict),
    decreases n - i,
{
    if n > i {
        lemma_fold_stays_stopped(rows, i, n - 1, dry_run, strict);
    }
}

/// Plans an import of `rows`: the counts, the collisions, which rows to
/// save, and where a strict import stops.
pub fn plan_import(rows: &Vec<ImportRow>, dry_run: bool, strict: bool) -> (p: ImportPlan)
    requires
        rows@.len() <= u32::MAX,
    ensures
        plan_is(p, import_fold(rows@, rows@.len() as int, dry_run, strict)),
{
    let mut seen: Vec<SeenOwner> = Vec::new();
    let mut counts = ImportCounts::default();
    let mut collisions: Vec<ImportCollision> = Vec::new();
    let mut saves: Vec<usize> = Vec::new();
    let mut i: usize = 0;
    assert(owner_records(seen@) =~= Seq::<OwnerRecord>::empty());
    while i < rows.len()
        invariant
            i <= rows.len() <= u32::MAX,
            import_fold(rows@, i as int, dry_run, strict).stopped is None,
            owner_records(seen@) == import_fold(rows@, i as int, dry_run, strict).seen,
            plan_is(
                ImportPlan { counts, collisions, saves, stopped: None },
                import_fold(rows@, i as int, dry_run, strict),
            ),
        decreases rows.len() - i,
    {
        proof {
            lemma_fold_counts(rows@, i as int, dry_run, strict);
        }
        let ghost m = import_fold(rows@, i as int, dry_run, strict);
        let row = &rows[i];
        match row.kind {
            None => {
                counts.skipped = counts.skipped + 1;
            },
            Some(k) => {
                let c = check_collision(
                    k,
                    row.id.as_str(),
                    row.name.as_str(),
                    &row.scope,
                    i + 1,
                    &mut seen,
                    &row.on_disk,
                    dry_run,
                );
                match c {
                    Some(coll) => {
                        if strict {
                            proof {
                                lemma_fold_stays_stopped(
                                    rows@,
                                    i + 1,
                                    rows@.len() as int,
                                    dry_run,
                                    strict,
                                );
                            }
                            return ImportPlan { counts, collisions, saves, stopped: Some(coll) };
                        }
                        collisions.push(coll);
                        counts.skipped = counts.skipped + 1;
                    },
                    None => {
                        saves.push(i);
                        match k {
                            PrimitiveKind::Component => {
                                counts.role_components = counts.role_components + 1;
                            },
                            PrimitiveKind::Outcome => {
                                counts.desired_outcomes = counts.desired_outcomes + 1;
                            },
                            PrimitiveKind::Tradeoff => {
                                counts.trade_off_configs = counts.trade_off_configs + 1;
                            },
                        }
                    },
                }
            },
        }
        i += 1;
    }
    ImportPlan { counts, collisions, saves, stopped: None }
}

// ---------------------------------------------------------------------------
// Laws of an import
// ---------------------------------------------------------------------------

/// Every saved row is owned, under its kind and hash, with its own name and
/// scope.
pub open spec fn saves_owned(rows: Seq<ImportRow>, m: PlanModel) -> bool {
    forall|x: int|
        0 <= x < m.saves.len() ==> {
            let r = rows[#[trigger] m.saves[x]];
            &&& r.kind is Some
            &&& find_owner(m.seen, r.kind.unwrap(), r.id@) matches Some(o) && m.seen[o].name
                == r.name@ && m.seen[o].scope == opt_view(r.scope)
        }
}

/// An owner found before a push is still the one found after it.
pub proof fn lemma_find_owner_push(
    s: Seq<OwnerRecord>,
    x: OwnerRecord,
    kind: PrimitiveKind,
    id: Seq<char>,
)
    ensures
        find_owner(s.push(x), kind, id) == (if find_owner(s, kind, id) is Some {
            find_owner(s, kind, id)
        } else if x.kind == kind && x.id == id {
            Some(s.len() as int)
        } else {
            None
        }),
{
    assert(s.push(x).drop_last() =~= s);
}

proof fn lemma_fold_saves_owned(rows: Seq<ImportRow>, n: int, dry_run: bool, strict: bool)
    requires
        0 <= n <= rows.len(),
    ensures
        saves_owned(rows, import_fold(rows, n, dry_run, strict)),
    decreases n,
{
    if n > 0 {
        lemma_fold_saves_owned(rows, n - 1, dry_run, strict);
        lemma_fold_counts(rows, n - 1, dry_run, strict);
        let m = import_fold(rows, n - 1, dry_run, strict);
        let m2 = import_fold(rows, n, dry_run, strict);
        let row = rows[n - 1];
        if m.stopped is None && row.kind is Some {
            let k = row.kind.unwrap();
            let (c, seen2) = check_spec(
                m.seen,
                k,
                row.id@,
                row.name@,
                opt_view(row.scope),
                n,
                disk_record(row.on_disk),
                dry_run,
            );
            lemma_find_owner_bounds(m.seen, k, row.id@);
            assert forall|x: int| 0 <= x < m2.saves.len() implies {
                let r = rows[#[trigger] m2.saves[x]];
                &&& r.kind is Some
                &&& find_owner(m2.seen, r.kind.unwrap(), r.id@) matches Some(o) && m2.seen[o].name
                    == r.name@ && m2.seen[o].scope == opt_view(r.scope)
            } by {
                if x < m.saves.len() {
                    let r = rows[m.saves[x]];
                    assert(m2.saves[x] == m.saves[x]);
                    let o = find_owner(m.seen, r.kind.unwrap(), r.id@).unwrap();
                    lemma_find_owner_bounds(m.seen, r.kind.unwrap(), r.id@);
                    if seen2 != m.seen {
                        let pushed = seen2.last();
                        assert(seen2 =~= m.seen.push(pushed));
                        lemma_find_owner_push(m.seen, pushed, r.kind.unwrap(), r.id@);
                        assert(seen2[o] == m.seen[o]);
                    }
                } else {
                    assert(m2.saves[x] == n - 1);
                    let pushed = OwnerRecord {
                        kind: k,
                        id: row.id@,
                        name: row.name@,
                        scope: opt_view(row.scope),
                    };
                    if find_owner(m.seen, k, row.id@) is None {
                        assert(seen2 == m.seen.push(pushed));
                        lemma_find_owner_push(m.seen, pushed, k, row.id@);
                    }
                }
            }
        }
    }
}

/// Dedup, first write wins: two saved rows of one kind with one content
/// hash carry the same name and scope, so an import never overwrites a
/// primitive with a differently named or scoped one.
pub proof fn law_saved_rows_agree_on_owner(rows: Seq<ImportRow>, dry_run: bool, strict: bool)
    ensures
        ({
            let m = import_fold(rows, rows.len() as int, dry_run, strict);
            forall|x: int, y: int|
                0 <= x < m.saves.len() && 0 <= y < m.saves.len() && rows[#[trigger] m.saves[x]].kind
                    == rows[#[trigger] m.saves[y]].kind && rows[m.saves[x]].id@
                    == rows[m.saves[y]].id@ ==> rows[m.saves[x]].name@ == rows[m.saves[y]].name@
                    && opt_view(rows[m.saves[x]].scope) == opt_view(rows[m.saves[y]].scope)
        }),
{
    lemma_fold_saves_owned(rows, rows.len() as int, dry_run, strict);
}

/// Every row is accounted for: an import that ran to its end counts each
/// row once, as a saved primitive of its kind or as skipped, and saves
/// exactly the counted primitives.
pub proof fn law_import_counts_every_row(rows: Seq<ImportRow>, dry_run: bool, strict: bool)
    ensures
        ({
            let m = import_fold(rows, rows.len() as int, dry_run, strict);
            &&& m.stopped is None ==> m.components + m.outcomes + m.tradeoffs + m.skipped
                == rows.len()
            &&& m.saves.len() == m.components + m.outcomes + m.tradeoffs
        }),
{
    lemma_fold_counts(rows, rows.len() as int, dry_run, strict);
}

/// A strict import records no collision: the first one stops it.
pub proof fn law_strict_import_records_no_collision(rows: Seq<ImportRow>, dry_run: bool)
    ensures
        import_fold(rows, rows.len() as int, dry_run, true).collisions.len() == 0,
{
    lemma_fold_counts(rows, rows.len() as int, dry_run, true);
}

/// The rows an import accepted are kept, in order, by every longer run.
proof fn lemma_fold_saves_grow(rows: Seq<ImportRow>, n: int, big: int, dry_run: bool, strict: bool)
    requires
        0 <= n <= big <= rows.len(),
    ensures
        import_fold(rows, n, dry_run, strict).saves.len() <= import_fold(
            rows,
            big,
            dry_run,
            strict,
        ).saves.len(),
        forall|x: int|
            0 <= x < import_fold(rows, n, dry_run, strict).saves.len() ==> #[trigger] import_fold(
                rows,
                big,
                dry_run,
                strict,
            ).saves[x] == import_fold(rows, n, dry_run, strict).saves[x],
    decreases big - n,
{
    if n < big {
        lemma_fold_saves_grow(rows, n + 1, big, dry_run, strict);
    }
}

/// The store that an import wrote, as one row of a later import finds it:
/// the file of the row's kind and hash exists exactly when the import saved
/// a row of that kind and hash, and records that row's name and scope.
pub open spec fn disk_after(
    rows: Seq<ImportRow>,
    m: PlanModel,
    kind: PrimitiveKind,
    id: Seq<char>,
    disk: Option<(Option<Seq<char>>, Option<Seq<char>>)>,
) -> bool {
    &&& (disk is Some <==> exists|x: int|
        0 <= x < m.saves.len() && rows[#[trigger] m.saves[x]].kind == Some(kind)
            && rows[m.saves[x]].id@ == id)
    &&& forall|x: int|
        0 <= x < m.saves.len() && rows[#[trigger] m.saves[x]].kind == Some(kind)
            && rows[m.saves[x]].id@ == id ==> disk == Some(
            (Some(rows[m.saves[x]].name@), opt_view(rows[m.saves[x]].scope)),
        )
}

/// The rows of `again` are those of `first`, each now finding the store
/// that the import of `first` wrote.
pub open spec fn reimport_of(first: Seq<ImportRow>, again: Seq<ImportRow>, strict: bool) -> bool {
    let m = import_fold(first, first.len() as int, false, strict);
    &&& again.len() == first.len()
    &&& forall|k: int|
        0 <= k < first.len() ==> {
            &&& (#[trigger] again[k]).kind == first[k].kind
            &&& again[k].name@ == first[k].name@
            &&& opt_view(again[k].scope) == opt_view(first[k].scope)
            &&& again[k].id@ == first[k].id@
            &&& again[k].kind matches Some(kd) ==> disk_after(
                first,
                m,
                kd,
                again[k].id@,
                disk_record(again[k].on_disk),
            )
        }
}

proof fn lemma_reimport_prefix(
    first: Seq<ImportRow>,
    again: Seq<ImportRow>,
    n: int,
    dry_run: bool,
    strict: bool,
)
    requires
        0 <= n <= first.len(),
        forall|k: int| 0 <= k < first.len() ==> (#[trigger] first[k]).on_disk is None,
        reimport_of(first, again, strict),
    ensures
        import_fold(again, n, dry_run, strict) == import_fold(first, n, false, strict),
    decreases n,
{
    if n > 0 {
        lemma_reimport_prefix(first, again, n - 1, dry_run, strict);
        let m = import_fold(first, n - 1, false, strict);
        let r1 = first[n - 1];
        let r2 = again[n - 1];
        if m.stopped is None && r1.kind is Some {
            let k = r1.kind.unwrap();
            if find_owner(m.seen, k, r1.id@) is None {
                // The first import saved this row, so its file records it.
                let m1 = import_fold(first, n, false, strict);
                let full = import_fold(first, first.len() as int, false, strict);
                assert(m1.saves.last() == n - 1);
                lemma_fold_saves_grow(first, n, first.len() as int, false, strict);
                let x = m1.saves.len() - 1;
                assert(full.saves[x] == n - 1);
                assert(disk_after(first, full, k, r2.id@, disk_record(r2.on_disk)));
                assert(disk_record(r2.on_disk) == Some((Some(r1.name@), opt_view(r1.scope))));
            }
        }
    }
}

/// Importing the same rows again over the store that a first import (into
/// an empty store) wrote decides the same: the same counts, the same rows
/// saved, the same collisions, and the same stop. Content hashing keeps a
/// re-import from duplicating anything.
pub proof fn law_reimport_decides_the_same(
    first: Seq<ImportRow>,
    again: Seq<ImportRow>,
    dry_run: bool,
    strict: bool,
)
    requires
        forall|k: int| 0 <= k < first.len() ==> (#[trigger] first[k]).on_disk is None,
        reimport_of(first, again, strict),
    ensures
        ({
            let m1 = import_fold(first, first.len() as int, false, strict);
            let m2 = import_fold(again, again.len() as int, dry_run, strict);
            &&& m2.components == m1.components
            &&& m2.outcomes == m1.outcomes
            &&& m2.tradeoffs == m1.tradeoffs
            &&& m2.skipped == m1.skipped
            &&& m2.saves == m1.saves
            &&& m2.collisions == m1.collisions
            &&& m2.stopped == m1.stopped
        }),
{
    lemma_reimport_prefix(first, again, first.len() as int, dry_run, strict);
}

// ---------------------------------------------------------------------------
// Collision messages
// ---------------------------------------------------------------------------

pub open spec fn scope_text(scope: Option<String>) -> Seq<char> {
    match scope {
        Some(s) => s@,
        None => "<none>"@,
    }
}

pub open spec fn origin_text(o: CollisionOrigin) -> Seq<char> {
    match o {
        CollisionOrigin::SameImport => "earlier row in this import"@,
        CollisionOrigin::Existing => "existing on-disk primitive"@,
    }
}

fn push_scope(out: &mut String, scope: &Option<String>)
    ensures
        final(out)@ == old(out)@ + scope_text(*scope),
{
    match scope {
        Some(s) => out.append(s.as_str()),
        None => out.append("<none>"),
    }
}

/// The warning a skipped collision prints; `short_hash` is the graph's
/// short form of the colliding hash.
pub open spec fn collision_warning(c: ImportCollision, short_hash: Seq<char>) -> Seq<char> {
    "Warning: agency import collision (row "@ + decimal(c.row as nat) + "): "@ + c.kind@ + " '"@
        + c.dropped_name@ + "' (scope="@ + scope_text(c.dropped_scope) + ") shares description-hash "@
        + short_hash + " with "@ + origin_text(c.origin) + " '"@ + c.kept_name@ + "' (scope="@
        + scope_text(c.kept_scope) + "); skipping"@
}

pub fn format_collision_warning(c: &ImportCollision, short_hash: &str) -> (m: String)
    ensures
        m@ == collision_warning(*c, short_hash@),
{
    let mut m = owned("Warning: agency import collision (row ");
    push_decimal(&mut m, c.row as u64);
    m.append("): ");
    m.append(c.kind);
    m.append(" '");
    m.append(c.dropped_name.as_str());
    m.append("' (scope=");
    push_scope(&mut m, &c.dropped_scope);
    m.append(") shares description-hash ");
    m.append(short_hash);
    m.append(" with ");
    match c.origin {
        CollisionOrigin::SameImport => m.append("earlier row in this import"),
        CollisionOrigin::Existing => m.append("existing on-disk primitive"),
    }
    m.append(" '");
    m.append(c.kept_name.as_str());
    m.append("' (scope=");
    push_scope(&mut m, &c.kept_scope);
    m.append("); skipping");
    m
}

/// The error a strict import stops with.
pub open spec fn strict_error(c: ImportCollision, short_hash: Seq<char>) -> Seq<char> {
    "agency import --strict: row "@ + decimal(c.row as nat) + " "@ + c.kind@ + " '"@
        + c.dropped_name@ + "' (scope="@ + scope_text(c.dropped_scope)
        + ") collides on description-hash "@ + short_hash + " with '"@ + c.kept_name@ + "' (scope="@
        + scope_text(c.kept_scope) + ")"@
}

pub fn format_strict_error(c: &ImportCollision, short_hash: &str) -> (m: String)
    ensures
        m@ == strict_error(*c, short_hash@),
{
    let mut m = owned("agency import --strict: row ");
    push_decimal(&mut m, c.row as u64);
    m.append(" ");
    m.append(c.kind);
    m.append(" '");
    m.append(c.dropped_name.as_str());
    m.append("' (scope=");
    push_scope(&mut m, &c.dropped_scope);
    m.append(") collides on description-hash ");
    m.append(short_hash);
    m.append(" with '");
    m.append(c.kept_name.as_str());
    m.append("' (scope=");
    push_scope(&mut m, &c.kept_scope);
    m.append(")");
    m
}

// ---------------------------------------------------------------------------
// Choosing the source, and when a pull imports
// ---------------------------------------------------------------------------

/// Where an import reads its CSV.
#[derive(Debug, Clone)]
pub enum ImportSource {
    /// A local file path.
    Local(String),
    /// A URL: the one given, or the configured upstream.
    Remote(String),
}

/// Why an import request is refused before anything is read.
#[derive(Debug, Clone)]
pub enum ImportRequestError {
    UnsupportedFormat(String),
    MultipleSources,
    NoSource,
    NoUpstreamUrl,
}

impl ImportRequestError {
    pub open spec fn message_spec(&self) -> Seq<char> {
        match self {
            ImportRequestError::UnsupportedFormat(f) => "Unsupported agency import format '"@ + f@
                + "'. Use: agency-csv"@,
            ImportRequestError::MultipleSources => "Specify only one of: CSV_PATH, --url, or --upstream"@,
            ImportRequestError::NoSource => "Specify one of: CSV_PATH, --url <URL>, or --upstream"@,
            ImportRequestError::NoUpstreamUrl => "No upstream URL configured. Set agency.upstream_url in config:\n  wg config --set agency.upstream_url=<URL>"@,
        }
    }

    pub fn message(&self) -> (m: String)
        ensures
            m@ == self.message_spec(),
    {
        match self {
            ImportRequestError::UnsupportedFormat(f) => {
                let mut m = owned("Unsupported agency import format '");
                m.append(f.as_str());
                m.append("'. Use: agency-csv");
                m
            },
            ImportRequestError::MultipleSources => owned(
                "Specify only one of: CSV_PATH, --url, or --upstream",
            ),
            ImportRequestError::NoSource => owned(
                "Specify one of: CSV_PATH, --url <URL>, or --upstream",
            ),
            ImportRequestError::NoUpstreamUrl => owned(
                "No upstream URL configured. Set agency.upstream_url in config:\n  wg config --set agency.upstream_url=<URL>",
            ),
        }
    }
}

pub open spec fn source_count(o: ImportOptions) -> int {
    (if o.csv_path is Some {
        1int
    } else {
        0
    }) + (if o.url is Some {
        1int
    } else {
        0
    }) + (if o.upstream {
        1int
    } else {
        0
    })
}

/// A format other than `agency-csv` or `auto` was asked for.
pub open spec fn format_refused(o: ImportOptions) -> bool {
    o.format matches Some(g) && g@ != "agency-csv"@ && g@ != "auto"@
}

/// The URL a remote import reads: the one given, else the configured upstream.
pub open spec fn remote_url(o: ImportOptions, upstream_url: Option<Seq<char>>) -> Option<Seq<char>> {
    match o.url {
        Some(v) => Some(v@),
        None => if o.upstream {
            upstream_url
        } else {
            None
        },
    }
}

pub open spec fn opt_str(o: Option<&str>) -> Option<Seq<char>> {
    match o {
        Some(s) => Some(s@),
        None => None,
    }
}

/// The source of an import request: only the `agency-csv` (or `auto`)
/// format, exactly one of a path, a URL or the upstream, and for the
/// upstream a configured URL.
pub fn resolve_import_source(opts: &ImportOptions, upstream_url: Option<&str>) -> (r: Result<
    ImportSource,
    ImportRequestError,
>)
    ensures
        match r {
            Err(ImportRequestError::UnsupportedFormat(f)) => format_refused(*opts) && f@
                == opts.format.unwrap()@,
            Err(ImportRequestError::MultipleSources) => !format_refused(*opts) && source_count(
                *opts,
            ) > 1,
            Err(ImportRequestError::NoSource) => !format_refused(*opts) && source_count(*opts)
                == 0,
            Err(ImportRequestError::NoUpstreamUrl) => !format_refused(*opts) && source_count(
                *opts,
            ) == 1 && opts.upstream && upstream_url is None,
            Ok(ImportSource::Local(p)) => !format_refused(*opts) && source_count(*opts) == 1
                && opts.csv_path is Some && p@ == opts.csv_path.unwrap()@,
            Ok(ImportSource::Remote(u)) => !format_refused(*opts) && source_count(*opts) == 1
                && opts.csv_path is None && remote_url(*opts, opt_str(upstream_url)) == Some(u@),
        },
{
    match &opts.format {
        Some(f) => {
            if !str_eq(f.as_str(), "agency-csv") && !str_eq(f.as_str(), "auto") {
                return Err(ImportRequestError::UnsupportedFormat(owned(f.as_str())));
            }
        },
        None => {},
    }
    let count: u8 = (if opts.csv_path.is_some() {
        1u8
    } else {
        0u8
    }) + (if opts.url.is_some() {
        1u8
    } else {
        0u8
    }) + (if opts.upstream {
        1u8
    } else {
        0u8
    });
    if count > 1 {
        return Err(ImportRequestError::MultipleSources);
    }
    match &opts.csv_path {
        Some(p) => {
            return Ok(ImportSource::Local(owned(p.as_str())));
        },
        None => {},
    }
    match &opts.url {
        Some(u) => Ok(ImportSource::Remote(owned(u.as_str()))),
        None => {
            if opts.upstream {
                match upstream_url {
                    Some(u) => Ok(ImportSource::Remote(owned(u))),
                    None => Err(ImportRequestError::NoUpstreamUrl),
                }
            } else {
                Err(ImportRequestError::NoSource)
            }
        },
    }
}

/// What a remote import does once the CSV is fetched.
#[derive(Debug, Clone)]
pub enum PullDecision {
    /// Import the fetched bytes.
    Import,
    /// Nothing changed: print this and report zero counts.
    UpToDate(String),
    /// A `--check` run: print this and exit with the code (0 changed, 1 up
    /// to date).
    Exit { code: i32, message: String },
}

/// Whether a remote import consults the manifest: unless forced, or when
/// only checking.
pub open spec fn compares_manifest(force: bool, check: bool) -> bool {
    !force || check
}

/// The first twelve bytes of a hash, as the messages show it.
pub open spec fn short12(h: Seq<char>) -> Seq<char> {
    byte_prefix(h, 12).unwrap()
}

fn short_of(h: &str) -> (r: String)
    requires
        byte_prefix(h@, 12) is Some,
    ensures
        r@ == short12(h@),
{
    match byte_prefix_of(h, 12) {
        Some(p) => p,
        None => String::new(),
    }
}

/// `d` is what a remote import decides once fetched: with `--check`, an
/// exit whose code and message compare the manifest's hash (when consulted
/// and found) with the fetched one; without it, "already up to date" when
/// not forced and the hashes agree, else an import.
pub open spec fn pull_decided(
    d: PullDecision,
    force: bool,
    check: bool,
    manifest_hash: Option<Seq<char>>,
    new_hash: Seq<char>,
) -> bool {
    match d {
        PullDecision::Exit { code, message } => check && (
        if compares_manifest(force, check) && manifest_hash is Some {
            let h = manifest_hash.unwrap();
            if h == new_hash {
                code == 1 && message@ == "Up to date (hash: "@ + short12(new_hash) + "…)"@
            } else {
                code == 0 && message@ == "Upstream has changed (local: "@ + short12(h)
                    + "… remote: "@ + short12(new_hash) + "…)"@
            }
        } else {
            code == 0 && message@ == "No previous import found; upstream available"@
        }),
        PullDecision::UpToDate(message) => !check && !force && manifest_hash is Some
            && manifest_hash.unwrap() == new_hash && message@ == "Already up to date (hash: "@
            + short12(new_hash) + "…)"@,
        PullDecision::Import => !check && (force || manifest_hash is None || manifest_hash.unwrap()
            != new_hash),
    }
}

/// Decides a remote import after the fetch. The hashes shown are cut at
/// their twelfth byte, which must be a character boundary.
pub fn pull_decision(force: bool, check: bool, manifest_hash: Option<&str>, new_hash: &str) -> (d:
    PullDecision)
    requires
        byte_prefix(new_hash@, 12) is Some,
        manifest_hash is Some && check && manifest_hash.unwrap()@ != new_hash@ ==> byte_prefix(
            manifest_hash.unwrap()@,
            12,
        ) is Some,
    ensures
        pull_decided(d, force, check, opt_str(manifest_hash), new_hash@),
{
    let consulted = if !force || check {
        manifest_hash
    } else {
        None
    };
    match consulted {
        Some(h) => {
            let same = str_eq(h, new_hash);
            if check {
                if same {
                    let mut m = owned("Up to date (hash: ");
                    let short = short_of(new_hash);
                    m.append(short.as_str());
                    m.append("…)");
                    return PullDecision::Exit { code: 1, message: m };
                } else {
                    let mut m = owned("Upstream has changed (local: ");
                    let local = short_of(h);
                    m.append(local.as_str());
                    m.append("… remote: ");
                    let remote = short_of(new_hash);
                    m.append(remote.as_str());
                    m.append("…)");
                    return PullDecision::Exit { code: 0, message: m };
                }
            }
            if !force && same {
                let mut m = owned("Already up to date (hash: ");
                let short = short_of(new_hash);
                m.append(short.as_str());
                m.append("…)");
                return PullDecision::UpToDate(m);
            }
            PullDecision::Import
        },
        None => {
            if check {
                return PullDecision::Exit {
                    code: 0,
                    message: owned("No previous import found; upstream available"),
                };
            }
            PullDecision::Import
        },
    }
}

/// Decides a remote import from the fetched CSV bytes, by their SHA-256 hex
/// digest. `None` where a `--check` run would show a manifest hash that
/// differs from the fetched one and cannot be cut at its twelfth byte.
pub fn pull_decision_for_bytes(
    force: bool,
    check: bool,
    manifest_hash: Option<&str>,
    csv_bytes: &[u8],
) -> (d: Option<PullDecision>)
    ensures
        match d {
            Some(x) => pull_decided(
                x,
                force,
                check,
                opt_str(manifest_hash),
                hex_lower(sha256(csv_bytes@)),
            ),
            None => check && manifest_hash is Some && manifest_hash.unwrap()@ != hex_lower(
                sha256(csv_bytes@),
            ) && byte_prefix(manifest_hash.unwrap()@, 12) is None,
        },
{
    let new_hash = sha256_hex(csv_bytes);
    proof {
        lemma_hex_lower_ascii(sha256(csv_bytes@));
        lemma_ascii_byte_prefix(new_hash@, 12);
    }
    if check {
        match manifest_hash {
            Some(h) => {
                if !str_eq(h, new_hash.as_str()) && byte_prefix_of(h, 12).is_none() {
                    return None;
                }
            },
            None => {},
        }
    }
    Some(pull_decision(force, check, manifest_hash, new_hash.as_str()))
}

/// A failed fetch: the warning to print, if any, and whether the command
/// exits with code 2 (when checking) rather than returning the error.
pub open spec fn fetch_failure_spec(check: bool, compared: bool, error: Seq<char>) -> (Option<
    Seq<char>,
>, bool) {
    if compared {
        (
            if check {
                Some("Warning: could not fetch upstream: "@ + error)
            } else {
                None
            },
            check,
        )
    } else {
        (Some("Warning: could not fetch upstream CSV: "@ + error), check)
    }
}

/// `compared` says whether the manifest was consulted and found.
pub fn fetch_failure(check: bool, compared: bool, error: &str) -> (r: (Option<String>, bool))
    ensures
        (opt_view(r.0), r.1) == fetch_failure_spec(check, compared, error@),
{
    if compared {
        if check {
            let mut m = owned("Warning: could not fetch upstream: ");
            m.append(error);
            (Some(m), true)
        } else {
            (None, false)
        }
    } else {
        let mut m = owned("Warning: could not fetch upstream CSV: ");
        m.append(error);
        (Some(m), check)
    }
}

// ---------------------------------------------------------------------------
// Reading the CSV
// ---------------------------------------------------------------------------

/// The header fields the csv crate reads from `text`, if it can.
pub uninterp spec fn csv_header_fields(text: Seq<char>) -> Option<Seq<Seq<char>>>;

/// The records the csv crate reads from `text` after its header, up to the
/// first one it cannot read, and whether it read them all.
pub uninterp spec fn csv_records_read(text: Seq<char>) -> (Seq<Seq<Seq<char>>>, bool);

pub open spec fn record_views(rows: Seq<Vec<String>>) -> Seq<Seq<Seq<char>>> {
    rows.map_values(|r: Vec<String>| views(r@))
}

/// `csv::Reader::headers` on a reader over `text`.
#[verifier::external_body]
fn csv_headers(text: &str) -> (r: Option<Vec<String>>)
    ensures
        match r {
            Some(h) => csv_header_fields(text@) == Some(views(h@)),
            None => csv_header_fields(text@) is None,
        },
{
    let mut reader = csv::Reader::from_reader(text.as_bytes());
    reader.headers().ok().map(|h| h.iter().map(String::from).collect())
}

/// `csv::Reader::records` on a reader over `text`, stopping at the first
/// record it cannot read.
#[verifier::external_body]
fn csv_records(text: &str) -> (r: (Vec<Vec<String>>, bool))
    ensures
        csv_records_read(text@) == (record_views(r.0@), r.1),
{
    let mut reader = csv::Reader::from_reader(text.as_bytes());
    let mut rows: Vec<Vec<String>> = Vec::new();
    for record in reader.records() {
        match record {
            Ok(fields) => rows.push(fields.iter().map(String::from).collect()),
            Err(_) => return (rows, false),
        }
    }
    (rows, true)
}

/// The CSV of an import: its header, the records read, and whether every
/// record could be read (else the import fails at the one after them).
#[derive(Debug, Clone)]
pub struct CsvTable {
    pub headers: Vec<String>,
    pub records: Vec<Vec<String>>,
    pub complete: bool,
}

/// Reads the CSV bytes (decoded lossily as UTF-8); `None` when the header
/// cannot be read.
pub fn read_csv_table(csv_bytes: &[u8]) -> (r: Option<CsvTable>)
    ensures
        match r {
            Some(t) => csv_header_fields(utf8_lossy(csv_bytes@)) == Some(views(t.headers@))
                && csv_records_read(utf8_lossy(csv_bytes@)) == (record_views(t.records@), t.complete),
            None => csv_header_fields(utf8_lossy(csv_bytes@)) is None,
        },
{
    let text = from_utf8_lossy(csv_bytes);
    match csv_headers(text.as_str()) {
        Some(headers) => {
            let (records, complete) = csv_records(text.as_str());
            Some(CsvTable { headers, records, complete })
        },
        None => None,
    }
}

/// The planner's view of a record: its kind and name, its scope (agency
/// layout only), and the hash and disk owner the caller found for it.
pub fn import_row(format: CsvFormat, record: &Vec<String>, id: String, on_disk: Option<DiskOwner>) -> (r:
    ImportRow)
    ensures
        r.kind == kind_of(field(views(record@), 0)),
        r.name@ == field(views(record@), 1),
        opt_view(r.scope) == (if format == CsvFormat::Agency {
            nonempty(field(views(record@), 8))
        } else {
            None
        }),
        r.id == id,
        r.on_disk == on_disk,
{
    let ptype = field_of(record, 0);
    let scope = match format {
        CsvFormat::Agency => nonempty_of(field_of(record, 8)),
        CsvFormat::Legacy => None,
    };
    ImportRow { kind: primitive_kind(ptype.as_str()), name: field_of(record, 1), scope, id, on_disk }
}

} // verus!

verus! {

/// An import of a read CSV table: its layout, its plan, and the row (1-based)
/// whose record could not be read, when the plan did not stop before it.
#[derive(Debug, Clone)]
pub struct ImportRun {
    pub format: CsvFormat,
    pub plan: ImportPlan,
    pub failed_row: Option<usize>,
    /// Whether the provenance manifest is written: only after every row was
    /// read and accepted by an import that is not a dry run.
    pub writes_manifest: bool,
}

/// `r` is the import of a read CSV (its header, its records, and whether
/// every record was read), each record with the content hash and disk owner
/// the caller found for it: the layout its header shows, the plan of its
/// records, the row that could not be read when the plan went on to it, and
/// a manifest only when the plan neither stopped nor met an unreadable row
/// and the import is not a dry run.
pub open spec fn run_of_table(
    r: ImportRun,
    headers: Seq<Seq<char>>,
    records: Seq<Seq<Seq<char>>>,
    complete: bool,
    row_ids: Seq<Seq<char>>,
    row_owners: Seq<Option<DiskOwner>>,
    dry_run: bool,
    strict: bool,
) -> bool {
    &&& r.format == format_of(headers)
    &&& exists|rows: Seq<ImportRow>|
        #![trigger import_fold(rows, rows.len() as int, dry_run, strict)]
        rows.len() == records.len() && (forall|k: int|
            0 <= k < rows.len() ==> {
                let rec = #[trigger] records[k];
                &&& rows[k].kind == kind_of(field(rec, 0))
                &&& rows[k].name@ == field(rec, 1)
                &&& opt_view(rows[k].scope) == (if r.format == CsvFormat::Agency {
                    nonempty(field(rec, 8))
                } else {
                    None
                })
                &&& rows[k].id@ == row_ids[k]
                &&& disk_record(rows[k].on_disk) == disk_record(row_owners[k])
            }) && plan_is(r.plan, import_fold(rows, rows.len() as int, dry_run, strict))
    &&& r.failed_row == if !complete && r.plan.stopped is None {
        Some((records.len() + 1) as usize)
    } else {
        None::<usize>
    }
    &&& r.writes_manifest == (!dry_run && r.plan.stopped is None && r.failed_row is None)
}

fn copy_owner(o: &Option<DiskOwner>) -> (r: Option<DiskOwner>)
    ensures
        disk_record(r) == disk_record(*o),
{
    match o {
        Some(d) => Some(
            DiskOwner {
                name: match &d.name {
                    Some(n) => Some(owned(n.as_str())),
                    None => None,
                },
                scope: match &d.scope {
                    Some(x) => Some(owned(x.as_str())),
                    None => None,
                },
            },
        ),
        None => None,
    }
}

/// Imports a read CSV table: the layout its header shows, the plan of its
/// records (each with the content hash and disk owner the caller found for
/// it), and, when a record could not be read and the plan went on to it,
/// that record's row.
pub fn run_from_table(
    table: &CsvTable,
    row_ids: &Vec<String>,
    row_owners: &Vec<Option<DiskOwner>>,
    dry_run: bool,
    strict: bool,
) -> (r: ImportRun)
    requires
        row_ids@.len() == table.records@.len(),
        row_owners@.len() == table.records@.len(),
        table.records@.len() < u32::MAX,
    ensures
        run_of_table(
            r,
            views(table.headers@),
            record_views(table.records@),
            table.complete,
            views(row_ids@),
            row_owners@,
            dry_run,
            strict,
        ),
{
    let format = detect_format(&table.headers);
    let mut rows: Vec<ImportRow> = Vec::new();
    let mut i: usize = 0;
    while i < table.records.len()
        invariant
            i <= table.records@.len(),
            row_ids@.len() == table.records@.len(),
            row_owners@.len() == table.records@.len(),
            rows@.len() == i,
            forall|k: int|
                0 <= k < i ==> {
                    let rec = views(#[trigger] table.records@[k]@);
                    &&& rows@[k].kind == kind_of(field(rec, 0))
                    &&& rows@[k].name@ == field(rec, 1)
                    &&& opt_view(rows@[k].scope) == (if format == CsvFormat::Agency {
                        nonempty(field(rec, 8))
                    } else {
                        None
                    })
                    &&& rows@[k].id@ == row_ids@[k]@
                    &&& disk_record(rows@[k].on_disk) == disk_record(row_owners@[k])
                },
        decreases table.records@.len() - i,
    {
        let row = import_row(
            format,
            &table.records[i],
            owned(row_ids[i].as_str()),
            copy_owner(&row_owners[i]),
        );
        rows.push(row);
        i += 1;
    }
    let plan = plan_import(&rows, dry_run, strict);
    let failed_row = if !table.complete && plan.stopped.is_none() {
        Some(table.records.len() + 1)
    } else {
        None
    };
    let writes_manifest = !dry_run && plan.stopped.is_none() && failed_row.is_none();
    let r = ImportRun { format, plan, failed_row, writes_manifest };
    proof {
        let recs = record_views(table.records@);
        assert forall|k: int| 0 <= k < recs.len() implies #[trigger] recs[k] == views(table.records@[k]@) by {}
        let rows_s = rows@;
        assert(rows_s.len() == recs.len() && (forall|k: int|
            0 <= k < rows_s.len() ==> {
                let rec = #[trigger] recs[k];
                &&& rows_s[k].kind == kind_of(field(rec, 0))
                &&& rows_s[k].name@ == field(rec, 1)
                &&& opt_view(rows_s[k].scope) == (if r.format == CsvFormat::Agency {
                    nonempty(field(rec, 8))
                } else {
                    None
                })
                &&& rows_s[k].id@ == views(row_ids@)[k]
                &&& disk_record(rows_s[k].on_disk) == disk_record(row_owners@[k])
            }) && plan_is(r.plan, import_fold(rows_s, rows_s.len() as int, dry_run, strict)));
    }
    r
}

/// A non-strict import never stops.
proof fn lemma_lenient_never_stops(rows: Seq<ImportRow>, n: int, dry_run: bool)
    ensures
        import_fold(rows, n, dry_run, false).stopped is None,
    decreases n,
{
    if n > 0 {
        lemma_lenient_never_stops(rows, n - 1, dry_run);
    }
}

/// Imports CSV bytes, each record with the content hash and disk owner the
/// caller found for it. An unreadable header is refused. Otherwise the run
/// is the import of the records read: a strict import stops at its first
/// collision (writing no manifest); when neither a stop nor the end of the
/// records came before an unreadable record, the import fails at that row
/// (rows before it were imported, no manifest is written). `None` when the
/// hashes or owners given do not match the records read one for one (or
/// the records are too many to count).
pub fn run_from_bytes_with(
    csv_bytes: &[u8],
    row_ids: &Vec<String>,
    row_owners: &Vec<Option<DiskOwner>>,
    dry_run: bool,
    strict: bool,
) -> (r: Option<Result<ImportRun, String>>)
    ensures
        match csv_header_fields(utf8_lossy(csv_bytes@)) {
            None => r matches Some(Err(m)) && m@ == "Failed to read CSV headers"@,
            Some(h) => {
                let (recs, complete) = csv_records_read(utf8_lossy(csv_bytes@));
                if row_ids@.len() != recs.len() || row_owners@.len() != recs.len() || recs.len()
                    >= u32::MAX {
                    r is None
                } else {
                    match r {
                        Some(Ok(run)) => run.failed_row is None && run_of_table(
                            run,
                            h,
                            recs,
                            complete,
                            views(row_ids@),
                            row_owners@,
                            dry_run,
                            strict,
                        ),
                        Some(Err(m)) => exists|run: ImportRun|
                            #![trigger run_of_table(run, h, recs, complete, views(row_ids@), row_owners@, dry_run, strict)]
                            run_of_table(
                                run,
                                h,
                                recs,
                                complete,
                                views(row_ids@),
                                row_owners@,
                                dry_run,
                                strict,
                            ) && run.failed_row is Some && m@ == "Failed to parse CSV row "@
                                + decimal((recs.len() + 1) as nat),
                        None => false,
                    }
                }
            },
        },
{
    let table = match read_csv_table(csv_bytes) {
        Some(t) => t,
        None => {
            return Some(Err(owned("Failed to read CSV headers")));
        },
    };
    if row_ids.len() != table.records.len() || row_owners.len() != table.records.len()
        || table.records.len() >= 0xffff_ffff {
        return None;
    }
    let run = run_from_table(&table, row_ids, row_owners, dry_run, strict);
    proof {
        let text = utf8_lossy(csv_bytes@);
        assert(run_of_table(
            run,
            csv_header_fields(text)->0,
            csv_records_read(text).0,
            csv_records_read(text).1,
            views(row_ids@),
            row_owners@,
            dry_run,
            strict,
        ));
    }
    match run.failed_row {
        Some(n) => {
            let mut m = owned("Failed to parse CSV row ");
            push_decimal(&mut m, n as u64);
            Some(Err(m))
        },
        None => Some(Ok(run)),
    }
}

/// Imports CSV bytes without `--strict`: an unreadable header is refused;
/// an unreadable record fails the import at its row; otherwise the import
/// completes, and writes the manifest unless it is a dry run. `None` as for
/// `run_from_bytes_with`.
pub fn run_from_bytes(
    csv_bytes: &[u8],
    row_ids: &Vec<String>,
    row_owners: &Vec<Option<DiskOwner>>,
    dry_run: bool,
) -> (r: Option<Result<ImportRun, String>>)
    ensures
        match csv_header_fields(utf8_lossy(csv_bytes@)) {
            None => r matches Some(Err(m)) && m@ == "Failed to read CSV headers"@,
            Some(h) => {
                let (recs, complete) = csv_records_read(utf8_lossy(csv_bytes@));
                if row_ids@.len() != recs.len() || row_owners@.len() != recs.len() || recs.len()
                    >= u32::MAX {
                    r is None
                } else {
                    match r {
                        Some(Ok(run)) => complete && run.failed_row is None && run.plan.stopped is None
                            && run.writes_manifest == !dry_run && run_of_table(
                            run,
                            h,
                            recs,
                            complete,
                            views(row_ids@),
                            row_owners@,
                            dry_run,
                            false,
                        ),
                        Some(Err(m)) => !complete && m@ == "Failed to parse CSV row "@ + decimal(
                            (recs.len() + 1) as nat,
                        ),
                        None => false,
                    }
                }
            },
        },
{
    let r = run_from_bytes_with(csv_bytes, row_ids, row_owners, dry_run, false);
    proof {
        let text = utf8_lossy(csv_bytes@);
        if csv_header_fields(text) is Some {
            let h = csv_header_fields(text)->0;
            let (recs, complete) = csv_records_read(text);
            let ids = views(row_ids@);
            let owners = row_owners@;
            if r matches Some(Ok(_)) {
                let run = r->0->Ok_0;
                {
                    let rows = choose|rows: Seq<ImportRow>|
                        #![trigger import_fold(rows, rows.len() as int, dry_run, false)]
                        rows.len() == recs.len() && (forall|k: int|
                            0 <= k < rows.len() ==> {
                                let rec = #[trigger] recs[k];
                                &&& rows[k].kind == kind_of(field(rec, 0))
                                &&& rows[k].name@ == field(rec, 1)
                                &&& opt_view(rows[k].scope) == (if run.format == CsvFormat::Agency {
                                    nonempty(field(rec, 8))
                                } else {
                                    None
                                })
                                &&& rows[k].id@ == ids[k]
                                &&& disk_record(rows[k].on_disk) == disk_record(owners[k])
                            }) && plan_is(run.plan, import_fold(rows, rows.len() as int, dry_run, false));
                    lemma_lenient_never_stops(rows, rows.len() as int, dry_run);
                }
            }
        }
    }
    r
}

// ---------------------------------------------------------------------------
// Provenance of saved rows, and the run's report
// ---------------------------------------------------------------------------

/// The provenance tag of an import: the one given, else `agency-import`.
pub open spec fn provenance_tag(tag: Option<Seq<char>>) -> Seq<char> {
    match tag {
        Some(t) => t,
        None => "agency-import"@,
    }
}

/// The creator a saved primitive records: the row's `created_by` when it is
/// not blank, else `<tag>-v<version>`.
pub open spec fn created_by_of(tag: Option<Seq<char>>, created_by: Option<Seq<char>>, version: Seq<char>) -> Seq<
    char,
> {
    match created_by {
        Some(c) => if trim(c).len() > 0 {
            c
        } else {
            provenance_tag(tag) + "-v"@ + version
        },
        None => provenance_tag(tag) + "-v"@ + version,
    }
}

/// Who owns a saved primitive (the provenance tag) and who created it.
/// `version` is the version of the importing program.
pub fn saved_provenance(tag: Option<&str>, created_by: Option<&str>, version: &str) -> (r: (String, String))
    ensures
        r.0@ == provenance_tag(opt_str(tag)),
        r.1@ == created_by_of(opt_str(tag), opt_str(created_by), version@),
{
    let owner = match tag {
        Some(t) => owned(t),
        None => owned("agency-import"),
    };
    let creator = match created_by {
        Some(c) => {
            let t = trim_str(c);
            if !t.as_str().is_empty() {
                owned(c)
            } else {
                let mut d = owned(owner.as_str());
                d.append("-v");
                d.append(version);
                d
            }
        },
        None => {
            let mut d = owned(owner.as_str());
            d.append("-v");
            d.append(version);
            d
        },
    };
    (owner, creator)
}

/// The summary an import prints when it completes.
pub open spec fn import_report_text(counts: ImportCounts, collisions: nat, dry_run: bool) -> Seq<Seq<char>> {
    seq![
        "Agency import complete"@ + (if dry_run { " (dry run)"@ } else { ""@ }) + ":"@,
        "  Components: "@ + decimal(counts.role_components as nat),
        "  Outcomes:   "@ + decimal(counts.desired_outcomes as nat),
        "  Tradeoffs:  "@ + decimal(counts.trade_off_configs as nat),
    ] + (if counts.skipped > 0 {
        seq!["  Skipped:    "@ + decimal(counts.skipped as nat)]
    } else {
        Seq::empty()
    }) + (if collisions > 0 {
        seq![
            "  Collisions: "@ + decimal(collisions)
                + " (description-hash dedup; rerun with --strict to fail)"@,
        ]
    } else {
        Seq::empty()
    })
}

pub fn import_report_lines(counts: &ImportCounts, collisions: usize, dry_run: bool) -> (lines: Vec<String>)
    ensures
        views(lines@) == import_report_text(*counts, collisions as nat, dry_run),
{
    let mut h = owned("Agency import complete");
    if dry_run {
        h.append(" (dry run)");
    }
    h.append(":");
    proof {
        reveal_strlit("");
        assert(h@ =~= "Agency import complete"@ + (if dry_run { " (dry run)"@ } else { ""@ }) + ":"@);
    }
    let mut c = owned("  Components: ");
    push_decimal(&mut c, counts.role_components as u64);
    let mut o = owned("  Outcomes:   ");
    push_decimal(&mut o, counts.desired_outcomes as u64);
    let mut t = owned("  Tradeoffs:  ");
    push_decimal(&mut t, counts.trade_off_configs as u64);
    let mut lines: Vec<String> = vec![h, c, o, t];
    assert(views(lines@) =~= seq![
        "Agency import complete"@ + (if dry_run { " (dry run)"@ } else { ""@ }) + ":"@,
        "  Components: "@ + decimal(counts.role_components as nat),
        "  Outcomes:   "@ + decimal(counts.desired_outcomes as nat),
        "  Tradeoffs:  "@ + decimal(counts.trade_off_configs as nat),
    ]);
    let ghost head = views(lines@);
    if counts.skipped > 0 {
        let mut sk = owned("  Skipped:    ");
        push_decimal(&mut sk, counts.skipped as u64);
        let ghost before = lines@;
        lines.push(sk);
        proof {
            lemma_views_push(before, sk);
        }
    }
    let ghost mid = views(lines@);
    assert(mid =~= head + (if counts.skipped > 0 {
        seq!["  Skipped:    "@ + decimal(counts.skipped as nat)]
    } else {
        Seq::<Seq<char>>::empty()
    }));
    if collisions > 0 {
        let mut co = owned("  Collisions: ");
        push_decimal(&mut co, collisions as u64);
        co.append(" (description-hash dedup; rerun with --strict to fail)");
        let ghost before = lines@;
        lines.push(co);
        proof {
            lemma_views_push(before, co);
        }
    }
    assert(views(lines@) =~= import_report_text(*counts, collisions as nat, dry_run));
    lines
}

/// The warning for a row of an unknown type, when its type is not blank.
/// `row` is the row's 1-based number.
pub open spec fn unknown_type_text(rec: Seq<Seq<char>>, row: nat) -> Option<Seq<char>> {
    if kind_of(field(rec, 0)) is None && field(rec, 0).len() > 0 {
        Some(
            "Warning: skipping unknown type '"@ + field(rec, 0) + "' for '"@ + field(rec, 1)
                + "' (row "@ + decimal(row) + ")"@,
        )
    } else {
        None
    }
}

pub fn unknown_type_warning(record: &Vec<String>, row: usize) -> (w: Option<String>)
    ensures
        opt_view(w) == unknown_type_text(views(record@), row as nat),
{
    let ptype = field_of(record, 0);
    match primitive_kind(ptype.as_str()) {
        Some(_) => None,
        None => if ptype.as_str().is_empty() {
            None
        } else {
            let mut m = owned("Warning: skipping unknown type '");
            m.append(ptype.as_str());
            m.append("' for '");
            let name = field_of(record, 1);
            m.append(name.as_str());
            m.append("' (row ");
            push_decimal(&mut m, row as u64);
            m.append(")");
            Some(m)
        },
    }
}

/// What a dry run lists for an accepted row: its kind, name and short hash.
pub fn dry_run_line(kind: PrimitiveKind, name: &str, short_hash: &str) -> (m: String)
    ensures
        m@ == "  ["@ + kind.name_spec() + "] "@ + name@ + " ("@ + short_hash@ + ")"@,
{
    let mut m = owned("  [");
    m.append(kind.name());
    m.append("] ");
    m.append(name);
    m.append(" (");
    m.append(short_hash);
    m.append(")");
    m
}

} // verus!
