//! The two tables of the crates.io dump that the cache keeps: `versions` and
//! `version_downloads`.
//!
//! A row arrives as text cells. Writing interprets each cell by its kind and
//! stores the typed value; reading gives the typed row back. The central
//! property is stated on `read_version_row` and `read_version_download_row`:
//! from the bytes that writing a row produced, reading gives back the values
//! that writing interpreted from the cells.

use crate::cells::{pg_bool, pg_date, pg_timestamp, pg_url, pg_version, url_is_valid, url_parses};
use crate::numbers::{lemma_parse_unsigned_range, parse_unsigned};
use crate::codec::starts_with;
use crate::row_reader::{datetime_ok, stored_date, RowReader, StoredVersion};
use crate::row_writer::{
    enc_bool, enc_opt_u64, enc_str, enc_u64, enc_version, RowError, RowWriter,
};
use vstd::prelude::*;

verus! {

/// How a text cell is interpreted and stored.
#[derive(Debug, Clone, Copy, PartialEq, Eq)]
pub enum CellKind {
    /// A decimal unsigned integer.
    U64,
    /// A semantic version.
    Version,
    /// A decimal unsigned integer or the empty text.
    OptU64,
    /// A timestamp.
    Datetime,
    /// A `YYYY-MM-DD` date.
    Date,
    /// Free text.
    Str,
    /// A boolean.
    Bool,
    /// A URL; an invalid URL is stored as the empty text.
    Url,
}

/// The bytes stored for a cell, or nothing when the cell is rejected.
pub open spec fn cell_bytes(kind: CellKind, s: Seq<char>) -> Option<Seq<u8>> {
    match kind {
        CellKind::U64 => match parse_unsigned(s, u64::MAX as int) {
            Some(v) => Some(enc_u64(v as u64)),
            None => None,
        },
        CellKind::Version => match pg_version(s) {
            Some(v) => Some(enc_version(v)),
            None => None,
        },
        CellKind::OptU64 => if s.len() == 0 {
            Some(enc_opt_u64(None))
        } else {
            match parse_unsigned(s, u64::MAX as int) {
                Some(v) => Some(enc_opt_u64(Some(v as u64))),
                None => None,
            }
        },
        CellKind::Datetime => match pg_timestamp(s) {
            Some(t) => Some(enc_u64(t)),
            None => None,
        },
        CellKind::Date => match pg_date(s) {
            Some(d) => Some(enc_u64(d)),
            None => None,
        },
        CellKind::Str => Some(enc_str(s)),
        CellKind::Bool => match pg_bool(s) {
            Some(b) => Some(enc_bool(b)),
            None => None,
        },
        CellKind::Url => match pg_url(s) {
            Some(u) => Some(enc_str(u)),
            None => Some(enc_str(Seq::<char>::empty())),
        },
    }
}

/// Stored timestamps are ones the reader accepts.
pub open spec fn cell_ok(kind: CellKind, s: Seq<char>) -> bool {
    kind == CellKind::Datetime ==> (pg_timestamp(s) matches Some(t) ==> datetime_ok(t))
}

/// Whether `e` is the error a rejected cell of this kind and text gives.
pub open spec fn cell_error(e: RowError, kind: CellKind, s: Seq<char>) -> bool {
    match kind {
        CellKind::U64 | CellKind::OptU64 => e matches RowError::InvalidInteger(t) && t@ == s,
        CellKind::Version => e matches RowError::InvalidVersion(t) && t@ == s,
        CellKind::Datetime => e matches RowError::InvalidTimestamp(t) && t@ == s,
        CellKind::Date => e matches RowError::InvalidDate(t) && t@ == s,
        CellKind::Bool => e matches RowError::InvalidBool(t) && t@ == s,
        _ => false,
    }
}

/// The bytes of the first `i` cells, or nothing when one of them is rejected.
pub open spec fn cells_prefix(kinds: Seq<CellKind>, cells: Seq<Seq<char>>, i: nat) -> Option<Seq<u8>>
    decreases i,
{
    if i == 0 {
        Some(Seq::<u8>::empty())
    } else {
        match cells_prefix(kinds, cells, (i - 1) as nat) {
            Some(b) => match cell_bytes(kinds[i - 1], cells[i - 1]) {
                Some(c) => Some(b + c),
                None => None,
            },
            None => None,
        }
    }
}

impl RowWriter {
    /// Stores one cell by its kind.
    pub fn write_cell(&mut self, kind: CellKind, s: &str) -> (r: Result<(), RowError>)
        ensures
            final(self).written() == old(self).written(),
            final(self).rows() == old(self).rows(),
            cell_ok(kind, s@),
            match cell_bytes(kind, s@) {
                Some(b) => r is Ok && final(self).pending() == old(self).pending() + b,
                None => (r matches Err(e) && cell_error(e, kind, s@))
                    && final(self).pending() == old(self).pending(),
            },
    {
        match kind {
            CellKind::Version => self.write_str_as_version(s),
            CellKind::OptU64 => self.write_optional_str_as_u64(s),
            CellKind::Datetime => self.write_str_as_datetime(s),
            CellKind::Date => self.write_str_as_date(s),
            CellKind::Str => self.write_str(s),
            CellKind::Bool => self.write_str_as_bool(s),
            CellKind::Url => {
                let r = self.write_str_as_url(s);
                match r {
                    Ok(()) => Ok(()),
                    Err(_) => {
                        proof {
                            reveal_strlit("");
                        }
                        self.write_str("")
                    },
                }
            },
            CellKind::U64 => self.write_str_as_u64(s),
        }
    }

    /// Stores the cells of a row in order, stopping at the first rejected
    /// cell; the cells before it stay written.
    pub fn write_cells(&mut self, kinds: &[CellKind], cells: &[&str]) -> (r: Result<(), RowError>)
        requires
            kinds@.len() == cells@.len(),
        ensures
            final(self).written() == old(self).written(),
            final(self).rows() == old(self).rows(),
            match cells_prefix(kinds@, cells_view(cells@), cells@.len() as nat) {
                Some(b) => r is Ok && final(self).pending() == old(self).pending() + b
                    && forall|i: int| 0 <= i < cells@.len() ==> cell_ok(kinds@[i], #[trigger] cells@[i]@),
                None => exists|i: int| 0 <= i < cells@.len()
                    && (#[trigger] cells_prefix(kinds@, cells_view(cells@), i as nat) matches Some(b)
                    && cell_bytes(kinds@[i], cells@[i]@) is None
                    && (r matches Err(e) && cell_error(e, kinds@[i], cells@[i]@))
                    && final(self).pending() == old(self).pending() + b),
            },
    {
        let ghost cv = cells_view(cells@);
        let mut i: usize = 0;
        while i < cells.len()
            invariant
                i <= cells@.len(),
                kinds@.len() == cells@.len(),
                cv == cells_view(cells@),
                cells_prefix(kinds@, cv, i as nat) matches Some(b)
                    && self.pending() == old(self).pending() + b,
                forall|k: int| 0 <= k < i ==> cell_ok(kinds@[k], #[trigger] cells@[k]@),
                self.written() == old(self).written(),
                self.rows() == old(self).rows(),
            decreases cells@.len() - i,
        {
            let ghost before = self.pending();
            let ghost b = cells_prefix(kinds@, cv, i as nat)->0;
            assert(cv[i as int] == cells@[i as int]@);
            let r = self.write_cell(kinds[i], cells[i]);
            match r {
                Ok(()) => {},
                Err(e) => {
                    proof {
                        lemma_prefix_stays_none(kinds@, cv, (i + 1) as nat, cells@.len() as nat);
                    }
                    return Err(e);
                },
            }
            proof {
                assert(self.pending() =~= old(self).pending() + (b + cell_bytes(kinds@[i as int], cv[i as int])->0));
            }
            i = i + 1;
        }
        Ok(())
    }
}

/// Once a cell is rejected, every longer prefix is rejected too.
proof fn lemma_prefix_stays_none(kinds: Seq<CellKind>, cells: Seq<Seq<char>>, i: nat, n: nat)
    requires
        i <= n,
        cells_prefix(kinds, cells, i) is None,
    ensures
        cells_prefix(kinds, cells, n) is None,
    decreases n - i,
{
    if i < n {
        lemma_prefix_stays_none(kinds, cells, i + 1, n);
    }
}

/// The texts of the cells.
pub open spec fn cells_view(cells: Seq<&str>) -> Seq<Seq<char>> {
    Seq::new(cells.len(), |i: int| cells[i]@)
}

/// `rest` starts with the bytes that writing the cells `c` of kinds `kinds`
/// stored, and every stored timestamp is one the reader accepts.
pub open spec fn written_cells(rest: Seq<u8>, kinds: Seq<CellKind>, c: Seq<Seq<char>>) -> bool {
    &&& c.len() == kinds.len()
    &&& cells_prefix(kinds, c, c.len()) matches Some(b) && starts_with(rest, b)
    &&& forall|i: int| 0 <= i < c.len() ==> cell_ok(kinds[i], #[trigger] c[i])
}

/// The length of the bytes stored for the cells (zero when rejected).
pub open spec fn cells_len(kinds: Seq<CellKind>, c: Seq<Seq<char>>) -> int {
    match cells_prefix(kinds, c, c.len()) {
        Some(b) => b.len() as int,
        None => 0,
    }
}

/// The bytes of a row start with the bytes of its first `i` cells, followed
/// by those of cell `i`.
proof fn lemma_cells_prefix_split(k: Seq<CellKind>, c: Seq<Seq<char>>, i: nat, n: nat)
    requires
        i < n,
        cells_prefix(k, c, n) is Some,
    ensures
        cells_prefix(k, c, i) is Some,
        cell_bytes(k[i as int], c[i as int]) is Some,
        cells_prefix(k, c, (i + 1) as nat) == Some(cells_prefix(k, c, i)->0 + cell_bytes(k[i as int], c[i as int])->0),
        starts_with(cells_prefix(k, c, n)->0, cells_prefix(k, c, (i + 1) as nat)->0),
    decreases n - i,
{
    if i + 1 == n {
        let b = cells_prefix(k, c, n)->0;
        assert(b.subrange(0, b.len() as int) =~= b);
    } else {
        lemma_cells_prefix_split(k, c, i + 1, n);
        lemma_cells_prefix_split(k, c, i, (i + 1) as nat);
        let a = cells_prefix(k, c, (i + 1) as nat)->0;
        let m = cells_prefix(k, c, (i + 2) as nat)->0;
        let b = cells_prefix(k, c, n)->0;
        assert(m =~= a + cell_bytes(k[i + 1 as int], c[i + 1 as int])->0);
        assert(b.subrange(0, a.len() as int) =~= m.subrange(0, a.len() as int));
        assert(m.subrange(0, a.len() as int) =~= a);
    }
}

/// Where the rest starts with a written row, it starts, after the first `i`
/// cells, with cell `i`.
proof fn lemma_cell_at(rest: Seq<u8>, k: Seq<CellKind>, c: Seq<Seq<char>>, i: nat)
    requires
        written_cells(rest, k, c),
        i < c.len(),
    ensures
        cells_prefix(k, c, i) is Some,
        cell_bytes(k[i as int], c[i as int]) is Some,
        starts_with(rest.skip(cells_prefix(k, c, i)->0.len() as int), cell_bytes(k[i as int], c[i as int])->0),
        cells_prefix(k, c, (i + 1) as nat)->0.len() == cells_prefix(k, c, i)->0.len() + cell_bytes(k[i as int], c[i as int])->0.len(),
{
    lemma_cells_prefix_split(k, c, i, c.len());
    let p = cells_prefix(k, c, i)->0;
    let q = cell_bytes(k[i as int], c[i as int])->0;
    let b = cells_prefix(k, c, c.len())->0;
    let m = cells_prefix(k, c, (i + 1) as nat)->0;
    assert(m =~= p + q);
    assert(rest.subrange(0, m.len() as int) =~= b.subrange(0, m.len() as int));
    assert forall|j: int| 0 <= j < q.len() implies rest.skip(p.len() as int)[j] == q[j] by {
        assert(rest.subrange(0, m.len() as int)[p.len() + j] == m[p.len() + j]);
    }
    assert(rest.skip(p.len() as int).subrange(0, q.len() as int) =~= q);
}

/// Identifier of a crate version.
#[derive(Debug, Clone, Copy, PartialEq, Eq)]
pub struct VersionId(pub u64);

/// Identifier of a crate.
#[derive(Debug, Clone, Copy, PartialEq, Eq)]
pub struct CrateId(pub u64);

/// A Rust edition.
#[derive(Debug, Clone, Copy, PartialEq, Eq)]
pub enum RustEdition {
    Edition2015,
    Edition2018,
    Edition2021,
    Edition2024,
    Unknown,
}

/// The text cells of a `versions` row, in the order of the dump.
pub struct CsvVersionRow<'a> {
    pub id: &'a str,
    pub crate_id: &'a str,
    pub num: &'a str,
    pub downloads: &'a str,
    pub edition: &'a str,
    pub created_at: &'a str,
    pub updated_at: &'a str,
    pub description: &'a str,
    pub features: &'a str,
    pub license: &'a str,
    pub rust_version: &'a str,
    pub yanked: &'a str,
    pub documentation: &'a str,
    pub homepage: &'a str,
}

impl<'a> CsvVersionRow<'a> {
    pub open spec fn cells(&self) -> Seq<Seq<char>> {
        seq![self.id@, self.crate_id@, self.num@, self.downloads@, self.edition@, self.created_at@,
            self.updated_at@, self.description@, self.features@, self.license@, self.rust_version@,
            self.yanked@, self.documentation@, self.homepage@]
    }
}

/// The kind of cell `i` of a `versions` row.
pub open spec fn version_kind(i: int) -> CellKind {
    if i == 2 {
        CellKind::Version
    } else if i == 4 {
        CellKind::OptU64
    } else if i == 5 || i == 6 {
        CellKind::Datetime
    } else if 7 <= i <= 10 {
        CellKind::Str
    } else if i == 11 {
        CellKind::Bool
    } else if i == 12 || i == 13 {
        CellKind::Url
    } else {
        CellKind::U64
    }
}

/// The kinds of the cells of a `versions` row.
pub open spec fn version_kinds() -> Seq<CellKind> {
    Seq::new(14, |i: int| version_kind(i))
}

fn version_kind_list() -> (r: Vec<CellKind>)
    ensures
        r@ == version_kinds(),
{
    let r = vec![CellKind::U64, CellKind::U64, CellKind::Version, CellKind::U64, CellKind::OptU64,
        CellKind::Datetime, CellKind::Datetime, CellKind::Str, CellKind::Str, CellKind::Str,
        CellKind::Str, CellKind::Bool, CellKind::Url, CellKind::Url];
    assert(r@ =~= version_kinds());
    r
}

/// The entries, in key order, of the map from feature names to lists of
/// feature names that `serde_json` reads from `s`, if it reads one.
pub uninterp spec fn serde_feature_map(s: Seq<char>) -> Option<Seq<(Seq<char>, Seq<Seq<char>>)>>;

/// Whether `serde_json` reads `s` as a map from feature names to lists of
/// feature names.
pub open spec fn serde_feature_map_parses(s: Seq<char>) -> bool {
    serde_feature_map(s) is Some
}

/// The entries of a feature map as plain values.
pub open spec fn feature_entries_view(v: Vec<(String, Vec<String>)>) -> Seq<(Seq<char>, Seq<Seq<char>>)> {
    v@.map_values(|e: (String, Vec<String>)| (e.0@, e.1@.map_values(|x: String| x@)))
}

/// Deserialises `s` with `serde_json::from_str` into a
/// `BTreeMap<String, Vec<String>>` and lists its entries in key order. The
/// contract only names the result.
#[verifier::external_body]
fn parse_feature_map(s: &str) -> (r: Option<Vec<(String, Vec<String>)>>)
    ensures
        r matches Some(v) ==> serde_feature_map(s@) == Some(feature_entries_view(v)),
        r is None ==> serde_feature_map(s@) is None,
{
    serde_json::from_str::<std::collections::BTreeMap<String, Vec<String>>>(s).ok().map(|m| m.into_iter().collect())
}

/// Whether `s` is a JSON map from feature names to lists of feature names.
fn feature_map_parses(s: &str) -> (r: bool)
    ensures
        r == serde_feature_map_parses(s@),
{
    parse_feature_map(s).is_some()
}

/// Writes the cells of a `versions` row. A features cell that is not a JSON
/// map of feature lists is rejected before anything is written; otherwise the
/// cells are written as `write_cells` does (URL cells that are not URLs are
/// stored as empty text).
pub fn write_version_row(csv: &CsvVersionRow, writer: &mut RowWriter) -> (r: Result<(), RowError>)
    ensures
        final(writer).written() == old(writer).written(),
        final(writer).rows() == old(writer).rows(),
        !serde_feature_map_parses(csv.features@) ==> (r matches Err(RowError::InvalidFeatures(t))
            && t@ == csv.features@ && final(writer).pending() == old(writer).pending()),
        serde_feature_map_parses(csv.features@) ==> match cells_prefix(version_kinds(), csv.cells(), 14) {
            Some(b) => r is Ok && final(writer).pending() == old(writer).pending() + b
                && written_cells(final(writer).pending().skip(old(writer).pending().len() as int), version_kinds(), csv.cells()),
            None => r is Err && exists|i: int| 0 <= i < 14
                && (#[trigger] cells_prefix(version_kinds(), csv.cells(), i as nat) matches Some(b)
                && cell_bytes(version_kinds()[i], csv.cells()[i]) is None
                && (r matches Err(e) && cell_error(e, version_kinds()[i], csv.cells()[i]))
                && final(writer).pending() == old(writer).pending() + b),
        },
{
    if !feature_map_parses(csv.features) {
        return Err(RowError::InvalidFeatures(csv.features.to_owned()));
    }
    let kinds = version_kind_list();
    let cells: [&str; 14] = [csv.id, csv.crate_id, csv.num, csv.downloads, csv.edition, csv.created_at,
        csv.updated_at, csv.description, csv.features, csv.license, csv.rust_version, csv.yanked,
        csv.documentation, csv.homepage];
    assert(cells_view(cells@) =~= csv.cells());
    let r = writer.write_cells(kinds.as_slice(), &cells);
    proof {
        if let Some(b) = cells_prefix(version_kinds(), csv.cells(), 14) {
            let rest = writer.pending().skip(old(writer).pending().len() as int);
            assert(rest =~= b);
            assert(rest.subrange(0, b.len() as int) =~= b);
            assert forall|i: int| 0 <= i < 14 implies cell_ok(version_kinds()[i], #[trigger] csv.cells()[i]) by {
                assert(csv.cells()[i] == cells@[i]@);
            }
        }
    }
    r
}

/// A row of the `versions` table as stored: timestamps in seconds since the
/// epoch.
pub struct VersionRow<'a> {
    pub id: VersionId,
    pub crate_id: CrateId,
    pub num: StoredVersion,
    pub downloads: u64,
    pub edition_year: Option<u64>,
    pub created_at: i64,
    pub updated_at: i64,
    pub description: &'a str,
    pub features: &'a str,
    pub license: &'a str,
    pub rust_version: &'a str,
    pub yanked: bool,
    pub documentation: &'a str,
    pub homepage: &'a str,
}

/// The row values that writing the cells `c` of a `versions` row stored.
pub open spec fn version_row_from_cells(r: VersionRow, c: Seq<Seq<char>>) -> bool {
    &&& r.id.0 == parse_unsigned(c[0], u64::MAX as int)->0
    &&& r.crate_id.0 == parse_unsigned(c[1], u64::MAX as int)->0
    &&& r.num.parts() == pg_version(c[2])->0
    &&& r.downloads == parse_unsigned(c[3], u64::MAX as int)->0
    &&& r.edition_year == stored_opt_u64(c[4])
    &&& r.created_at == pg_timestamp(c[5])->0
    &&& r.updated_at == pg_timestamp(c[6])->0
    &&& r.description@ == c[7]
    &&& r.features@ == c[8]
    &&& r.license@ == c[9]
    &&& r.rust_version@ == c[10]
    &&& r.yanked == pg_bool(c[11])->0
    &&& r.documentation@ == stored_url(c[12])
    &&& r.homepage@ == stored_url(c[13])
}

impl<'a> VersionRow<'a> {
    /// The features of the version: each feature with the features it
    /// enables, in name order.
    pub fn features(&self) -> (r: Vec<(String, Vec<String>)>)
        requires
            serde_feature_map_parses(self.features@),
        ensures
            serde_feature_map(self.features@) == Some(feature_entries_view(r)),
    {
        parse_feature_map(self.features).unwrap()
    }

    /// The features of the version, or `None` when the stored text is not a
    /// JSON map of feature lists.
    pub fn checked_features(&self) -> (r: Option<Vec<(String, Vec<String>)>>)
        ensures
            r is Some <==> serde_feature_map_parses(self.features@),
            r matches Some(v) ==> serde_feature_map(self.features@) == Some(feature_entries_view(v)),
    {
        if feature_map_parses(self.features) {
            Some(self.features())
        } else {
            None
        }
    }

    /// The Rust edition of the version, when the row names one.
    pub fn edition(&self) -> (r: Option<RustEdition>)
        ensures
            r == match self.edition_year {
                None => None,
                Some(2015) => Some(RustEdition::Edition2015),
                Some(2018) => Some(RustEdition::Edition2018),
                Some(2021) => Some(RustEdition::Edition2021),
                Some(2024) => Some(RustEdition::Edition2024),
                Some(_) => Some(RustEdition::Unknown),
            },
    {
        match self.edition_year {
            None => None,
            Some(2015) => Some(RustEdition::Edition2015),
            Some(2018) => Some(RustEdition::Edition2018),
            Some(2021) => Some(RustEdition::Edition2021),
            Some(2024) => Some(RustEdition::Edition2024),
            Some(_) => Some(RustEdition::Unknown),
        }
    }

    /// The documentation URL, when the row has one. The stored text must be
    /// empty or a URL (the original fails otherwise).
    pub fn documentation(&self) -> (r: Option<&'a str>)
        requires
            url_cell_ok(self.documentation@),
        ensures
            r == url_cell(self.documentation),
    {
        url_text(self.documentation)
    }

    /// The home page URL, when the row has one. The stored text must be
    /// empty or a URL (the original fails otherwise).
    pub fn homepage(&self) -> (r: Option<&'a str>)
        requires
            url_cell_ok(self.homepage@),
        ensures
            r == url_cell(self.homepage),
    {
        url_text(self.homepage)
    }

    /// The documentation URL, or `None` when the stored text is neither
    /// empty nor a URL.
    pub fn checked_documentation(&self) -> (r: Option<Option<&'a str>>)
        ensures
            r is Some <==> url_cell_ok(self.documentation@),
            r matches Some(u) ==> u == url_cell(self.documentation),
    {
        if url_checked(self.documentation) { Some(self.documentation()) } else { None }
    }

    /// The home page URL, or `None` when the stored text is neither empty
    /// nor a URL.
    pub fn checked_homepage(&self) -> (r: Option<Option<&'a str>>)
        ensures
            r is Some <==> url_cell_ok(self.homepage@),
            r matches Some(u) ==> u == url_cell(self.homepage),
    {
        if url_checked(self.homepage) { Some(self.homepage()) } else { None }
    }
}

/// Whether a URL cell's text is empty or a URL that `url` parses.
pub open spec fn url_cell_ok(s: Seq<char>) -> bool {
    s.len() == 0 || url_parses(s)
}

/// The URL a URL cell holds: none when its text is empty.
pub open spec fn url_cell<'a>(s: &'a str) -> Option<&'a str> {
    if s@.len() == 0 { None } else { Some(s) }
}

/// The URL of a cell's text (see `url_cell`).
fn url_text<'a>(s: &'a str) -> (r: Option<&'a str>)
    ensures
        r == url_cell(s),
{
    if s.unicode_len() == 0 { None } else { Some(s) }
}

/// Whether a cell's text is empty or a URL.
fn url_checked(s: &str) -> (r: bool)
    ensures
        r == url_cell_ok(s@),
{
    s.unicode_len() == 0 || url_is_valid(s)
}

/// The length of the bytes stored for the first `i` cells.
pub open spec fn prefix_len(k: Seq<CellKind>, c: Seq<Seq<char>>, i: nat) -> int {
    cells_prefix(k, c, i)->0.len() as int
}

/// The URL a URL cell stores: the normalised URL, or the empty text.
pub open spec fn stored_url(s: Seq<char>) -> Seq<char> {
    match pg_url(s) {
        Some(u) => u,
        None => Seq::<char>::empty(),
    }
}

/// The optional integer an optional-integer cell stores.
pub open spec fn stored_opt_u64(s: Seq<char>) -> Option<u64> {
    if s.len() == 0 {
        None
    } else {
        Some(parse_unsigned(s, u64::MAX as int)->0 as u64)
    }
}

/// Where the bytes from `p` on hold written cells and the reader `rd` stands
/// after the first `i` of them, the reader's rest starts with cell `i`.
proof fn lemma_cell_step<'a>(d: Seq<u8>, p: int, k: Seq<CellKind>, c: Seq<Seq<char>>, i: nat, rd: RowReader<'a>)
    requires
        0 <= p <= d.len(),
        written_cells(d.skip(p), k, c),
        i < c.len(),
        rd.bytes() == d,
        rd.pos() == p + prefix_len(k, c, i),
    ensures
        cell_bytes(k[i as int], c[i as int]) is Some,
        starts_with(rd.rest(), cell_bytes(k[i as int], c[i as int])->0),
        prefix_len(k, c, (i + 1) as nat) == prefix_len(k, c, i) + cell_bytes(k[i as int], c[i as int])->0.len(),
        (i + 1 == c.len()) ==> prefix_len(k, c, (i + 1) as nat) == cells_len(k, c),
        k[i as int] == CellKind::U64 ==> starts_with(rd.rest(), enc_u64(parse_unsigned(c[i as int], u64::MAX as int)->0 as u64)),
        k[i as int] == CellKind::Version ==> starts_with(rd.rest(), enc_version(pg_version(c[i as int])->0)),
        k[i as int] == CellKind::OptU64 ==> starts_with(rd.rest(), enc_opt_u64(stored_opt_u64(c[i as int]))),
        k[i as int] == CellKind::Datetime ==> starts_with(rd.rest(), enc_u64(pg_timestamp(c[i as int])->0))
            && datetime_ok(pg_timestamp(c[i as int])->0),
        k[i as int] == CellKind::Date ==> starts_with(rd.rest(), enc_u64(pg_date(c[i as int])->0)),
        k[i as int] == CellKind::Str ==> starts_with(rd.rest(), enc_str(c[i as int])),
        k[i as int] == CellKind::Bool ==> starts_with(rd.rest(), enc_bool(pg_bool(c[i as int])->0)),
        k[i as int] == CellKind::Url ==> starts_with(rd.rest(), enc_str(stored_url(c[i as int]))),
{
    let rest = d.skip(p);
    lemma_cell_at(rest, k, c, i);
    lemma_cells_prefix_split(k, c, i, c.len());
    let x = prefix_len(k, c, i);
    let b = cell_bytes(k[i as int], c[i as int])->0;
    assert(x + b.len() <= rest.len());
    assert(rest.skip(x) =~= rd.rest());
}

/// What an integer read from `rd` promises: where the rest starts with the
/// encoding of `v`, the value read is `v` and the read ends after it.
pub open spec fn step_u64<'a>(rd: RowReader<'a>, val: u64, after: int) -> bool {
    forall|v: u64| #[trigger] starts_with(rd.rest(), enc_u64(v))
        ==> val == v && after == rd.pos() + enc_u64(v).len()
}

/// What a timestamp read from `rd` promises.
pub open spec fn step_datetime<'a>(rd: RowReader<'a>, val: i64, after: int) -> bool {
    forall|v: u64| #[trigger] starts_with(rd.rest(), enc_u64(v))
        ==> val == v && after == rd.pos() + enc_u64(v).len()
}

/// What a version read from `rd` promises.
pub open spec fn step_version<'a>(rd: RowReader<'a>, val: (u64, u64, u64, Seq<char>, Seq<char>), after: int) -> bool {
    forall|v: (u64, u64, u64, Seq<char>, Seq<char>)| #[trigger] starts_with(rd.rest(), enc_version(v))
        ==> val == v && after == rd.pos() + enc_version(v).len()
}

/// What an optional-integer read from `rd` promises.
pub open spec fn step_opt_u64<'a>(rd: RowReader<'a>, val: Option<u64>, after: int) -> bool {
    forall|o: Option<u64>| #[trigger] starts_with(rd.rest(), enc_opt_u64(o))
        ==> val == o && after == rd.pos() + enc_opt_u64(o).len()
}

/// What a string read from `rd` promises.
pub open spec fn step_str<'a>(rd: RowReader<'a>, val: Seq<char>, after: int) -> bool {
    forall|t: Seq<char>| #[trigger] starts_with(rd.rest(), enc_str(t))
        ==> val == t && after == rd.pos() + enc_str(t).len()
}

/// What a boolean read from `rd` promises.
pub open spec fn step_bool<'a>(rd: RowReader<'a>, val: bool, after: int) -> bool {
    forall|b: bool| #[trigger] starts_with(rd.rest(), enc_bool(b))
        ==> val == b && after == rd.pos() + 1
}

/// The reads of a `versions` row, each keeping its promise, give the values
/// of any cells whose written bytes they ran over.
proof fn lemma_version_row_steps<'a>(
    d: Seq<u8>,
    p: int,
    c: Seq<Seq<char>>,
    rs: Seq<RowReader<'a>>,
    r: VersionRow<'a>,
    end: int,
)
    requires
        0 <= p <= d.len(),
        written_cells(d.skip(p), version_kinds(), c),
        rs.len() == 14,
        forall|i: int| 0 <= i < 14 ==> (#[trigger] rs[i]).bytes() == d,
        rs[0].pos() == p,
        step_u64(rs[0], r.id.0, rs[1].pos()),
        step_u64(rs[1], r.crate_id.0, rs[2].pos()),
        step_version(rs[2], r.num.parts(), rs[3].pos()),
        step_u64(rs[3], r.downloads, rs[4].pos()),
        step_opt_u64(rs[4], r.edition_year, rs[5].pos()),
        step_datetime(rs[5], r.created_at, rs[6].pos()),
        step_datetime(rs[6], r.updated_at, rs[7].pos()),
        step_str(rs[7], r.description@, rs[8].pos()),
        step_str(rs[8], r.features@, rs[9].pos()),
        step_str(rs[9], r.license@, rs[10].pos()),
        step_str(rs[10], r.rust_version@, rs[11].pos()),
        step_bool(rs[11], r.yanked, rs[12].pos()),
        step_str(rs[12], r.documentation@, rs[13].pos()),
        step_str(rs[13], r.homepage@, end),
    ensures
        version_row_from_cells(r, c),
        end == p + cells_len(version_kinds(), c),
{
    let k = version_kinds();
    assert(prefix_len(k, c, 0) == 0);
    lemma_parse_unsigned_range(c[0], u64::MAX as int);
    lemma_parse_unsigned_range(c[1], u64::MAX as int);
    lemma_parse_unsigned_range(c[3], u64::MAX as int);
    lemma_cell_step(d, p, k, c, 0, rs[0]);
    lemma_cell_step(d, p, k, c, 1, rs[1]);
    lemma_cell_step(d, p, k, c, 2, rs[2]);
    lemma_cell_step(d, p, k, c, 3, rs[3]);
    lemma_cell_step(d, p, k, c, 4, rs[4]);
    lemma_cell_step(d, p, k, c, 5, rs[5]);
    lemma_cell_step(d, p, k, c, 6, rs[6]);
    lemma_cell_step(d, p, k, c, 7, rs[7]);
    lemma_cell_step(d, p, k, c, 8, rs[8]);
    lemma_cell_step(d, p, k, c, 9, rs[9]);
    lemma_cell_step(d, p, k, c, 10, rs[10]);
    lemma_cell_step(d, p, k, c, 11, rs[11]);
    lemma_cell_step(d, p, k, c, 12, rs[12]);
    lemma_cell_step(d, p, k, c, 13, rs[13]);
}

/// Reads a `versions` row. From the bytes that `write_version_row` stored for
/// some cells, the row read holds the values interpreted from those cells and
/// the reader moves exactly past them.
#[verifier::spinoff_prover]
#[verifier::rlimit(40)]
pub fn read_version_row<'a>(reader: &mut RowReader<'a>) -> (r: VersionRow<'a>)
    requires
        old(reader).wf(),
        exists|c: Seq<Seq<char>>| #[trigger] written_cells(old(reader).rest(), version_kinds(), c),
    ensures
        final(reader).wf(),
        final(reader).bytes() == old(reader).bytes(),
        forall|c: Seq<Seq<char>>| #[trigger] written_cells(old(reader).rest(), version_kinds(), c)
            ==> version_row_from_cells(r, c)
                && final(reader).pos() == old(reader).pos() + cells_len(version_kinds(), c),
{
    let ghost d = reader.bytes();
    let ghost p = reader.pos();
    let ghost k = version_kinds();
    let ghost c = choose|c: Seq<Seq<char>>| #[trigger] written_cells(old(reader).rest(), version_kinds(), c);
    proof { reader.lemma_wf(); }
    let ghost r0 = *reader;
    proof { lemma_cell_step(d, p, k, c, 0, r0); }
    let id = reader.read_u64();
    let ghost r1 = *reader;
    proof { lemma_cell_step(d, p, k, c, 1, r1); }
    let crate_id = reader.read_u64();
    let ghost r2 = *reader;
    proof { lemma_cell_step(d, p, k, c, 2, r2); }
    let num = reader.read_version();
    let ghost r3 = *reader;
    proof { lemma_cell_step(d, p, k, c, 3, r3); }
    let downloads = reader.read_u64();
    let ghost r4 = *reader;
    proof { lemma_cell_step(d, p, k, c, 4, r4); }
    let edition_year = reader.read_optional_u64();
    let ghost r5 = *reader;
    proof { lemma_cell_step(d, p, k, c, 5, r5); }
    let created_at = reader.read_datetime();
    let ghost r6 = *reader;
    proof { lemma_cell_step(d, p, k, c, 6, r6); }
    let updated_at = reader.read_datetime();
    let ghost r7 = *reader;
    proof { lemma_cell_step(d, p, k, c, 7, r7); }
    let description = reader.read_str();
    let ghost r8 = *reader;
    proof { lemma_cell_step(d, p, k, c, 8, r8); }
    let features = reader.read_str();
    let ghost r9 = *reader;
    proof { lemma_cell_step(d, p, k, c, 9, r9); }
    let license = reader.read_str();
    let ghost r10 = *reader;
    proof { lemma_cell_step(d, p, k, c, 10, r10); }
    let rust_version = reader.read_str();
    let ghost r11 = *reader;
    proof { lemma_cell_step(d, p, k, c, 11, r11); }
    let yanked = reader.read_bool();
    let ghost r12 = *reader;
    proof { lemma_cell_step(d, p, k, c, 12, r12); }
    let documentation = reader.read_str();
    let ghost r13 = *reader;
    proof { lemma_cell_step(d, p, k, c, 13, r13); }
    let homepage = reader.read_str();
    let r = VersionRow {
        id: VersionId(id),
        crate_id: CrateId(crate_id),
        num,
        downloads,
        edition_year,
        created_at,
        updated_at,
        description,
        features,
        license,
        rust_version,
        yanked,
        documentation,
        homepage,
    };
    proof {
        let rs = seq![r0, r1, r2, r3, r4, r5, r6, r7, r8, r9, r10, r11, r12, r13];
        assert(step_u64(r0, r.id.0, r1.pos()));
        assert(step_u64(r1, r.crate_id.0, r2.pos()));
        assert(step_version(r2, r.num.parts(), r3.pos()));
        assert(step_u64(r3, r.downloads, r4.pos()));
        assert(step_opt_u64(r4, r.edition_year, r5.pos()));
        assert(step_datetime(r5, r.created_at, r6.pos()));
        assert(step_datetime(r6, r.updated_at, r7.pos()));
        assert(step_str(r7, r.description@, r8.pos()));
        assert(step_str(r8, r.features@, r9.pos()));
        assert(step_str(r9, r.license@, r10.pos()));
        assert(step_str(r10, r.rust_version@, r11.pos()));
        assert(step_bool(r11, r.yanked, r12.pos()));
        assert(step_str(r12, r.documentation@, r13.pos()));
        assert(step_str(r13, r.homepage@, reader.pos()));
        assert forall|c2: Seq<Seq<char>>| #[trigger] written_cells(old(reader).rest(), version_kinds(), c2)
            implies version_row_from_cells(r, c2)
                && reader.pos() == p + cells_len(version_kinds(), c2) by {
            lemma_version_row_steps(d, p, c2, rs, r, reader.pos());
        }
    }
    r
}

/// The text cells of a `version_downloads` row, in the order of the dump.
pub struct CsvVersionDownloadRow<'a> {
    pub version_id: &'a str,
    pub downloads: &'a str,
    pub date: &'a str,
}

impl<'a> CsvVersionDownloadRow<'a> {
    pub open spec fn cells(&self) -> Seq<Seq<char>> {
        seq![self.version_id@, self.downloads@, self.date@]
    }
}

/// The kinds of the cells of a `version_downloads` row.
pub open spec fn version_download_kinds() -> Seq<CellKind> {
    Seq::new(3, |i: int| if i == 2 { CellKind::Date } else { CellKind::U64 })
}

/// Writes the cells of a `version_downloads` row: two integers and a date.
pub fn write_version_download_row(csv: &CsvVersionDownloadRow, writer: &mut RowWriter) -> (r: Result<(), RowError>)
    ensures
        final(writer).written() == old(writer).written(),
        final(writer).rows() == old(writer).rows(),
        match cells_prefix(version_download_kinds(), csv.cells(), 3) {
            Some(b) => r is Ok && final(writer).pending() == old(writer).pending() + b
                && written_cells(final(writer).pending().skip(old(writer).pending().len() as int),
                    version_download_kinds(), csv.cells()),
            None => r is Err && exists|i: int| 0 <= i < 3
                && (#[trigger] cells_prefix(version_download_kinds(), csv.cells(), i as nat) matches Some(b)
                && cell_bytes(version_download_kinds()[i], csv.cells()[i]) is None
                && (r matches Err(e) && cell_error(e, version_download_kinds()[i], csv.cells()[i]))
                && final(writer).pending() == old(writer).pending() + b),
        },
{
    let kinds = vec![CellKind::U64, CellKind::U64, CellKind::Date];
    assert(kinds@ =~= version_download_kinds());
    let cells: [&str; 3] = [csv.version_id, csv.downloads, csv.date];
    assert(cells_view(cells@) =~= csv.cells());
    let r = writer.write_cells(kinds.as_slice(), &cells);
    proof {
        if let Some(b) = cells_prefix(version_download_kinds(), csv.cells(), 3) {
            let rest = writer.pending().skip(old(writer).pending().len() as int);
            assert(rest =~= b);
            assert(rest.subrange(0, b.len() as int) =~= b);
            assert forall|i: int| 0 <= i < 3 implies cell_ok(version_download_kinds()[i], #[trigger] csv.cells()[i]) by {
                assert(csv.cells()[i] == cells@[i]@);
            }
        }
    }
    r
}

/// A row of the `version_downloads` table as stored: the date in days since
/// 1970-01-01.
pub struct VersionDownloadRow {
    pub version_id: VersionId,
    pub downloads: u64,
    pub date: i32,
}

/// The row values that writing the cells `c` of a `version_downloads` row
/// stored.
pub open spec fn version_download_row_from_cells(r: VersionDownloadRow, c: Seq<Seq<char>>) -> bool {
    &&& r.version_id.0 == parse_unsigned(c[0], u64::MAX as int)->0
    &&& r.downloads == parse_unsigned(c[1], u64::MAX as int)->0
    &&& r.date == stored_date(pg_date(c[2])->0)
}

/// What a date read from `rd` promises.
pub open spec fn step_date<'a>(rd: RowReader<'a>, val: i32, after: int) -> bool {
    forall|v: u64| #[trigger] starts_with(rd.rest(), enc_u64(v))
        ==> val == stored_date(v) && after == rd.pos() + enc_u64(v).len()
}

/// The reads of a `version_downloads` row, each keeping its promise, give
/// the values of any cells whose written bytes they ran over.
proof fn lemma_version_download_row_steps<'a>(
    d: Seq<u8>,
    p: int,
    c: Seq<Seq<char>>,
    rs: Seq<RowReader<'a>>,
    r: VersionDownloadRow,
    end: int,
)
    requires
        0 <= p <= d.len(),
        written_cells(d.skip(p), version_download_kinds(), c),
        rs.len() == 3,
        forall|i: int| 0 <= i < 3 ==> (#[trigger] rs[i]).bytes() == d,
        rs[0].pos() == p,
        step_u64(rs[0], r.version_id.0, rs[1].pos()),
        step_u64(rs[1], r.downloads, rs[2].pos()),
        step_date(rs[2], r.date, end),
    ensures
        version_download_row_from_cells(r, c),
        end == p + cells_len(version_download_kinds(), c),
{
    let k = version_download_kinds();
    assert(prefix_len(k, c, 0) == 0);
    lemma_parse_unsigned_range(c[0], u64::MAX as int);
    lemma_parse_unsigned_range(c[1], u64::MAX as int);
    lemma_cell_step(d, p, k, c, 0, rs[0]);
    lemma_cell_step(d, p, k, c, 1, rs[1]);
    lemma_cell_step(d, p, k, c, 2, rs[2]);
}

/// Reads a `version_downloads` row. From the bytes that
/// `write_version_download_row` stored for some cells, the row read holds
/// the values interpreted from those cells and the reader moves exactly past
/// them.
pub fn read_version_download_row<'a>(reader: &mut RowReader<'a>) -> (r: VersionDownloadRow)
    requires
        old(reader).wf(),
        exists|c: Seq<Seq<char>>| #[trigger] written_cells(old(reader).rest(), version_download_kinds(), c),
    ensures
        final(reader).wf(),
        final(reader).bytes() == old(reader).bytes(),
        forall|c: Seq<Seq<char>>| #[trigger] written_cells(old(reader).rest(), version_download_kinds(), c)
            ==> version_download_row_from_cells(r, c)
                && final(reader).pos() == old(reader).pos() + cells_len(version_download_kinds(), c),
{
    let ghost d = reader.bytes();
    let ghost p = reader.pos();
    let ghost k = version_download_kinds();
    let ghost c = choose|c: Seq<Seq<char>>| #[trigger] written_cells(old(reader).rest(), version_download_kinds(), c);
    proof { reader.lemma_wf(); }
    let ghost r0 = *reader;
    proof { lemma_cell_step(d, p, k, c, 0, r0); }
    let version_id = reader.read_u64();
    let ghost r1 = *reader;
    proof { lemma_cell_step(d, p, k, c, 1, r1); }
    let downloads = reader.read_u64();
    let ghost r2 = *reader;
    proof { lemma_cell_step(d, p, k, c, 2, r2); }
    let date = reader.read_date();
    let r = VersionDownloadRow { version_id: VersionId(version_id), downloads, date };
    proof {
        let rs = seq![r0, r1, r2];
        assert(step_u64(r0, r.version_id.0, r1.pos()));
        assert(step_u64(r1, r.downloads, r2.pos()));
        assert(step_date(r2, r.date, reader.pos()));
        assert forall|c2: Seq<Seq<char>>| #[trigger] written_cells(old(reader).rest(), version_download_kinds(), c2)
            implies version_download_row_from_cells(r, c2)
                && reader.pos() == p + cells_len(version_download_kinds(), c2) by {
            lemma_version_download_row_steps(d, p, c2, rs, r, reader.pos());
        }
    }
    r
}

} // verus!
