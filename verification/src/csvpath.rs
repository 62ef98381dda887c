//! The delimited-text path of the record extractor.
//!
//! Parsing the raw bytes into rows is delegated to the `csv` crate behind
//! a trusted wrapper; everything after that — header handling, field
//! resolution, bounds validation, and the per-row record construction —
//! is verified against the spec model in this module.

use vstd::prelude::*;
use crate::issuefile::{issues_result_matches, ExtractError, ExtractErrorView, FileParser};
use crate::records::{IssueFromFile, IssueView};
use crate::resolve::{
    check_bounds, header_view, resolve, spec_resolve, Field, FieldSelector, ResolveErrorView,
    SelectorView,
};
use crate::text::{apply_prefix, dec_str, spec_prefixed, trim_of, trim_str, usize_to_string};

verus! {

/// The rows that the `csv` crate yields for these bytes and this field
/// delimiter, in order, up to the first decoding error if there is one.
pub uninterp spec fn csv_rows(data: Seq<u8>, delim: u8) -> Seq<Seq<Seq<char>>>;

/// Whether the `csv` crate decodes these bytes completely, without a
/// decoding error; like the rows, this depends on the bytes and the
/// delimiter alone.
pub uninterp spec fn csv_complete(data: Seq<u8>, delim: u8) -> bool;

/// Relies on `csv::ReaderBuilder` and `csv::Reader`: parses the bytes with
/// the given one-byte field delimiter, no header treatment and flexible
/// record lengths, and yields the records in order. The flag says whether
/// the whole input was decoded; when it is set the rows are all of them.
#[verifier::external_body]
pub(crate) fn read_csv(data: &[u8], delim: u8) -> (r: (Vec<Vec<String>>, bool))
    ensures
        r.1 == csv_complete(data@, delim),
        r.0@.len() <= csv_rows(data@, delim).len(),
        r.0.deep_view() == csv_rows(data@, delim).take(r.0@.len() as int),
        r.1 ==> r.0.deep_view() == csv_rows(data@, delim),
{
    let rdr = csv::ReaderBuilder::new().has_headers(false).flexible(true).delimiter(
        delim,
    ).from_reader(data);
    let mut rows: Vec<Vec<String>> = Vec::new();
    for rec in rdr.into_records() {
        match rec {
            Ok(r) => rows.push(r.iter().map(|f| f.to_string()).collect()),
            Err(_) => return (rows, false),
        }
    }
    (rows, true)
}

/// The label of column `i` in a combined description: the header entry
/// when one is available, a synthetic `Column <i>` otherwise.
pub open spec fn spec_label(headers: Option<Seq<Seq<char>>>, i: int) -> Seq<char> {
    match headers {
        Some(h) => if 0 <= i < h.len() {
            h[i]
        } else {
            "Column "@ + dec_str(i)
        },
        None => "Column "@ + dec_str(i),
    }
}

/// The combined description built from every field of `row` except the
/// title position, in column order, starting at column `i`: one
/// `<label>: <value>` fragment per field, each closed by a blank line.
pub open spec fn spec_fragments(
    row: Seq<Seq<char>>,
    tpos: int,
    headers: Option<Seq<Seq<char>>>,
    i: int,
) -> Seq<char>
    decreases row.len() - i,
{
    if i < 0 || i >= row.len() {
        Seq::empty()
    } else {
        let rest = spec_fragments(row, tpos, headers, i + 1);
        if i == tpos {
            rest
        } else {
            trim_of(spec_label(headers, i)) + ": "@ + row[i] + "\n\n"@ + rest
        }
    }
}

/// The record extracted from one data row, or the error that aborts the
/// extraction: a row too short for the title position is structural
/// corruption, while a missing optional description field is tolerated as
/// an absent description.
pub open spec fn spec_row_issue(
    row: Seq<Seq<char>>,
    ordinal: int,
    tpos: int,
    dpos: Option<int>,
    headers: Option<Seq<Seq<char>>>,
    p: FileParser,
) -> Result<IssueView, ExtractErrorView> {
    if row.len() <= tpos {
        Err(ExtractErrorView::MissingTitle(ordinal))
    } else {
        let desc = if p.combine_remaining {
            Some(spec_fragments(row, tpos, headers, 0))
        } else {
            match dpos {
                Some(d) => if 0 <= d < row.len() {
                    Some(row[d])
                } else {
                    None
                },
                None => None,
            }
        };
        Ok(
            IssueView {
                title: spec_prefixed(p.prepend_title.deep_view(), row[tpos]),
                description: desc,
            },
        )
    }
}

/// The records of the data rows from position `i` on, or the first error:
/// any row error aborts the whole extraction.
pub open spec fn spec_rows_issues(
    rows: Seq<Seq<Seq<char>>>,
    i: int,
    tpos: int,
    dpos: Option<int>,
    headers: Option<Seq<Seq<char>>>,
    p: FileParser,
) -> Result<Seq<IssueView>, ExtractErrorView>
    decreases rows.len() - i,
{
    if i < 0 || i >= rows.len() {
        Ok(Seq::empty())
    } else {
        match spec_row_issue(rows[i], i, tpos, dpos, headers, p) {
            Err(e) => Err(e),
            Ok(first) => match spec_rows_issues(rows, i + 1, tpos, dpos, headers, p) {
                Err(e) => Err(e),
                Ok(rest) => Ok(seq![first] + rest),
            },
        }
    }
}

/// The description position used for bounds checking: an explicit index is
/// always kept (and bounds-checked, even under the combine policy); a name is looked
/// up only when a header exists and the combine policy does not override
/// the description selector.
pub open spec fn spec_desc_pos(p: FileParser, header: Option<Seq<Seq<char>>>) -> Result<
    Option<int>,
    ResolveErrorView,
> {
    match p.description {
        None => Ok(None),
        Some(sel) => match sel@ {
            SelectorView::Index(i) => Ok(Some(i)),
            SelectorView::Name(n) => if p.combine_remaining || p.no_header {
                Ok(None)
            } else {
                match spec_resolve(SelectorView::Name(n), header) {
                    Ok(i) => Ok(Some(i)),
                    Err(e) => Err(e),
                }
            },
        },
    }
}

/// The streamed part of the extraction, once positions are resolved and
/// checked: the header row, when there is one, is not a data row.
pub open spec fn spec_csv_stream(
    table: Seq<Seq<Seq<char>>>,
    tpos: int,
    dpos: Option<int>,
    p: FileParser,
) -> Result<Seq<IssueView>, ExtractErrorView> {
    let rows = if p.no_header {
        table
    } else {
        table.drop_first()
    };
    let headers = if p.no_header {
        None
    } else {
        Some(table[0])
    };
    spec_rows_issues(
        rows,
        0,
        tpos,
        if p.combine_remaining {
            None
        } else {
            dpos
        },
        headers,
        p,
    )
}

/// The whole delimited-text extraction over an already parsed table:
/// resolve the title, resolve the description, validate both positions
/// against the width of the first row (the header row when there is one),
/// and only then stream the data rows. With no header, the first data row
/// provides the width.
pub open spec fn spec_csv_extract(table: Seq<Seq<Seq<char>>>, p: FileParser) -> Result<
    Seq<IssueView>,
    ExtractErrorView,
> {
    let head: Seq<Seq<char>> = if table.len() == 0 {
        Seq::empty()
    } else {
        table[0]
    };
    let header_opt: Option<Seq<Seq<char>>> = if p.no_header {
        None
    } else {
        Some(head)
    };
    match spec_resolve(p.title@, header_opt) {
        Err(e) => Err(ExtractErrorView::Resolve(e)),
        Ok(tpos) => match spec_desc_pos(p, header_opt) {
            Err(e) => Err(ExtractErrorView::Resolve(e)),
            Ok(dpos) => if tpos >= head.len() {
                Err(
                    ExtractErrorView::Resolve(
                        ResolveErrorView::IndexOutOfBounds(Field::Title, tpos, head.len() as int),
                    ),
                )
            } else {
                match dpos {
                    Some(d) => if d >= head.len() {
                        Err(
                            ExtractErrorView::Resolve(
                                ResolveErrorView::IndexOutOfBounds(
                                    Field::Description,
                                    d,
                                    head.len() as int,
                                ),
                            ),
                        )
                    } else {
                        spec_csv_stream(table, tpos, dpos, p)
                    },
                    None => spec_csv_stream(table, tpos, dpos, p),
                }
            },
        },
    }
}

/// The synthetic label of an unnamed column.
fn column_label(i: usize) -> (r: String)
    ensures
        r@ == "Column "@ + dec_str(i as int),
{
    let mut r = "Column ".to_owned();
    let num = usize_to_string(i);
    r.append(num.as_str());
    r
}

/// Builds the combined description of a row: every field but the title
/// one, as `<label>: <value>` fragments each closed by a blank line.
fn combine_fragments(row: &Vec<String>, tpos: usize, headers: Option<&Vec<String>>) -> (r: String)
    ensures
        r@ == spec_fragments(row.deep_view(), tpos as int, header_view(headers), 0),
{
    let ghost rv = row.deep_view();
    let ghost hv = header_view(headers);
    let mut r = String::new();
    let mut i: usize = 0;
    proof {
        assert(Seq::<char>::empty() + spec_fragments(rv, tpos as int, hv, 0) =~= spec_fragments(
            rv,
            tpos as int,
            hv,
            0,
        ));
    }
    while i < row.len()
        invariant
            i <= row.len(),
            rv == row.deep_view(),
            hv == header_view(headers),
            spec_fragments(rv, tpos as int, hv, 0) == r@ + spec_fragments(
                rv,
                tpos as int,
                hv,
                i as int,
            ),
        decreases row.len() - i,
    {
        if i != tpos {
            let label: String = match headers {
                Some(h) => if i < h.len() {
                    h[i].clone()
                } else {
                    column_label(i)
                },
                None => column_label(i),
            };
            proof {
                assert(label@ == spec_label(hv, i as int));
                assert(rv[i as int] == row@[i as int]@);
            }
            let trimmed = trim_str(label.as_str());
            r.append(trimmed.as_str());
            r.append(": ");
            r.append(row[i].as_str());
            r.append("\n\n");
            proof {
                assert(r@ + spec_fragments(rv, tpos as int, hv, i + 1) =~= (r@ + spec_fragments(
                    rv,
                    tpos as int,
                    hv,
                    i + 1,
                )));
                assert(spec_fragments(rv, tpos as int, hv, 0) =~= r@ + spec_fragments(
                    rv,
                    tpos as int,
                    hv,
                    i + 1,
                ));
            }
        }
        i = i + 1;
    }
    proof {
        assert(spec_fragments(rv, tpos as int, hv, rv.len() as int) =~= Seq::<char>::empty());
        assert(r@ + Seq::<char>::empty() =~= r@);
    }
    r
}

proof fn lemma_rows_err(
    rows: Seq<Seq<Seq<char>>>,
    k: int,
    i: int,
    tpos: int,
    dpos: Option<int>,
    headers: Option<Seq<Seq<char>>>,
    p: FileParser,
    e: ExtractErrorView,
)
    requires
        0 <= k <= i < rows.len(),
        forall|j: int| k <= j < i ==> (spec_row_issue(rows[j], j, tpos, dpos, headers, p) is Ok),
        spec_row_issue(rows[i], i, tpos, dpos, headers, p) == Err::<IssueView, ExtractErrorView>(e),
    ensures
        spec_rows_issues(rows, k, tpos, dpos, headers, p) == Err::<Seq<IssueView>, ExtractErrorView>(
            e,
        ),
    decreases i - k,
{
    if k < i {
        lemma_rows_err(rows, k + 1, i, tpos, dpos, headers, p, e);
    }
}

proof fn lemma_rows_ok(
    rows: Seq<Seq<Seq<char>>>,
    k: int,
    tpos: int,
    dpos: Option<int>,
    headers: Option<Seq<Seq<char>>>,
    p: FileParser,
    out: Seq<IssueView>,
)
    requires
        0 <= k <= rows.len(),
        out.len() == rows.len() - k,
        forall|j: int|
            k <= j < rows.len() ==> spec_row_issue(rows[j], j, tpos, dpos, headers, p) == Ok::<
                IssueView,
                ExtractErrorView,
            >(out[j - k]),
    ensures
        spec_rows_issues(rows, k, tpos, dpos, headers, p) == Ok::<Seq<IssueView>, ExtractErrorView>(
            out,
        ),
    decreases rows.len() - k,
{
    if k == rows.len() {
        assert(out =~= Seq::<IssueView>::empty());
    } else {
        lemma_rows_ok(rows, k + 1, tpos, dpos, headers, p, out.drop_first());
        assert(spec_row_issue(rows[k], k, tpos, dpos, headers, p) == Ok::<
            IssueView,
            ExtractErrorView,
        >(out[0]));
        assert(seq![out[0]] + out.drop_first() =~= out);
    }
}

/// The first byte of the UTF-8 encoding of a character; this is the byte
/// the csv reader is given as its field delimiter.
pub open spec fn first_utf8_byte(c: char) -> u8 {
    let u = (c as u32) as int;
    if u < 0x80 {
        u as u8
    } else if u < 0x800 {
        (0xc0 + u / 0x40) as u8
    } else if u < 0x10000 {
        (0xe0 + u / 0x1000) as u8
    } else {
        (0xf0 + u / 0x40000) as u8
    }
}

/// The field delimiter byte: the first byte of the configured separator,
/// or a comma when none is configured.
pub open spec fn spec_delim(sep: Option<char>) -> u8 {
    match sep {
        Some(c) => first_utf8_byte(c),
        None => first_utf8_byte(','),
    }
}

pub(crate) fn delim_byte(sep: Option<char>) -> (b: u8)
    ensures
        b == spec_delim(sep),
{
    let c: char = match sep {
        Some(c) => c,
        None => ',',
    };
    let u = c as u32;
    if u < 0x80 {
        u as u8
    } else if u < 0x800 {
        (0xc0 + u / 0x40) as u8
    } else if u < 0x10000 {
        (0xe0 + u / 0x1000) as u8
    } else {
        (0xf0 + u / 0x40000) as u8
    }
}

proof fn lemma_rows_prefix_err(
    rows: Seq<Seq<Seq<char>>>,
    m: int,
    i: int,
    tpos: int,
    dpos: Option<int>,
    headers: Option<Seq<Seq<char>>>,
    p: FileParser,
)
    requires
        0 <= i <= m <= rows.len(),
        spec_rows_issues(rows.take(m), i, tpos, dpos, headers, p) is Err,
    ensures
        spec_rows_issues(rows, i, tpos, dpos, headers, p) == spec_rows_issues(
            rows.take(m),
            i,
            tpos,
            dpos,
            headers,
            p,
        ),
    decreases m - i,
{
    let pre = rows.take(m);
    assert(i < m);
    assert(pre[i] == rows[i]);
    match spec_row_issue(rows[i], i, tpos, dpos, headers, p) {
        Err(e) => {},
        Ok(first) => {
            lemma_rows_prefix_err(rows, m, i + 1, tpos, dpos, headers, p);
        },
    }
}

/// A failed extraction over a decoded prefix of the table is the failed
/// extraction over the whole table: the first error lies within the
/// prefix, so rows beyond it cannot change the outcome.
pub(crate) proof fn lemma_csv_prefix_err(t: Seq<Seq<Seq<char>>>, m: int, p: FileParser)
    requires
        1 <= m <= t.len(),
        spec_csv_extract(t.take(m), p) is Err,
    ensures
        spec_csv_extract(t, p) == spec_csv_extract(t.take(m), p),
{
    let pre = t.take(m);
    assert(pre[0] == t[0]);
    let head: Seq<Seq<char>> = t[0];
    let header_opt: Option<Seq<Seq<char>>> = if p.no_header {
        None
    } else {
        Some(head)
    };
    match spec_resolve(p.title@, header_opt) {
        Err(e) => {},
        Ok(tpos) => match spec_desc_pos(p, header_opt) {
            Err(e) => {},
            Ok(dpos) => {
                if tpos < head.len() {
                    let sdpos = if p.combine_remaining {
                        None
                    } else {
                        dpos
                    };
                    let rows_full = if p.no_header {
                        t
                    } else {
                        t.drop_first()
                    };
                    let rows_pre = if p.no_header {
                        pre
                    } else {
                        pre.drop_first()
                    };
                    let ok_desc = match dpos {
                        Some(d) => d < head.len(),
                        None => true,
                    };
                    if ok_desc {
                        assert(rows_pre =~= rows_full.take(rows_pre.len() as int));
                        lemma_rows_prefix_err(
                            rows_full,
                            rows_pre.len() as int,
                            0,
                            tpos,
                            sdpos,
                            header_opt,
                            p,
                        );
                    }
                }
            },
        },
    }
}

proof fn lemma_rows_err_is_missing_title(
    rows: Seq<Seq<Seq<char>>>,
    i: int,
    tpos: int,
    dpos: Option<int>,
    headers: Option<Seq<Seq<char>>>,
    p: FileParser,
)
    ensures
        spec_rows_issues(rows, i, tpos, dpos, headers, p) matches Err(e) ==> e is MissingTitle,
    decreases rows.len() - i,
{
    if 0 <= i < rows.len() {
        lemma_rows_err_is_missing_title(rows, i + 1, tpos, dpos, headers, p);
    }
}

/// With no header and an index-selected title, the extraction never
/// performs a name lookup: it can fail with an out-of-bounds index or a
/// missing title field, but never with a name-not-found or
/// header-required error.
pub proof fn lemma_index_title_never_name_lookup(table: Seq<Seq<Seq<char>>>, p: FileParser)
    requires
        p.no_header,
        p.title is ByIndex,
    ensures
        !(spec_csv_extract(table, p) matches Err(e) && (e matches ExtractErrorView::Resolve(re) && (
        re is NameNotFound || re is HeaderRequired))),
{
    let head: Seq<Seq<char>> = if table.len() == 0 {
        Seq::empty()
    } else {
        table[0]
    };
    match spec_desc_pos(p, None) {
        Err(e) => {
            assert(false);
        },
        Ok(dpos) => {
            lemma_rows_err_is_missing_title(
                table,
                0,
                p.title@->Index_0,
                if p.combine_remaining {
                    None
                } else {
                    dpos
                },
                None,
                p,
            );
        },
    }
}

/// The extraction is a function of the parsed table and the configuration
/// alone: two results that both match the spec model agree — in
/// particular, re-running a combine-mode extraction over the same rows
/// yields byte-identical description strings.
pub proof fn lemma_extraction_deterministic(
    table: Seq<Seq<Seq<char>>>,
    p: FileParser,
    r1: Result<Vec<IssueFromFile>, ExtractError>,
    r2: Result<Vec<IssueFromFile>, ExtractError>,
)
    requires
        issues_result_matches(r1, spec_csv_extract(table, p)),
        issues_result_matches(r2, spec_csv_extract(table, p)),
    ensures
        r1 is Ok <==> r2 is Ok,
        r1 matches Ok(v1) ==> (r2 matches Ok(v2) ==> v1.deep_view() == v2.deep_view()),
        r1 matches Err(e1) ==> (r2 matches Err(e2) ==> e1@ == e2@),
{
}

/// The head row of a table: the header row when one exists, the first
/// data row otherwise, and empty for an empty table.
pub open spec fn spec_head(table: Seq<Seq<Seq<char>>>) -> Seq<Seq<char>> {
    if table.len() == 0 {
        Seq::empty()
    } else {
        table[0]
    }
}

/// An index-selected title at or beyond the head-row width is rejected as
/// out of bounds before any data row is considered: the outcome does not
/// depend on the rows at all (provided the description selector itself
/// resolves, which a name-based description that is absent from the
/// header would prevent first).
pub proof fn lemma_title_bounds_precede_rows(table: Seq<Seq<Seq<char>>>, p: FileParser, i: int)
    requires
        p.title@ == SelectorView::Index(i),
        spec_desc_pos(
            p,
            if p.no_header {
                None
            } else {
                Some(spec_head(table))
            },
        ) is Ok,
        i >= spec_head(table).len(),
    ensures
        spec_csv_extract(table, p) == Err::<Seq<IssueView>, ExtractErrorView>(
            ExtractErrorView::Resolve(
                ResolveErrorView::IndexOutOfBounds(Field::Title, i, spec_head(table).len() as int),
            ),
        ),
{
}

proof fn lemma_err_from_short_row(
    rows: Seq<Seq<Seq<char>>>,
    i: int,
    k: int,
    tpos: int,
    dpos: Option<int>,
    headers: Option<Seq<Seq<char>>>,
    p: FileParser,
)
    requires
        0 <= i <= k < rows.len(),
        rows[k].len() <= tpos,
    ensures
        spec_rows_issues(rows, i, tpos, dpos, headers, p) is Err,
    decreases k - i,
{
    if i < k {
        lemma_err_from_short_row(rows, i + 1, k, tpos, dpos, headers, p);
    }
}

/// A data row with no field at the title position aborts the whole
/// streamed extraction: the result is an error, never a partial sequence
/// of records.
pub proof fn lemma_short_row_yields_no_records(
    rows: Seq<Seq<Seq<char>>>,
    k: int,
    tpos: int,
    dpos: Option<int>,
    headers: Option<Seq<Seq<char>>>,
    p: FileParser,
)
    requires
        0 <= k < rows.len(),
        rows[k].len() <= tpos,
    ensures
        spec_rows_issues(rows, 0, tpos, dpos, headers, p) is Err,
{
    lemma_err_from_short_row(rows, 0, k, tpos, dpos, headers, p);
}

/// When a prefix is configured, the title of every record the text path
/// yields is exactly the prefix, one space, and the raw title field.
pub proof fn lemma_prefix_shapes_csv_title(
    row: Seq<Seq<char>>,
    ordinal: int,
    tpos: int,
    dpos: Option<int>,
    headers: Option<Seq<Seq<char>>>,
    p: FileParser,
    pre: Seq<char>,
)
    requires
        p.prepend_title.deep_view() == Some(pre),
    ensures
        spec_row_issue(row, ordinal, tpos, dpos, headers, p) matches Ok(v) ==> v.title == pre + " "@
            + row[tpos],
{
}

/// Turns an already parsed table of rows into records, under the full
/// extraction policy: this is the whole delimited-text logic short of the
/// byte-level parse itself.
pub fn rows_to_issues(rows: &Vec<Vec<String>>, p: &FileParser) -> (r: Result<
    Vec<IssueFromFile>,
    ExtractError,
>)
    ensures
        issues_result_matches(r, spec_csv_extract(rows.deep_view(), *p)),
{
    let ghost table = rows.deep_view();
    let empty_head: Vec<String> = Vec::new();
    let head: &Vec<String> = if rows.len() == 0 {
        &empty_head
    } else {
        &rows[0]
    };
    proof {
        if table.len() == 0 {
            assert(head.deep_view() =~= Seq::<Seq<char>>::empty());
        } else {
            assert(head.deep_view() =~= table[0]);
        }
    }
    let ghost head_v: Seq<Seq<char>> = if table.len() == 0 {
        Seq::empty()
    } else {
        table[0]
    };
    let header_for_resolve: Option<&Vec<String>> = if p.no_header {
        None
    } else {
        Some(head)
    };
    let ghost header_opt: Option<Seq<Seq<char>>> = if p.no_header {
        None
    } else {
        Some(head_v)
    };
    proof {
        assert(header_view(header_for_resolve) == header_opt);
    }
    let tpos: usize = match resolve(&p.title, header_for_resolve) {
        Ok(i) => i,
        Err(e) => {
            return Err(ExtractError::Resolve(e));
        },
    };
    let dpos: Option<usize> = match &p.description {
        None => None,
        Some(sel) => match sel {
            FieldSelector::ByIndex(i) => Some(*i),
            FieldSelector::ByName(_) => {
                if p.combine_remaining || p.no_header {
                    None
                } else {
                    match resolve(sel, Some(head)) {
                        Ok(i) => Some(i),
                        Err(e) => {
                            return Err(ExtractError::Resolve(e));
                        },
                    }
                }
            },
        },
    };
    proof {
        assert(spec_desc_pos(*p, header_opt) == Ok::<Option<int>, ResolveErrorView>(
            match dpos {
                Some(d) => Some(d as int),
                None => None,
            },
        ));
    }
    let limit: usize = head.len();
    if let Err(e) = check_bounds(Field::Title, tpos, limit) {
        return Err(ExtractError::Resolve(e));
    }
    if let Some(d) = dpos {
        if let Err(e) = check_bounds(Field::Description, d, limit) {
            return Err(ExtractError::Resolve(e));
        }
    }
    let start: usize = if p.no_header {
        0
    } else {
        1
    };
    proof {
        assert(head_v.len() > 0);
        assert(rows@.len() >= start);
    }
    let ghost data_rows: Seq<Seq<Seq<char>>> = if p.no_header {
        table
    } else {
        table.drop_first()
    };
    let ghost labels: Option<Seq<Seq<char>>> = header_opt;
    let ghost sdpos: Option<int> = if p.combine_remaining {
        None
    } else {
        match dpos {
            Some(d) => Some(d as int),
            None => None,
        }
    };
    proof {
        assert(spec_csv_extract(table, *p) == spec_rows_issues(
            data_rows,
            0,
            tpos as int,
            sdpos,
            labels,
            *p,
        ));
    }
    let mut out: Vec<IssueFromFile> = Vec::new();
    let mut j: usize = start;
    while j < rows.len()
        invariant
            start <= j <= rows.len(),
            start == 0 || start == 1,
            p.no_header <==> start == 0,
            table == rows.deep_view(),
            head_v == (if table.len() == 0 {
                Seq::<Seq<char>>::empty()
            } else {
                table[0]
            }),
            head.deep_view() == head_v,
            !p.no_header ==> table.len() > 0,
            tpos < head_v.len(),
            spec_csv_extract(table, *p) == spec_rows_issues(
                data_rows,
                0,
                tpos as int,
                sdpos,
                labels,
                *p,
            ),
            data_rows == (if p.no_header {
                table
            } else {
                table.drop_first()
            }),
            labels == (if p.no_header {
                None::<Seq<Seq<char>>>
            } else {
                Some(table[0])
            }),
            sdpos == (if p.combine_remaining {
                None::<int>
            } else {
                match dpos {
                    Some(d) => Some(d as int),
                    None => None,
                }
            }),
            out@.len() == j - start,
            forall|k: int|
                0 <= k < out@.len() ==> spec_row_issue(data_rows[k], k, tpos as int, sdpos, labels, *p)
                    == Ok::<IssueView, ExtractErrorView>(out@[k]@),
        decreases rows.len() - j,
    {
        let row = &rows[j];
        let ghost k: int = j - start;
        proof {
            assert(data_rows[k] =~= row.deep_view());
        }
        if row.len() <= tpos {
            proof {
                lemma_rows_err(
                    data_rows,
                    0,
                    k,
                    tpos as int,
                    sdpos,
                    labels,
                    *p,
                    ExtractErrorView::MissingTitle(k),
                );
            }
            return Err(ExtractError::MissingTitle(j - start));
        }
        let raw = row[tpos].clone();
        let headers_arg: Option<&Vec<String>> = if p.no_header {
            None
        } else {
            Some(head)
        };
        let desc: Option<String> = if p.combine_remaining {
            Some(combine_fragments(row, tpos, headers_arg))
        } else {
            match dpos {
                Some(d) => if d < row.len() {
                    Some(row[d].clone())
                } else {
                    None
                },
                None => None,
            }
        };
        let title = apply_prefix(&p.prepend_title, raw);
        let issue = IssueFromFile { title, description: desc };
        proof {
            assert(spec_row_issue(data_rows[k], k, tpos as int, sdpos, labels, *p) == Ok::<
                IssueView,
                ExtractErrorView,
            >(issue@));
        }
        out.push(issue);
        j = j + 1;
    }
    proof {
        assert(forall|k: int|
            0 <= k < out@.len() ==> out.deep_view()[k] == #[trigger] out@[k].deep_view());
        lemma_rows_ok(data_rows, 0, tpos as int, sdpos, labels, *p, out.deep_view());
    }
    Ok(out)
}

} // verus!
