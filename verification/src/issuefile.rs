//! The parser configuration and the extraction entry point.
//!
//! A [`FileParser`] is built once from externally supplied options and is
//! read-only afterwards; `get_issues` consumes a whole document (handed in
//! as bytes) and returns either every extracted record or the first error,
//! never a partial sequence.

use vstd::prelude::*;
use crate::csvpath::{
    csv_complete, csv_rows, delim_byte, lemma_csv_prefix_err,
    lemma_index_title_never_name_lookup, read_csv, rows_to_issues, spec_csv_extract, spec_delim,
};
use crate::jsonpath::{json_doc, parse_json, spec_value_issues, value_to_issues};
use crate::records::{IssueFromFile, IssueView};
use crate::resolve::{FieldSelector, ResolveError, ResolveErrorView, SelectorView};
use crate::text::{lower_of, lowercase};

verus! {

/// Why a whole extraction failed.
#[derive(Debug, Clone, PartialEq, Eq)]
pub enum ExtractError {
    /// The file extension names neither supported format.
    UnsupportedFileType,
    /// The source bytes could not be read or decoded.
    Source,
    /// A selector could not be resolved, or a resolved position is out of
    /// bounds: a configuration error, raised before any row is streamed.
    Resolve(ResolveError),
    /// A text row (the payload is its zero-based ordinal) has no field at
    /// the title position: structural corruption, fatal.
    MissingTitle(usize),
    /// The JSON document root is neither an object nor an array of objects.
    Format,
    /// A JSON value under the named key is a nested object or array, which
    /// cannot be stringified.
    ValueType(String),
}

/// The mathematical value of an [`ExtractError`].
pub enum ExtractErrorView {
    UnsupportedFileType,
    Source,
    Resolve(ResolveErrorView),
    MissingTitle(int),
    Format,
    ValueType(Seq<char>),
}

impl View for ExtractError {
    type V = ExtractErrorView;

    open spec fn view(&self) -> ExtractErrorView {
        match self {
            ExtractError::UnsupportedFileType => ExtractErrorView::UnsupportedFileType,
            ExtractError::Source => ExtractErrorView::Source,
            ExtractError::Resolve(e) => ExtractErrorView::Resolve(e@),
            ExtractError::MissingTitle(i) => ExtractErrorView::MissingTitle(*i as int),
            ExtractError::Format => ExtractErrorView::Format,
            ExtractError::ValueType(k) => ExtractErrorView::ValueType(k@),
        }
    }
}

/// Whether an executable extraction result has the mathematical value
/// `s`: equal records on success, equal errors on failure.
pub open spec fn issues_result_matches(
    r: Result<Vec<IssueFromFile>, ExtractError>,
    s: Result<Seq<IssueView>, ExtractErrorView>,
) -> bool {
    match (r, s) {
        (Ok(v), Ok(sv)) => v.deep_view() == sv,
        (Err(e), Err(f)) => e@ == f,
        _ => false,
    }
}

/// The position of the last `.` in `name` at or before position `i`.
pub open spec fn spec_last_dot_from(name: Seq<char>, i: int) -> Option<int>
    decreases i + 1,
{
    if i < 0 || i >= name.len() {
        None
    } else if name[i] == '.' {
        Some(i)
    } else {
        spec_last_dot_from(name, i - 1)
    }
}

/// Whether a file name has an extension: a `.` after its first character,
/// as the standard path rules have it (a leading dot alone marks a hidden
/// file, not an extension).
pub open spec fn has_extension(name: Seq<char>) -> bool {
    match spec_last_dot_from(name, name.len() - 1) {
        Some(d) => d > 0,
        None => false,
    }
}

/// The extension of a file name: what follows the last `.`.
pub open spec fn spec_extension(name: Seq<char>) -> Seq<char>
    recommends
        has_extension(name),
{
    match spec_last_dot_from(name, name.len() - 1) {
        Some(d) => name.subrange(d + 1, name.len() as int),
        None => Seq::empty(),
    }
}

/// Returns the extension of `name`, the part after its last dot.
pub(crate) fn extension_of(name: &str) -> (r: String)
    requires
        has_extension(name@),
    ensures
        r@ == spec_extension(name@),
{
    let n = name.unicode_len();
    let ghost nv = name@;
    let mut i: usize = n;
    let mut dot: usize = 0;
    let mut found = false;
    while i > 0
        invariant_except_break
            i <= n,
            n == nv.len(),
            nv == name@,
            !found,
            spec_last_dot_from(nv, nv.len() - 1) == spec_last_dot_from(nv, i - 1),
        ensures
            found ==> dot < n && spec_last_dot_from(nv, nv.len() - 1) == Some(dot as int),
            !found ==> spec_last_dot_from(nv, nv.len() - 1) is None,
        decreases i,
    {
        if name.get_char(i - 1) == '.' {
            dot = i - 1;
            found = true;
            break;
        }
        i = i - 1;
    }
    proof {
        assert(found);
    }
    let sub = name.substring_char(dot + 1, n);
    sub.to_owned()
}

/// The selector built from an optional name and an optional explicit
/// index: the index always wins, and the name is discarded then.
pub open spec fn spec_selector(key: Option<Seq<char>>, index: Option<usize>) -> SelectorView
    recommends
        key is Some || index is Some,
{
    match index {
        Some(i) => SelectorView::Index(i as int),
        None => match key {
            Some(k) => SelectorView::Name(k),
            None => SelectorView::Name(Seq::empty()),
        },
    }
}

/// The optional description selector built from an optional name and an
/// optional explicit index: `None` only when neither is given.
pub open spec fn spec_opt_selector(key: Option<Seq<char>>, index: Option<usize>) -> Option<
    SelectorView,
> {
    if key is None && index is None {
        None
    } else {
        Some(spec_selector(key, index))
    }
}

/// The view of an optional selector.
pub open spec fn opt_selector_view(sel: Option<FieldSelector>) -> Option<SelectorView> {
    match sel {
        Some(s) => Some(s@),
        None => None,
    }
}

/// The immutable extraction configuration: which format the file name
/// announces, how fields are located, and how descriptions and titles are
/// shaped.
#[derive(Debug)]
pub struct FileParser {
    /// The file extension, case-folded, which picks the format.
    pub file_extension: String,
    /// The field delimiter for delimited text; a missing one means comma.
    pub separator: Option<char>,
    /// Whether the text document lacks a header row.
    pub no_header: bool,
    /// How the title field is located.
    pub title: FieldSelector,
    /// How the description field is located, if one is configured at all.
    pub description: Option<FieldSelector>,
    /// A static prefix prepended (with one space) to every title.
    pub prepend_title: Option<String>,
    /// When set, every non-title field is folded into the description.
    pub combine_remaining: bool,
}

impl FileParser {
    /// Builds the configuration. The explicit column indices win over the
    /// key names, which are discarded then, so that a name lookup can
    /// never be attempted once an index is supplied.
    pub fn new(
        file_name: &str,
        separator: Option<char>,
        no_header: bool,
        title_key: Option<String>,
        title_column_index: Option<usize>,
        description_key: Option<String>,
        description_column_index: Option<usize>,
        prepend_title: Option<String>,
        combine_remaining: bool,
    ) -> (p: FileParser)
        requires
            has_extension(file_name@),
            title_key is Some || title_column_index is Some,
        ensures
            p.file_extension@ == lower_of(spec_extension(file_name@)),
            p.separator == separator,
            p.no_header == no_header,
            p.title@ == spec_selector(title_key.deep_view(), title_column_index),
            opt_selector_view(p.description) == spec_opt_selector(
                description_key.deep_view(),
                description_column_index,
            ),
            p.prepend_title == prepend_title,
            p.combine_remaining == combine_remaining,
    {
        let ext = extension_of(file_name);
        let file_extension = lowercase(ext.as_str());
        let title = match title_column_index {
            Some(i) => FieldSelector::ByIndex(i),
            None => match title_key {
                Some(k) => FieldSelector::ByName(k),
                None => FieldSelector::ByName(String::new()),
            },
        };
        let description = match description_column_index {
            Some(i) => Some(FieldSelector::ByIndex(i)),
            None => match description_key {
                Some(k) => Some(FieldSelector::ByName(k)),
                None => None,
            },
        };
        FileParser {
            file_extension,
            separator,
            no_header,
            title,
            description,
            prepend_title,
            combine_remaining,
        }
    }

    /// Whether the configured extension selects the delimited-text path.
    pub open spec fn spec_is_csv(self) -> bool {
        self.file_extension@ == "csv"@
    }

    /// Whether the configured extension selects the JSON path.
    pub open spec fn spec_is_json(self) -> bool {
        self.file_extension@ == "json"@
    }

    /// Extracts every record from a whole source document, or fails with
    /// the first error; no partial sequence is ever returned.
    ///
    /// On the delimited-text path the result is pinned to the spec model
    /// over the rows the csv reader yields; only an input the reader
    /// cannot decode completely may instead end as a source error. On the
    /// JSON path the result is pinned to the spec model over the parsed
    /// document, a source error exactly when the bytes do not parse, and
    /// the errors are confined to an undecodable source, a bad root
    /// shape, and a nested value. With no header and an index-selected
    /// title no name lookup ever happens, so a name-not-found or
    /// header-required error is impossible then.
    pub fn get_issues(&self, data: &[u8]) -> (r: Result<Vec<IssueFromFile>, ExtractError>)
        ensures
            self.spec_is_csv() ==> (issues_result_matches(
                r,
                spec_csv_extract(csv_rows(data@, spec_delim(self.separator)), *self),
            ) || (!csv_complete(data@, spec_delim(self.separator)) && (r matches Err(e)
                && e@ is Source))),
            self.spec_is_json() ==> (match json_doc(data@) {
                Some(v) => issues_result_matches(r, spec_value_issues(v, *self)),
                None => r matches Err(e) && e@ is Source,
            }),
            self.spec_is_json() ==> (r matches Err(e) ==> (e@ is Source || e@ is Format
                || e@ is ValueType)),
            !self.spec_is_csv() && !self.spec_is_json() ==> (r matches Err(e)
                && e@ is UnsupportedFileType),
            self.no_header && self.title is ByIndex ==> !(r matches Err(e)
                && e@ matches ExtractErrorView::Resolve(re) && (re is NameNotFound
                || re is HeaderRequired)),
    {
        proof {
            reveal_strlit("csv");
            reveal_strlit("json");
        }
        let csv_lit: String = "csv".to_owned();
        let json_lit: String = "json".to_owned();
        if self.file_extension == csv_lit {
            proof {
                assert(self.file_extension@ == "csv"@);
                assert("csv"@.len() == 3);
                assert("json"@.len() == 4);
                assert(!self.spec_is_json());
            }
            let delim = delim_byte(self.separator);
            let ghost full = csv_rows(data@, delim);
            let parsed = read_csv(data, delim);
            let rows = parsed.0;
            let complete = parsed.1;
            if rows.len() == 0 && !complete {
                return Err(ExtractError::Source);
            }
            let res = rows_to_issues(&rows, self);
            proof {
                if self.no_header && self.title is ByIndex {
                    lemma_index_title_never_name_lookup(rows.deep_view(), *self);
                }
            }
            if complete {
                return res;
            }
            match res {
                Ok(_) => Err(ExtractError::Source),
                Err(e) => {
                    proof {
                        lemma_csv_prefix_err(full, rows@.len() as int, *self);
                    }
                    Err(e)
                },
            }
        } else if self.file_extension == json_lit {
            match parse_json(data) {
                None => Err(ExtractError::Source),
                Some(v) => value_to_issues(&v, self),
            }
        } else {
            Err(ExtractError::UnsupportedFileType)
        }
    }
}

} // verus!
