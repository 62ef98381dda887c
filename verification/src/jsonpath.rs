//! The JSON path of the record extractor.
//!
//! The byte-level parse and the reads of the opaque document tree are
//! delegated to `serde_json` behind trusted items, whose contracts speak
//! of the parsed document through names (`json_doc`, `json_arr`,
//! `json_obj`, `obj_members`); each object's entries are handed over as
//! plain key/value pairs. The walk of the root and the record
//! construction over the pairs — title matching, combine policy,
//! last-write description policy, stringify-or-reject — are verified
//! against the spec model in this module, so the whole extraction is
//! pinned down to those names.

use vstd::prelude::*;
use crate::issuefile::{issues_result_matches, ExtractError, ExtractErrorView, FileParser};
use crate::records::{IssueFromFile, IssueView};
use crate::resolve::{FieldSelector, SelectorView};
use crate::text::{apply_prefix, lower_of, lowercase, spec_prefixed, trim_of, trim_str};

verus! {

#[verifier::external_type_specification]
#[verifier::external_body]
pub struct ExValue(serde_json::Value);

#[verifier::external_type_specification]
#[verifier::external_body]
#[verifier::reject_recursive_types(K)]
#[verifier::reject_recursive_types(V)]
pub struct ExMap<K, V>(serde_json::Map<K, V>);

/// The value that `serde_json::from_slice` parses from these bytes: a
/// deterministic function of the bytes, nothing when they are not a
/// well-formed JSON document.
pub uninterp spec fn json_doc(data: Seq<u8>) -> Option<serde_json::Value>;

/// The elements of a JSON value that is an array, in order; nothing for
/// any other value.
pub uninterp spec fn json_arr(v: serde_json::Value) -> Option<Seq<serde_json::Value>>;

/// The entry map of a JSON value that is an object; nothing for any
/// other value.
pub uninterp spec fn json_obj(v: serde_json::Value) -> Option<
    serde_json::Map<String, serde_json::Value>,
>;

/// What an object's entry map holds: its entries in the map's own
/// (deterministic) order, each value reduced to its scalar text form or
/// marked as nested.
pub uninterp spec fn obj_members(m: serde_json::Map<String, serde_json::Value>) -> Seq<MemberView>;

/// Relies on `serde_json::Value::as_array`: the array elements exactly
/// when the value is an array.
pub assume_specification<'a>[ serde_json::Value::as_array ](v: &'a serde_json::Value) -> (r:
    Option<&'a Vec<serde_json::Value>>)
    ensures
        match r {
            Some(a) => json_arr(*v) == Some(a@),
            None => json_arr(*v) is None,
        },
;

/// Relies on `serde_json::Value::as_object`: the entry map exactly when
/// the value is an object.
pub assume_specification<'a>[ serde_json::Value::as_object ](v: &'a serde_json::Value) -> (r:
    Option<&'a serde_json::Map<String, serde_json::Value>>)
    ensures
        match r {
            Some(m) => json_obj(*v) == Some(*m),
            None => json_obj(*v) is None,
        },
;

/// Relies on `serde_json::from_slice`: parses the bytes as one JSON
/// document, or fails on malformed input; the outcome depends on the
/// bytes alone.
#[verifier::external_body]
pub(crate) fn parse_json(data: &[u8]) -> (r: Option<serde_json::Value>)
    ensures
        r == json_doc(data@),
{
    serde_json::from_slice(data).ok()
}

/// A scalar JSON value in its text form, or the mark that the value was a
/// nested object or array, which the extractor rejects.
#[derive(Debug, Clone, PartialEq, Eq)]
pub enum JsonAtom {
    /// A JSON string, as itself.
    Str(String),
    /// A JSON number, as its literal text.
    Num(String),
    /// A JSON boolean.
    Bool(bool),
    /// The JSON null.
    Null,
    /// A nested object or array.
    Nested,
}

/// The mathematical value of a [`JsonAtom`].
pub enum AtomView {
    Str(Seq<char>),
    Num(Seq<char>),
    Bool(bool),
    Null,
    Nested,
}

impl View for JsonAtom {
    type V = AtomView;

    open spec fn view(&self) -> AtomView {
        match self {
            JsonAtom::Str(s) => AtomView::Str(s@),
            JsonAtom::Num(n) => AtomView::Num(n@),
            JsonAtom::Bool(b) => AtomView::Bool(*b),
            JsonAtom::Null => AtomView::Null,
            JsonAtom::Nested => AtomView::Nested,
        }
    }
}

impl DeepView for JsonAtom {
    type V = AtomView;

    open spec fn deep_view(&self) -> AtomView {
        self.view()
    }
}

/// One key/value entry of a JSON object.
#[derive(Debug, Clone, PartialEq, Eq)]
pub struct JsonMember {
    pub key: String,
    pub value: JsonAtom,
}

/// The mathematical value of a [`JsonMember`].
pub struct MemberView {
    pub key: Seq<char>,
    pub value: AtomView,
}

impl View for JsonMember {
    type V = MemberView;

    open spec fn view(&self) -> MemberView {
        MemberView { key: self.key@, value: self.value@ }
    }
}

impl DeepView for JsonMember {
    type V = MemberView;

    open spec fn deep_view(&self) -> MemberView {
        self.view()
    }
}

/// Relies on `serde_json::Map` iteration and the variants of
/// `serde_json::Value`: hands out the object's entries in the map's own
/// (deterministic) order, each value reduced to its scalar text form —
/// strings as themselves, numbers as their literal text, booleans and
/// null as their keywords — or marked as nested.
#[verifier::external_body]
fn object_members(m: &serde_json::Map<String, serde_json::Value>) -> (r: Vec<JsonMember>)
    ensures
        r.deep_view() == obj_members(*m),
{
    m.iter().map(
        |kv: (&String, &serde_json::Value)|
            JsonMember {
                key: kv.0.clone(),
                value: match kv.1 {
                    serde_json::Value::String(s) => JsonAtom::Str(s.clone()),
                    serde_json::Value::Bool(b) => JsonAtom::Bool(*b),
                    serde_json::Value::Number(n) => JsonAtom::Num(n.to_string()),
                    serde_json::Value::Null => JsonAtom::Null,
                    _ => JsonAtom::Nested,
                },
            },
    ).collect()
}

/// The text form of a scalar value: a string as itself, a number as its
/// literal text, a boolean or null as its keyword; nothing for a nested
/// value.
pub open spec fn spec_atom_text(a: AtomView) -> Option<Seq<char>> {
    match a {
        AtomView::Str(s) => Some(s),
        AtomView::Num(n) => Some(n),
        AtomView::Bool(b) => Some(
            if b {
                "true"@
            } else {
                "false"@
            },
        ),
        AtomView::Null => Some("null"@),
        AtomView::Nested => None,
    }
}

/// The configured title key, for the JSON path: only a name-based
/// selector can match keys; an index selector never matches.
pub open spec fn spec_title_key(p: FileParser) -> Option<Seq<char>> {
    match p.title@ {
        SelectorView::Name(n) => Some(n),
        SelectorView::Index(_) => None,
    }
}

/// The configured description key, for the JSON path.
pub open spec fn spec_desc_key(p: FileParser) -> Option<Seq<char>> {
    match p.description {
        Some(sel) => match sel@ {
            SelectorView::Name(n) => Some(n),
            SelectorView::Index(_) => None,
        },
        None => None,
    }
}

/// The record built from an object's entries from position `i` on, given
/// the title candidate and description accumulator so far. Keys are
/// matched case-insensitively; a later title match overwrites an earlier
/// one, the combine policy appends a fragment per non-title entry, and a
/// description key match replaces the accumulator (last write wins). A
/// nested value aborts with the offending key. An object with no title
/// match keeps the empty title.
pub open spec fn spec_members_issue_from(
    members: Seq<MemberView>,
    i: int,
    title: Seq<char>,
    acc: Option<Seq<char>>,
    p: FileParser,
) -> Result<IssueView, ExtractErrorView>
    decreases members.len() - i,
{
    if i < 0 || i >= members.len() {
        Ok(
            IssueView {
                title: spec_prefixed(p.prepend_title.deep_view(), title),
                description: acc,
            },
        )
    } else {
        let m = members[i];
        match spec_atom_text(m.value) {
            None => Err(ExtractErrorView::ValueType(m.key)),
            Some(val) => {
                let title_match = match spec_title_key(p) {
                    Some(k) => lower_of(m.key) == lower_of(k),
                    None => false,
                };
                if title_match {
                    spec_members_issue_from(members, i + 1, val, acc, p)
                } else if p.combine_remaining {
                    let prev = match acc {
                        Some(a) => a,
                        None => Seq::empty(),
                    };
                    spec_members_issue_from(
                        members,
                        i + 1,
                        title,
                        Some(prev + trim_of(m.key) + ": "@ + val + "\n\n"@),
                        p,
                    )
                } else {
                    let desc_match = match spec_desc_key(p) {
                        Some(k) => lower_of(m.key) == lower_of(k),
                        None => false,
                    };
                    if desc_match {
                        spec_members_issue_from(members, i + 1, title, Some(val), p)
                    } else {
                        spec_members_issue_from(members, i + 1, title, acc, p)
                    }
                }
            },
        }
    }
}

/// The record built from a whole object.
pub open spec fn spec_members_issue(members: Seq<MemberView>, p: FileParser) -> Result<
    IssueView,
    ExtractErrorView,
> {
    spec_members_issue_from(members, 0, Seq::empty(), None, p)
}

/// Whether an executable single-record result has the mathematical value
/// `s`.
pub open spec fn member_result_matches(
    r: Result<IssueFromFile, ExtractError>,
    s: Result<IssueView, ExtractErrorView>,
) -> bool {
    match (r, s) {
        (Ok(i), Ok(v)) => i@ == v,
        (Err(e), Err(f)) => e@ == f,
        _ => false,
    }
}

/// The only error an object's entries can produce is a nested value.
proof fn lemma_members_err_is_value_type(
    members: Seq<MemberView>,
    i: int,
    title: Seq<char>,
    acc: Option<Seq<char>>,
    p: FileParser,
)
    ensures
        spec_members_issue_from(members, i, title, acc, p) matches Err(e) ==> e is ValueType,
    decreases members.len() - i,
{
    if 0 <= i < members.len() {
        let m = members[i];
        match spec_atom_text(m.value) {
            None => {},
            Some(val) => {
                lemma_members_err_is_value_type(members, i + 1, val, acc, p);
                let prev = match acc {
                    Some(a) => a,
                    None => Seq::empty(),
                };
                lemma_members_err_is_value_type(
                    members,
                    i + 1,
                    title,
                    Some(prev + trim_of(m.key) + ": "@ + val + "\n\n"@),
                    p,
                );
                lemma_members_err_is_value_type(members, i + 1, title, Some(val), p);
                lemma_members_err_is_value_type(members, i + 1, title, acc, p);
            },
        }
    }
}

proof fn proof_space_len()
    ensures
        " "@.len() == 1,
{
    reveal_strlit(" ");
}

/// When a prefix is configured, the title of every record the JSON path
/// yields begins with exactly the prefix and one space, whatever the
/// title candidate turned out to be.
pub proof fn lemma_prefix_heads_json_title(
    members: Seq<MemberView>,
    i: int,
    title: Seq<char>,
    acc: Option<Seq<char>>,
    p: FileParser,
    pre: Seq<char>,
)
    requires
        p.prepend_title.deep_view() == Some(pre),
    ensures
        spec_members_issue_from(members, i, title, acc, p) matches Ok(v) ==> (v.title.len()
            >= pre.len() + 1 && v.title.take(pre.len() + 1 as int) == pre + " "@),
    decreases members.len() - i,
{
    if i < 0 || i >= members.len() {
        proof_space_len();
        assert((pre + " "@ + title).take(pre.len() + 1 as int) =~= pre + " "@);
    } else {
        let m = members[i];
        match spec_atom_text(m.value) {
            None => {},
            Some(val) => {
                lemma_prefix_heads_json_title(members, i + 1, val, acc, p, pre);
                let prev = match acc {
                    Some(a) => a,
                    None => Seq::empty(),
                };
                lemma_prefix_heads_json_title(
                    members,
                    i + 1,
                    title,
                    Some(prev + trim_of(m.key) + ": "@ + val + "\n\n"@),
                    p,
                    pre,
                );
                lemma_prefix_heads_json_title(members, i + 1, title, Some(val), p, pre);
                lemma_prefix_heads_json_title(members, i + 1, title, acc, p, pre);
            },
        }
    }
}

/// The per-object extraction is a function of the entries and the
/// configuration alone: two results that both match the spec model agree.
pub proof fn lemma_object_extraction_deterministic(
    members: Seq<MemberView>,
    p: FileParser,
    r1: Result<IssueFromFile, ExtractError>,
    r2: Result<IssueFromFile, ExtractError>,
)
    requires
        member_result_matches(r1, spec_members_issue(members, p)),
        member_result_matches(r2, spec_members_issue(members, p)),
    ensures
        r1 is Ok <==> r2 is Ok,
        r1 matches Ok(v1) ==> (r2 matches Ok(v2) ==> v1@ == v2@),
        r1 matches Err(e1) ==> (r2 matches Err(e2) ==> e1@ == e2@),
{
}

/// Turns one object's entries into a record, under the full JSON policy:
/// this is the whole per-object logic short of the parse itself.
pub fn members_to_issue(members: &Vec<JsonMember>, p: &FileParser) -> (r: Result<
    IssueFromFile,
    ExtractError,
>)
    ensures
        member_result_matches(r, spec_members_issue(members.deep_view(), *p)),
{
    let ghost mv = members.deep_view();
    let title_folded: Option<String> = match &p.title {
        FieldSelector::ByName(n) => Some(lowercase(n.as_str())),
        FieldSelector::ByIndex(_) => None,
    };
    let desc_folded: Option<String> = match &p.description {
        Some(FieldSelector::ByName(n)) => Some(lowercase(n.as_str())),
        _ => None,
    };
    let mut title: String = String::new();
    let mut acc: Option<String> = None;
    let mut i: usize = 0;
    while i < members.len()
        invariant
            i <= members.len(),
            mv == members.deep_view(),
            match spec_title_key(*p) {
                Some(k) => title_folded matches Some(f) && f@ == lower_of(k),
                None => title_folded is None,
            },
            match spec_desc_key(*p) {
                Some(k) => desc_folded matches Some(f) && f@ == lower_of(k),
                None => desc_folded is None,
            },
            spec_members_issue(mv, *p) == spec_members_issue_from(
                mv,
                i as int,
                title@,
                acc.deep_view(),
                *p,
            ),
        decreases members.len() - i,
    {
        let m = &members[i];
        proof {
            assert(mv[i as int] == members@[i as int]@);
        }
        match atom_text(&m.value) {
            None => {
                return Err(ExtractError::ValueType(m.key.clone()));
            },
            Some(val) => {
                let key_folded = lowercase(m.key.as_str());
                let is_title = match &title_folded {
                    Some(f) => key_folded == *f,
                    None => false,
                };
                if is_title {
                    title = val;
                } else if p.combine_remaining {
                    let mut base: String = match acc {
                        Some(a) => a,
                        None => String::new(),
                    };
                    let trimmed = trim_str(m.key.as_str());
                    base.append(trimmed.as_str());
                    base.append(": ");
                    base.append(val.as_str());
                    base.append("\n\n");
                    acc = Some(base);
                } else {
                    let is_desc = match &desc_folded {
                        Some(f) => key_folded == *f,
                        None => false,
                    };
                    if is_desc {
                        acc = Some(val);
                    }
                }
            },
        }
        i = i + 1;
    }
    let final_title = apply_prefix(&p.prepend_title, title);
    Ok(IssueFromFile { title: final_title, description: acc })
}

/// The text form of a scalar atom, or nothing for a nested value.
fn atom_text(a: &JsonAtom) -> (r: Option<String>)
    ensures
        r.deep_view() == spec_atom_text(a@),
{
    match a {
        JsonAtom::Str(s) => Some(s.clone()),
        JsonAtom::Num(n) => Some(n.clone()),
        JsonAtom::Bool(b) => Some(
            if *b {
                "true".to_owned()
            } else {
                "false".to_owned()
            },
        ),
        JsonAtom::Null => Some("null".to_owned()),
        JsonAtom::Nested => None,
    }
}

/// The record built from one element of an array root: the element must
/// itself be an object, and then the per-object policy applies.
pub open spec fn spec_elem_issue(e: serde_json::Value, p: FileParser) -> Result<
    IssueView,
    ExtractErrorView,
> {
    match json_obj(e) {
        None => Err(ExtractErrorView::Format),
        Some(m) => spec_members_issue(obj_members(m), p),
    }
}

/// The records of an array root's elements from position `i` on, one per
/// element and in array order, or the first error: any element error
/// aborts the whole extraction.
pub open spec fn spec_arr_issues(elems: Seq<serde_json::Value>, i: int, p: FileParser) -> Result<
    Seq<IssueView>,
    ExtractErrorView,
>
    decreases elems.len() - i,
{
    if i < 0 || i >= elems.len() {
        Ok(Seq::empty())
    } else {
        match spec_elem_issue(elems[i], p) {
            Err(e) => Err(e),
            Ok(first) => match spec_arr_issues(elems, i + 1, p) {
                Err(e) => Err(e),
                Ok(rest) => Ok(seq![first] + rest),
            },
        }
    }
}

/// The whole JSON extraction over a parsed document: an object root
/// yields exactly its one record, an array root yields one record per
/// element in document order (each element must be an object), and any
/// other root shape is rejected.
pub open spec fn spec_value_issues(v: serde_json::Value, p: FileParser) -> Result<
    Seq<IssueView>,
    ExtractErrorView,
> {
    match json_arr(v) {
        Some(elems) => spec_arr_issues(elems, 0, p),
        None => match json_obj(v) {
            Some(m) => match spec_members_issue(obj_members(m), p) {
                Ok(first) => Ok(seq![first]),
                Err(e) => Err(e),
            },
            None => Err(ExtractErrorView::Format),
        },
    }
}

proof fn lemma_elems_err(
    elems: Seq<serde_json::Value>,
    k: int,
    i: int,
    p: FileParser,
    e: ExtractErrorView,
)
    requires
        0 <= k <= i < elems.len(),
        forall|j: int| k <= j < i ==> (spec_elem_issue(elems[j], p) is Ok),
        spec_elem_issue(elems[i], p) == Err::<IssueView, ExtractErrorView>(e),
    ensures
        spec_arr_issues(elems, k, p) == Err::<Seq<IssueView>, ExtractErrorView>(e),
    decreases i - k,
{
    if k < i {
        lemma_elems_err(elems, k + 1, i, p, e);
    }
}

proof fn lemma_elems_ok(elems: Seq<serde_json::Value>, k: int, p: FileParser, out: Seq<IssueView>)
    requires
        0 <= k <= elems.len(),
        out.len() == elems.len() - k,
        forall|j: int|
            k <= j < elems.len() ==> spec_elem_issue(elems[j], p) == Ok::<
                IssueView,
                ExtractErrorView,
            >(out[j - k]),
    ensures
        spec_arr_issues(elems, k, p) == Ok::<Seq<IssueView>, ExtractErrorView>(out),
    decreases elems.len() - k,
{
    if k == elems.len() {
        assert(out =~= Seq::<IssueView>::empty());
    } else {
        lemma_elems_ok(elems, k + 1, p, out.drop_first());
        assert(spec_elem_issue(elems[k], p) == Ok::<IssueView, ExtractErrorView>(out[0]));
        assert(seq![out[0]] + out.drop_first() =~= out);
    }
}

/// Walks a parsed document, pinned to [`spec_value_issues`]: a single
/// object yields exactly its one record, an array yields one record per
/// element in document order (each element must be an object), and any
/// other root shape is rejected; any per-object error aborts the whole
/// extraction.
pub fn value_to_issues(v: &serde_json::Value, p: &FileParser) -> (r: Result<
    Vec<IssueFromFile>,
    ExtractError,
>)
    ensures
        issues_result_matches(r, spec_value_issues(*v, *p)),
        r matches Err(e) ==> (e@ is Format || e@ is ValueType),
{
    match v.as_array() {
        Some(arr) => {
            let ghost elems = arr@;
            let mut out: Vec<IssueFromFile> = Vec::new();
            let mut i: usize = 0;
            while i < arr.len()
                invariant
                    i <= arr.len(),
                    elems == arr@,
                    json_arr(*v) == Some(elems),
                    out@.len() == i,
                    forall|k: int|
                        0 <= k < i ==> spec_elem_issue(elems[k], *p) == Ok::<
                            IssueView,
                            ExtractErrorView,
                        >(out@[k]@),
                decreases arr.len() - i,
            {
                let el = &arr[i];
                proof {
                    assert(elems[i as int] == *el);
                }
                match el.as_object() {
                    None => {
                        proof {
                            lemma_elems_err(elems, 0, i as int, *p, ExtractErrorView::Format);
                        }
                        return Err(ExtractError::Format);
                    },
                    Some(m) => {
                        let members = object_members(m);
                        match members_to_issue(&members, p) {
                            Err(e) => {
                                proof {
                                    lemma_members_err_is_value_type(
                                        members.deep_view(),
                                        0,
                                        Seq::empty(),
                                        None,
                                        *p,
                                    );
                                    lemma_elems_err(elems, 0, i as int, *p, e@);
                                }
                                return Err(e);
                            },
                            Ok(issue) => {
                                proof {
                                    assert(spec_elem_issue(elems[i as int], *p) == Ok::<
                                        IssueView,
                                        ExtractErrorView,
                                    >(issue@));
                                }
                                out.push(issue);
                            },
                        }
                    },
                }
                i = i + 1;
            }
            proof {
                assert(forall|k: int|
                    0 <= k < out@.len() ==> out.deep_view()[k] == #[trigger] out@[
                        k
                    ].deep_view());
                lemma_elems_ok(elems, 0, *p, out.deep_view());
            }
            Ok(out)
        },
        None => match v.as_object() {
            Some(m) => {
                let members = object_members(m);
                match members_to_issue(&members, p) {
                    Err(e) => {
                        proof {
                            lemma_members_err_is_value_type(
                                members.deep_view(),
                                0,
                                Seq::empty(),
                                None,
                                *p,
                            );
                        }
                        Err(e)
                    },
                    Ok(issue) => {
                        let mut out: Vec<IssueFromFile> = Vec::new();
                        out.push(issue);
                        proof {
                            assert(out.deep_view() =~= seq![issue@]);
                        }
                        Ok(out)
                    },
                }
            },
            None => Err(ExtractError::Format),
        },
    }
}

} // verus!
