//! End-to-end extraction behaviour over both source formats.

use gitlab_issues::issuefile::{ExtractError, FileParser};
use gitlab_issues::records::IssueFromFile;
use gitlab_issues::resolve::{resolve, Field, FieldSelector, ResolveError};

fn parser(
    file_name: &str,
    separator: Option<char>,
    no_header: bool,
    title_key: Option<&str>,
    title_index: Option<usize>,
    description_key: Option<&str>,
    description_index: Option<usize>,
    prepend_title: Option<&str>,
    combine_remaining: bool,
) -> FileParser {
    FileParser::new(
        file_name,
        separator,
        no_header,
        title_key.map(|s| s.to_string()),
        title_index,
        description_key.map(|s| s.to_string()),
        description_index,
        prepend_title.map(|s| s.to_string()),
        combine_remaining,
    )
}

fn default_csv_parser() -> FileParser {
    parser("issues.csv", Some(','), false, Some("title"), None, Some("description"), None, None, false)
}

fn default_json_parser() -> FileParser {
    parser("issues.json", None, false, Some("title"), None, Some("description"), None, None, false)
}

#[test]
fn resolve_name_is_case_insensitive() {
    let header = vec!["Title".to_string(), "Description".to_string()];
    let sel = FieldSelector::ByName("title".to_string());
    assert_eq!(resolve(&sel, Some(&header)), Ok(0));
}

#[test]
fn resolve_first_match_wins() {
    let header = vec!["Title".to_string(), "Title".to_string()];
    let sel = FieldSelector::ByName("title".to_string());
    assert_eq!(resolve(&sel, Some(&header)), Ok(0));
}

#[test]
fn resolve_index_ignores_header() {
    let sel = FieldSelector::ByIndex(7);
    assert_eq!(resolve(&sel, None), Ok(7));
    let header = vec!["a".to_string()];
    assert_eq!(resolve(&sel, Some(&header)), Ok(7));
}

#[test]
fn resolve_name_without_header_fails() {
    let sel = FieldSelector::ByName("title".to_string());
    assert_eq!(resolve(&sel, None), Err(ResolveError::HeaderRequired));
}

#[test]
fn resolve_unknown_name_fails() {
    let header = vec!["a".to_string(), "b".to_string()];
    let sel = FieldSelector::ByName("title".to_string());
    assert_eq!(
        resolve(&sel, Some(&header)),
        Err(ResolveError::NameNotFound("title".to_string()))
    );
}

#[test]
fn csv_end_to_end() {
    let p = default_csv_parser();
    let issues = p
        .get_issues(b"title,description\nFix bug,NPE on login")
        .unwrap();
    assert_eq!(
        issues,
        vec![IssueFromFile {
            title: "Fix bug".to_string(),
            description: Some("NPE on login".to_string()),
        }]
    );
}

#[test]
fn csv_combine_end_to_end() {
    let p = parser("i.csv", Some(','), false, Some("title"), None, None, None, None, true);
    let issues = p.get_issues(b"id,title,owner\n7,Crash,alice").unwrap();
    assert_eq!(issues.len(), 1);
    assert_eq!(issues[0].title, "Crash");
    assert_eq!(
        issues[0].description,
        Some("id: 7\n\nowner: alice\n\n".to_string())
    );
}

#[test]
fn csv_combine_is_reproducible() {
    let p = parser("i.csv", Some(','), false, Some("title"), None, None, None, None, true);
    let data: &[u8] = b"id,title,owner\n7,Crash,alice\n8,Hang,bob";
    let first = p.get_issues(data).unwrap();
    let second = p.get_issues(data).unwrap();
    assert_eq!(first, second);
}

#[test]
fn csv_title_index_out_of_bounds_before_any_row_is_read() {
    let p = parser("i.csv", Some(','), false, None, Some(9), None, None, None, false);
    // The data row is not valid UTF-8, so reading it would fail; the
    // bounds check must fire first and that row must never be reached.
    let mut data = b"a,b\n".to_vec();
    data.extend_from_slice(&[0xff, 0xfe, b',', b'x', b'\n']);
    assert_eq!(
        p.get_issues(&data),
        Err(ExtractError::Resolve(ResolveError::IndexOutOfBounds(
            Field::Title,
            9,
            2
        )))
    );
}

#[test]
fn csv_description_index_out_of_bounds() {
    let p = parser("i.csv", Some(','), false, Some("a"), None, None, Some(9), None, false);
    assert_eq!(
        p.get_issues(b"a,b\nx,y"),
        Err(ExtractError::Resolve(ResolveError::IndexOutOfBounds(
            Field::Description,
            9,
            2
        )))
    );
}

#[test]
fn csv_missing_title_aborts_with_zero_records() {
    let p = parser("i.csv", Some(','), false, None, Some(1), None, None, None, false);
    let r = p.get_issues(b"a,b\nx,y\nonly\nz,w");
    assert_eq!(r, Err(ExtractError::MissingTitle(1)));
}

#[test]
fn csv_short_row_description_is_tolerated() {
    let p = default_csv_parser();
    let issues = p.get_issues(b"title,description\nalone").unwrap();
    assert_eq!(
        issues,
        vec![IssueFromFile { title: "alone".to_string(), description: None }]
    );
}

#[test]
fn csv_no_header_with_index_never_looks_names_up() {
    // A description key is configured but with no header it is ignored,
    // and no name lookup of any kind happens.
    let p = parser("i.csv", Some(','), true, None, Some(0), Some("nope"), None, None, false);
    let issues = p.get_issues(b"first,x\nsecond,y").unwrap();
    assert_eq!(issues.len(), 2);
    assert_eq!(issues[0].title, "first");
    assert_eq!(issues[0].description, None);
    assert_eq!(issues[1].title, "second");
}

#[test]
fn csv_name_selector_without_header_is_a_config_error() {
    let p = parser("i.csv", Some(','), true, Some("title"), None, None, None, None, false);
    assert_eq!(
        p.get_issues(b"a,b\nc,d"),
        Err(ExtractError::Resolve(ResolveError::HeaderRequired))
    );
}

#[test]
fn csv_title_prefix_applies() {
    let p = parser(
        "i.csv", Some(','), false, Some("title"), None, Some("description"), None,
        Some("TODO:"), false,
    );
    let issues = p.get_issues(b"title,description\nFix bug,x").unwrap();
    assert_eq!(issues[0].title, "TODO: Fix bug");
}

#[test]
fn csv_combine_labels_without_header_are_synthetic() {
    let p = parser("i.csv", Some(','), true, None, Some(1), None, None, None, true);
    let issues = p.get_issues(b"7,Crash,alice").unwrap();
    assert_eq!(
        issues[0].description,
        Some("Column 0: 7\n\nColumn 2: alice\n\n".to_string())
    );
}

#[test]
fn csv_combine_trims_header_labels() {
    let p = parser("i.csv", Some(','), false, Some("title"), None, None, None, None, true);
    let issues = p.get_issues(b" padded ,title\nv,Crash").unwrap();
    assert_eq!(issues[0].description, Some("padded: v\n\n".to_string()));
}

#[test]
fn csv_combine_description_always_present() {
    // A row with only the title column still gets an (empty) description.
    let p = parser("i.csv", Some(','), false, Some("title"), None, None, None, None, true);
    let issues = p.get_issues(b"title\nCrash").unwrap();
    assert_eq!(issues[0].description, Some(String::new()));
}

#[test]
fn csv_custom_separator() {
    let p = parser("i.csv", Some(';'), false, Some("title"), None, Some("description"), None, None, false);
    let issues = p.get_issues(b"title;description\na;b").unwrap();
    assert_eq!(issues[0].title, "a");
    assert_eq!(issues[0].description, Some("b".to_string()));
}

#[test]
fn csv_missing_separator_defaults_to_comma() {
    let p = parser("i.csv", None, false, Some("title"), None, Some("description"), None, None, false);
    let issues = p.get_issues(b"title,description\na,b").unwrap();
    assert_eq!(issues[0].title, "a");
}

#[test]
fn csv_undecodable_first_row_is_a_source_error() {
    let p = default_csv_parser();
    let data = [0xff_u8, 0xfe, b'\n', b'x'];
    assert_eq!(p.get_issues(&data), Err(ExtractError::Source));
}

#[test]
fn csv_undecodable_later_row_is_a_source_error() {
    let p = default_csv_parser();
    let mut data = b"title,description\nok,row\n".to_vec();
    data.extend_from_slice(&[0xff, 0xfe, b',', b'x']);
    assert_eq!(p.get_issues(&data), Err(ExtractError::Source));
}

#[test]
fn csv_missing_title_precedes_a_later_read_error() {
    let p = parser("i.csv", Some(','), false, None, Some(1), None, None, None, false);
    let mut data = b"a,b\nshort\n".to_vec();
    data.extend_from_slice(&[0xff, 0xfe, b',', b'x']);
    assert_eq!(p.get_issues(&data), Err(ExtractError::MissingTitle(0)));
}

#[test]
fn csv_empty_input_with_name_selector_fails_lookup() {
    let p = default_csv_parser();
    assert_eq!(
        p.get_issues(b""),
        Err(ExtractError::Resolve(ResolveError::NameNotFound(
            "title".to_string()
        )))
    );
}

#[test]
fn unsupported_extension_is_rejected() {
    let p = parser("notes.txt", Some(','), false, Some("title"), None, None, None, None, false);
    assert_eq!(p.get_issues(b"anything"), Err(ExtractError::UnsupportedFileType));
}

#[test]
fn extension_case_is_folded() {
    let p = parser("ISSUES.CSV", Some(','), false, Some("title"), None, None, None, None, false);
    let issues = p.get_issues(b"title\nX").unwrap();
    assert_eq!(issues[0].title, "X");
}

#[test]
fn json_object_end_to_end() {
    let p = default_json_parser();
    let issues = p
        .get_issues(br#"{"title":"A","description":"B"}"#)
        .unwrap();
    assert_eq!(
        issues,
        vec![IssueFromFile { title: "A".to_string(), description: Some("B".to_string()) }]
    );
}

#[test]
fn json_array_end_to_end_in_order() {
    let p = default_json_parser();
    let issues = p
        .get_issues(br#"[{"title":"A","description":"B"},{"title":"C","description":"D"}]"#)
        .unwrap();
    assert_eq!(issues.len(), 2);
    assert_eq!(issues[0].title, "A");
    assert_eq!(issues[1].title, "C");
    assert_eq!(issues[1].description, Some("D".to_string()));
}

#[test]
fn json_title_prefix_applies() {
    let p = parser("i.json", None, false, Some("title"), None, Some("description"), None, Some("TODO:"), false);
    let issues = p.get_issues(br#"{"title":"Fix bug"}"#).unwrap();
    assert_eq!(issues[0].title, "TODO: Fix bug");
}

#[test]
fn json_scalar_values_are_stringified() {
    let p = parser("i.json", None, false, Some("title"), None, None, None, None, true);
    let issues = p
        .get_issues(br#"{"b":true,"n":1,"title":"T","x":null}"#)
        .unwrap();
    assert_eq!(issues[0].title, "T");
    // Entries come in the (deterministic) order of the decoded object.
    assert_eq!(
        issues[0].description,
        Some("b: true\n\nn: 1\n\nx: null\n\n".to_string())
    );
}

#[test]
fn json_combine_with_only_a_title_yields_no_description() {
    // Unlike the text path, the JSON path leaves the description absent
    // when combine mode finds nothing to fold in.
    let p = parser("i.json", None, false, Some("title"), None, None, None, None, true);
    let issues = p.get_issues(br#"{"title":"T"}"#).unwrap();
    assert_eq!(issues[0].description, None);
}

#[test]
fn json_nested_value_is_rejected() {
    let p = default_json_parser();
    assert_eq!(
        p.get_issues(br#"{"title":"A","extra":{"deep":1}}"#),
        Err(ExtractError::ValueType("extra".to_string()))
    );
}

#[test]
fn json_scalar_root_is_rejected() {
    let p = default_json_parser();
    assert_eq!(p.get_issues(b"5"), Err(ExtractError::Format));
}

#[test]
fn json_array_of_non_objects_is_rejected() {
    let p = default_json_parser();
    assert_eq!(p.get_issues(b"[1,2]"), Err(ExtractError::Format));
}

#[test]
fn json_malformed_input_is_a_source_error() {
    let p = default_json_parser();
    assert_eq!(p.get_issues(b"{"), Err(ExtractError::Source));
}

#[test]
fn json_without_title_match_keeps_empty_title() {
    let p = default_json_parser();
    let issues = p.get_issues(br#"{"other":"x"}"#).unwrap();
    assert_eq!(issues[0].title, "");
    assert_eq!(issues[0].description, None);
}

#[test]
fn json_keys_match_case_insensitively() {
    let p = default_json_parser();
    let issues = p
        .get_issues(br#"{"TITLE":"A","Description":"B"}"#)
        .unwrap();
    assert_eq!(issues[0].title, "A");
    assert_eq!(issues[0].description, Some("B".to_string()));
}

#[test]
fn display_line_shows_both_fields() {
    let issue = IssueFromFile { title: "T".to_string(), description: Some("D".to_string()) };
    assert_eq!(issue.display_line(), "Title: 'T', Description: 'D'");
    let bare = IssueFromFile { title: "T".to_string(), description: None };
    assert_eq!(bare.display_line(), "Title: 'T', Description: ''");
}
