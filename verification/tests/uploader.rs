//! The decision helpers around the upload: argument validation, project
//! and member lookup, label checks, and the issue payload.

use gitlab_issues::args::{verify_args, ArgsError};
use gitlab_issues::gitlabapi::{
    api_base, find_member_id, first_missing_label, get_valid_project_id, request_url,
    GitLabProject, GitLabProjectIssue, GitLabProjectLabel, GitLabProjectMember,
    ProjectLookupError,
};
use gitlab_issues::records::IssueFromFile;
use gitlab_issues::text::{split_commas, trim_str, u64_to_string};

fn sample_projects() -> Vec<GitLabProject> {
    vec![
        GitLabProject::new(1, "alpha".to_string(), "team/alpha".to_string()),
        GitLabProject::new(2, "beta".to_string(), "team/beta".to_string()),
        GitLabProject::new(3, "beta".to_string(), "other/beta".to_string()),
    ]
}

#[test]
fn project_by_unique_name() {
    let name = Some("alpha".to_string());
    assert_eq!(get_valid_project_id(&name, None, &sample_projects()), Ok(1));
}

#[test]
fn project_by_namespace_path() {
    let name = Some("other/beta".to_string());
    assert_eq!(get_valid_project_id(&name, None, &sample_projects()), Ok(3));
}

#[test]
fn project_by_ambiguous_name() {
    let name = Some("beta".to_string());
    assert_eq!(
        get_valid_project_id(&name, None, &sample_projects()),
        Err(ProjectLookupError::ManyWithName("beta".to_string()))
    );
}

#[test]
fn project_matching_name_and_path_counts_twice() {
    let projects = vec![GitLabProject::new(9, "same".to_string(), "same".to_string())];
    let name = Some("same".to_string());
    assert_eq!(
        get_valid_project_id(&name, None, &projects),
        Err(ProjectLookupError::ManyWithName("same".to_string()))
    );
}

#[test]
fn project_by_unknown_name() {
    let name = Some("gamma".to_string());
    assert_eq!(
        get_valid_project_id(&name, None, &sample_projects()),
        Err(ProjectLookupError::NoneWithName("gamma".to_string()))
    );
}

#[test]
fn project_by_id() {
    assert_eq!(get_valid_project_id(&None, Some(2), &sample_projects()), Ok(2));
    assert_eq!(
        get_valid_project_id(&None, Some(7), &sample_projects()),
        Err(ProjectLookupError::NoneWithId(7))
    );
}

#[test]
fn member_lookup_takes_first_match() {
    let members = vec![
        GitLabProjectMember::new(10, "alice".to_string(), "Alice".to_string()),
        GitLabProjectMember::new(11, "bob".to_string(), "Bob".to_string()),
        GitLabProjectMember::new(12, "alice".to_string(), "Other Alice".to_string()),
    ];
    assert_eq!(find_member_id(&members, &"alice".to_string()), Some(10));
    assert_eq!(find_member_id(&members, &"carol".to_string()), None);
}

#[test]
fn missing_label_is_reported_first() {
    let labels = vec![
        GitLabProjectLabel::new(1, "bug".to_string()),
        GitLabProjectLabel::new(2, "urgent".to_string()),
    ];
    let wanted = vec!["bug".to_string(), "nope".to_string(), "also".to_string()];
    assert_eq!(first_missing_label(&labels, &wanted), Some("nope".to_string()));
    let all = vec!["urgent".to_string(), "bug".to_string()];
    assert_eq!(first_missing_label(&labels, &all), None);
}

#[test]
fn split_commas_keeps_empty_pieces() {
    assert_eq!(split_commas("a,b"), vec!["a".to_string(), "b".to_string()]);
    assert_eq!(split_commas(""), vec!["".to_string()]);
    assert_eq!(
        split_commas("a,,b,"),
        vec!["a".to_string(), "".to_string(), "b".to_string(), "".to_string()]
    );
}

#[test]
fn args_unsupported_file_type() {
    assert_eq!(
        verify_args("f.txt", None, false, &Some("p".to_string()), None, &None),
        Err(ArgsError::UnsupportedFileType)
    );
}

#[test]
fn args_extension_case_folded() {
    assert_eq!(
        verify_args("F.CSV", Some(0), false, &Some("p".to_string()), None, &None),
        Ok(())
    );
}

#[test]
fn args_project_must_be_given_once() {
    assert_eq!(
        verify_args("f.csv", Some(0), false, &None, None, &None),
        Err(ArgsError::MissingProject)
    );
    assert_eq!(
        verify_args("f.csv", Some(0), false, &Some("p".to_string()), Some(1), &None),
        Err(ArgsError::ConflictingProjects)
    );
}

#[test]
fn args_labels_must_be_nonempty() {
    assert_eq!(
        verify_args(
            "f.csv",
            Some(0),
            false,
            &Some("p".to_string()),
            None,
            &Some("a,,b".to_string()),
        ),
        Err(ArgsError::EmptyLabel)
    );
    // A single label without commas is not treated as a list.
    assert_eq!(
        verify_args("f.csv", Some(0), false, &Some("p".to_string()), None, &Some("a".to_string())),
        Ok(())
    );
}

#[test]
fn args_no_header_requires_title_index() {
    assert_eq!(
        verify_args("f.csv", None, true, &Some("p".to_string()), None, &None),
        Err(ArgsError::TitleIndexRequired)
    );
    assert_eq!(
        verify_args("f.csv", Some(0), true, &Some("p".to_string()), None, &None),
        Ok(())
    );
}

#[test]
fn issue_payload_carries_everything() {
    let record = IssueFromFile {
        title: "Crash".to_string(),
        description: Some("boom".to_string()),
    };
    let labels = Some("bug,urgent".to_string());
    let issue = GitLabProjectIssue::new(5, &record, &labels, Some(42));
    assert_eq!(issue.project_id, 5);
    assert_eq!(issue.title, "Crash");
    let body = issue.create_issue_body();
    assert_eq!(body.len(), 5);
    assert_eq!(body[0].0, "id");
    assert_eq!(body[1], ("title".to_string(), "Crash".to_string()));
    assert_eq!(body[2], ("description".to_string(), "boom".to_string()));
    assert_eq!(body[3], ("labels".to_string(), "bug,urgent".to_string()));
    assert_eq!(body[4], ("assignee_id".to_string(), "42".to_string()));
}

#[test]
fn issue_payload_skips_absent_fields() {
    let record = IssueFromFile { title: "T".to_string(), description: None };
    let issue = GitLabProjectIssue::new(5, &record, &None, None);
    let body = issue.create_issue_body();
    assert_eq!(body.len(), 2);
    assert_eq!(body[0].0, "id");
    assert_eq!(body[1].0, "title");
}

#[test]
fn issue_id_is_a_hyphenated_uuid() {
    let record = IssueFromFile { title: "T".to_string(), description: None };
    let issue = GitLabProjectIssue::new(1, &record, &None, None);
    let id = &issue.id;
    assert_eq!(id.len(), 36);
    for (i, c) in id.chars().enumerate() {
        if i == 8 || i == 13 || i == 18 || i == 23 {
            assert_eq!(c, '-');
        } else {
            assert!(c.is_ascii_hexdigit());
        }
    }
}

#[test]
fn request_urls_are_joined_once() {
    let base = api_base("https://git.example.com");
    assert_eq!(base, "https://git.example.com/api/v4");
    assert_eq!(request_url(&base, "projects"), "https://git.example.com/api/v4/projects");
    assert_eq!(
        request_url(&base, "/projects/5/issues"),
        "https://git.example.com/api/v4/projects/5/issues"
    );
}

#[test]
fn numbers_render_in_decimal() {
    assert_eq!(u64_to_string(0), "0");
    assert_eq!(u64_to_string(10), "10");
    assert_eq!(u64_to_string(987654321), "987654321");
}

#[test]
fn trim_strips_unicode_whitespace() {
    assert_eq!(trim_str("  padded\t"), "padded");
    assert_eq!(trim_str("\u{a0}x\u{3000}"), "x");
    assert_eq!(trim_str("   "), "");
    assert_eq!(trim_str(""), "");
}

#[test]
fn project_listings_take_members_and_labels() {
    let mut p = GitLabProject::new(1, "alpha".to_string(), "team/alpha".to_string());
    assert!(p.members.is_none());
    p.set_members(vec![GitLabProjectMember::new(10, "alice".to_string(), "Alice".to_string())]);
    p.set_labels(vec![GitLabProjectLabel::new(1, "bug".to_string())]);
    assert_eq!(p.members.as_ref().unwrap().len(), 1);
    assert_eq!(p.labels.as_ref().unwrap()[0].name, "bug");
}
