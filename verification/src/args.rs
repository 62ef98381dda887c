//! The decision core of command-line validation: which option
//! combinations are rejected, in which order, before any file is read.
//! The surrounding program supplies the plain values (and handles what
//! needs the file system or the environment: whether the file exists,
//! the fallback variables, the exit codes).

use vstd::prelude::*;
use crate::issuefile::{extension_of, has_extension, spec_extension};
use crate::text::{ascii_lower_eq, ascii_lower_seq, spec_split_commas, split_commas};

verus! {

/// Why a set of options is rejected.
#[derive(Debug, Clone, Copy, PartialEq, Eq, Structural)]
pub enum ArgsError {
    /// The file extension names neither supported format.
    UnsupportedFileType,
    /// Neither a project name nor a project id was given.
    MissingProject,
    /// Both a project name and a project id were given.
    ConflictingProjects,
    /// The label list contains commas but also an empty entry.
    EmptyLabel,
    /// Without a header row the title must be selected by index.
    TitleIndexRequired,
}

/// Whether the extension, with its ASCII letters lowered, names a
/// supported format.
pub open spec fn spec_ext_supported(name: Seq<char>) -> bool {
    ascii_lower_seq(spec_extension(name)) == "csv"@ || ascii_lower_seq(spec_extension(name))
        == "json"@
}

/// Whether a label list is rejected: it has commas (so it is read as a
/// list) and one of its comma-separated entries is empty.
pub open spec fn spec_labels_bad(labels: Option<Seq<char>>) -> bool {
    match labels {
        Some(l) => spec_split_commas(l).len() >= 2 && (exists|k: int|
            0 <= k < spec_split_commas(l).len() && spec_split_commas(l)[k].len() == 0),
        None => false,
    }
}

/// The validation verdict, with the checks in the order the program
/// applies them: file type first, then the project choice, then the
/// labels, then the header/title-index rule.
pub open spec fn spec_verify_args(
    file_name: Seq<char>,
    title_index: Option<usize>,
    no_header: bool,
    project_name: Option<Seq<char>>,
    project_id: Option<u64>,
    labels: Option<Seq<char>>,
) -> Result<(), ArgsError> {
    if !spec_ext_supported(file_name) {
        Err(ArgsError::UnsupportedFileType)
    } else if project_name is None && project_id is None {
        Err(ArgsError::MissingProject)
    } else if project_name is Some && project_id is Some {
        Err(ArgsError::ConflictingProjects)
    } else if spec_labels_bad(labels) {
        Err(ArgsError::EmptyLabel)
    } else if no_header && title_index is None {
        Err(ArgsError::TitleIndexRequired)
    } else {
        Ok(())
    }
}

/// Validates the option set, returning the first failure in the order
/// the checks are applied.
pub fn verify_args(
    file_name: &str,
    title_index: Option<usize>,
    no_header: bool,
    project_name: &Option<String>,
    project_id: Option<u64>,
    labels: &Option<String>,
) -> (r: Result<(), ArgsError>)
    requires
        has_extension(file_name@),
    ensures
        r == spec_verify_args(
            file_name@,
            title_index,
            no_header,
            project_name.deep_view(),
            project_id,
            labels.deep_view(),
        ),
{
    let ext = extension_of(file_name);
    let supported = ascii_lower_eq(ext.as_str(), "csv") || ascii_lower_eq(ext.as_str(), "json");
    if !supported {
        return Err(ArgsError::UnsupportedFileType);
    }
    if project_name.is_none() && project_id.is_none() {
        return Err(ArgsError::MissingProject);
    }
    if project_name.is_some() && project_id.is_some() {
        return Err(ArgsError::ConflictingProjects);
    }
    match labels {
        Some(l) => {
            let pieces = split_commas(l.as_str());
            if pieces.len() >= 2 {
                let mut k: usize = 0;
                while k < pieces.len()
                    invariant
                        k <= pieces.len(),
                        pieces.deep_view() == spec_split_commas(l@),
                        labels.deep_view() == Some(l@),
                        pieces.len() >= 2,
                        spec_ext_supported(file_name@),
                        !(project_name is None && project_id is None),
                        !(project_name is Some && project_id is Some),
                        forall|j: int| 0 <= j < k ==> spec_split_commas(l@)[j].len() != 0,
                    decreases pieces.len() - k,
                {
                    if pieces[k].as_str().is_empty() {
                        proof {
                            assert(spec_split_commas(l@)[k as int] == pieces@[k as int]@);
                        }
                        return Err(ArgsError::EmptyLabel);
                    }
                    proof {
                        assert(spec_split_commas(l@)[k as int] == pieces@[k as int]@);
                    }
                    k = k + 1;
                }
            }
        },
        None => (),
    }
    if no_header && title_index.is_none() {
        return Err(ArgsError::TitleIndexRequired);
    }
    Ok(())
}

} // verus!
