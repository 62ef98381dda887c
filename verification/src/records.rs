//! The normalized output record of an extraction: a mandatory title and
//! an optional description.

use vstd::prelude::*;

verus! {

/// One issue extracted from a source document. Ownership passes fully to
/// the caller; the extractor keeps nothing.
#[derive(Debug, Clone, PartialEq, Eq)]
pub struct IssueFromFile {
    pub title: String,
    pub description: Option<String>,
}

/// The mathematical value of an [`IssueFromFile`].
pub struct IssueView {
    pub title: Seq<char>,
    pub description: Option<Seq<char>>,
}

impl View for IssueFromFile {
    type V = IssueView;

    open spec fn view(&self) -> IssueView {
        IssueView { title: self.title@, description: self.description.deep_view() }
    }
}

impl DeepView for IssueFromFile {
    type V = IssueView;

    open spec fn deep_view(&self) -> IssueView {
        self.view()
    }
}

impl IssueFromFile {
    /// A one-line rendering of the record, `Title: '<t>', Description: '<d>'`,
    /// with a missing description shown as the empty string.
    pub fn display_line(&self) -> (r: String)
        ensures
            r@ == "Title: '"@ + self.title@ + "', Description: '"@ + (match self.description {
                Some(d) => d@,
                None => Seq::<char>::empty(),
            }) + "'"@,
    {
        let mut r = "Title: '".to_owned();
        r.append(self.title.as_str());
        r.append("', Description: '");
        match &self.description {
            Some(d) => r.append(d.as_str()),
            None => (),
        }
        r.append("'");
        proof {
            assert(r@ =~= "Title: '"@ + self.title@ + "', Description: '"@ + (match self
                .description {
                Some(d) => d@,
                None => Seq::<char>::empty(),
            }) + "'"@);
        }
        r
    }
}

} // verus!
