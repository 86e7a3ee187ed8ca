use vstd::prelude::*;

verus! {

/// The query-string filter the entry-listing endpoints accept: the optional
/// `archived` parameter arrives as raw text.
pub struct EntriesFilter {
    pub archived: Option<String>,
}

impl EntriesFilter {
    /// The boundary rule for the archive filter: the text "true" asks for
    /// archived entries, any other text for active ones, and an absent
    /// parameter means no filter at all.
    pub fn archived_filter(&self) -> (r: Option<bool>)
        ensures
            r == (match self.archived {
                Some(s) => Some(s@ == "true"@),
                None => None::<bool>,
            }),
    {
        match &self.archived {
            Some(s) => {
                let t = "true".to_owned();
                Some(*s == t)
            },
            None => None,
        }
    }
}

/// The request paths that are served without an authenticated caller: the
/// health check and the version report.
pub fn get_exception_uri() -> (r: Vec<String>)
    ensures
        r@.len() == 2,
        r@[0]@ == "/api/_"@,
        r@[1]@ == "/api/version"@,
{
    let mut exception_uri: Vec<String> = Vec::new();
    exception_uri.push("/api/_".to_owned());
    exception_uri.push("/api/version".to_owned());
    exception_uri
}

} // verus!
