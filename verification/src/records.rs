//! Payload shapes of the CRUD edges of the surrounding service.
//!
//! These are the request bodies that arrive beside the weather endpoint:
//! partial edits, creation payloads, and the tally a bulk import reports.
//! The storage round trips themselves live outside this crate; what is
//! verified here is the little decision logic the payloads carry — which
//! fields an edit replaces, and how an import tally grows.

use vstd::prelude::*;

verus! {

/// Partial edit of a document: a field is replaced only when present.
pub struct UpdateDocument {
    pub content: Option<String>,
    pub title: Option<String>,
}

/// A document to be created.
pub struct NewDocument {
    pub title: String,
    pub content: String,
}

/// Partial edit of a note: a field is replaced only when present.
pub struct UpdateNote {
    pub content: Option<String>,
    pub title: Option<String>,
}

/// A note to be created.
pub struct NewNote {
    pub title: String,
    pub content: String,
}

impl UpdateDocument {
    /// The title and content after the edit: a present field replaces the
    /// stored one, an absent field leaves it unchanged.
    pub fn apply(self, title: String, content: String) -> (r: (String, String))
        ensures
            r.0 == (match self.title {
                Some(t) => t,
                None => title,
            }),
            r.1 == (match self.content {
                Some(c) => c,
                None => content,
            }),
    {
        let t = match self.title {
            Some(t) => t,
            None => title,
        };
        let c = match self.content {
            Some(c) => c,
            None => content,
        };
        (t, c)
    }
}

impl UpdateNote {
    /// The title and content after the edit: a present field replaces the
    /// stored one, an absent field leaves it unchanged.
    pub fn apply(self, title: String, content: String) -> (r: (String, String))
        ensures
            r.0 == (match self.title {
                Some(t) => t,
                None => title,
            }),
            r.1 == (match self.content {
                Some(c) => c,
                None => content,
            }),
    {
        let t = match self.title {
            Some(t) => t,
            None => title,
        };
        let c = match self.content {
            Some(c) => c,
            None => content,
        };
        (t, c)
    }
}

/// What a bulk import reports: how many rows were inserted, how many were
/// rejected, and one message per rejected row.
pub struct UploadResult {
    pub success: usize,
    pub failed: usize,
    pub errors: Vec<String>,
}

impl UploadResult {
    /// An empty tally.
    pub fn new() -> (r: UploadResult)
        ensures
            r.success == 0,
            r.failed == 0,
            r.errors@ == Seq::<String>::empty(),
    {
        UploadResult { success: 0, failed: 0, errors: Vec::new() }
    }

    /// Counts one imported row.
    pub fn record_success(&mut self)
        requires
            old(self).success < usize::MAX,
        ensures
            final(self).success == old(self).success + 1,
            final(self).failed == old(self).failed,
            final(self).errors == old(self).errors,
    {
        self.success = self.success + 1;
    }

    /// Counts one rejected row together with its error message.
    pub fn record_failure(&mut self, err: String)
        requires
            old(self).failed < usize::MAX,
        ensures
            final(self).failed == old(self).failed + 1,
            final(self).success == old(self).success,
            final(self).errors@ == old(self).errors@.push(err),
    {
        self.failed = self.failed + 1;
        self.errors.push(err);
    }
}

} // verus!
