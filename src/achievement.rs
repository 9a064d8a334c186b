use vstd::prelude::*;

verus! {

/// One issued record: `user_id` completed `course_id`.
#[derive(Debug, PartialEq, Eq)]
pub struct Achievement {
    /// Registry-assigned id: the record's 1-based position in issuance order.
    pub id: u32,
    pub course_id: u32,
    pub user_id: u32,
    /// Ledger timestamp (seconds since the epoch) at issuance.
    pub issued_at: u64,
    /// Pointer to off-registry metadata, such as a content-addressed URI.
    pub metadata_uri: String,
}

impl Clone for Achievement {
    fn clone(&self) -> (r: Self)
        ensures
            r == *self,
    {
        Achievement {
            id: self.id,
            course_id: self.course_id,
            user_id: self.user_id,
            issued_at: self.issued_at,
            metadata_uri: self.metadata_uri.clone(),
        }
    }
}

/// The registry's closed set of error kinds. Neither is produced by the
/// current operations: lookups answer `false` or an empty list instead of
/// `NotFound`, and no caller check exists that would give `Unauthorized`.
#[derive(Clone, Copy, Debug, PartialEq, Eq, Structural)]
pub enum Error {
    NotFound,
    Unauthorized,
}

} // verus!
