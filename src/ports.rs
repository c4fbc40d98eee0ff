use vstd::prelude::*;

use crate::errors::LinkError;
use crate::link::{Link, LinkId, LinkView, ShortUrl};
use crate::secret::LinkKey;

verus! {

/// A failure reported by storage.
#[derive(Debug, Clone, PartialEq, Eq)]
pub enum StoreError {
    /// The identifier or the short code of the link is already taken.
    Conflict,
    /// No stored link matches.
    NotFound,
    /// Storage could not do the work; the message is its own.
    Failure(String),
}

/// The message that stands for a uniqueness conflict reported outside a save.
pub open spec fn conflict_message() -> Seq<char> {
    "storage reported a uniqueness conflict"@
}

/// `r` is the error a caller sees for the storage failure `e`: a missing
/// record is `NotFound`, and anything else is passed on as a storage error.
pub open spec fn lifts(e: StoreError, r: LinkError) -> bool {
    match e {
        StoreError::NotFound => r == LinkError::NotFound,
        StoreError::Failure(m) => r == LinkError::StorageError(m),
        StoreError::Conflict => (r matches LinkError::StorageError(m) && m@ == conflict_message()),
    }
}

pub fn lift(e: StoreError) -> (r: LinkError)
    ensures
        lifts(e, r),
{
    match e {
        StoreError::Conflict => LinkError::StorageError(
            "storage reported a uniqueness conflict".to_owned(),
        ),
        StoreError::NotFound => LinkError::NotFound,
        StoreError::Failure(m) => LinkError::StorageError(m),
    }
}

/// One call that the service made to a storage port, with its arguments
/// (as plain values) and the answer it got.
pub enum PortCall {
    Save(LinkView, Result<LinkId, StoreError>),
    DeleteById(LinkId, Result<Option<Link>, StoreError>),
    FindById(LinkId, Result<Link, StoreError>),
    FindDeleteKey(LinkId, Result<LinkKey, StoreError>),
    FindByShortCode(Seq<char>, Result<Link, StoreError>),
}

/// Writes links; implemented by the storage collaborator, which enforces that
/// identifiers and short codes are unique.
pub trait LinkPersistence {
    /// Stores `link` and hands back its identifier; `Conflict` where its
    /// identifier or short code is taken.
    fn save(&self, link: Link) -> (r: Result<LinkId, StoreError>)
        ensures
            r matches Ok(id) ==> id@ == link@.id,
    ;

    /// Removes the link with identifier `id`, handing it back if there was one.
    fn delete_by_id(&self, id: LinkId) -> (r: Result<Option<Link>, StoreError>)
        ensures
            r matches Ok(Some(l)) ==> l@.id == id@,
    ;
}

/// Reads links; implemented by the storage collaborator.
pub trait LinkQuery {
    /// The link with identifier `id`; `NotFound` where there is none.
    fn find_by_id(&self, id: LinkId) -> (r: Result<Link, StoreError>)
        ensures
            r matches Ok(l) ==> l@.id == id@,
    ;

    /// The stored delete-secret hash of the link with identifier `id`.
    fn find_delete_key(&self, id: LinkId) -> (r: Result<LinkKey, StoreError>);

    /// The link with the given short code; `NotFound` where there is none.
    fn find_by_short_code(&self, short_code: ShortUrl) -> (r: Result<Link, StoreError>)
        ensures
            r matches Ok(l) ==> l@.short_code == short_code@,
    ;
}

} // verus!
