use vstd::prelude::*;
use vstd::string::StringSliceAdditionalSpecFns;

use crate::errors::LinkError;
use crate::link::{is_short_code, CreatedAt, Link, LinkId, ShortUrl, UserUrl};
use crate::net::IpAddress;
use crate::ports::{lift, lifts, LinkPersistence, LinkQuery, PortCall, StoreError};
use crate::random::os_seeded;
use crate::secret::{verifies, LinkKey, MAX_SECRET_BYTES};
use crate::target::{url_rejection, Url};
use crate::text::is_blank;
use crate::usecase::{LinkPersistenceService, LinkQueryService};

verus! {

/// How many fresh identifier and short-code pairs `create` tries to store.
pub const MAX_SAVE_ATTEMPTS: u32 = 5;

/// What `create` hands back: the new link's identifier and short code, and
/// the delete secret, which is never seen again once this value is dropped.
#[derive(Debug)]
pub struct CreatedLink {
    pub id: LinkId,
    pub short_code: ShortUrl,
    pub delete_secret: String,
}

/// What to do once storage has answered a save.
#[derive(Debug, PartialEq, Eq)]
pub enum SaveStep {
    /// Try again with a fresh identifier and short code.
    Retry,
    /// Stop, with this result.
    Finish(Result<LinkId, LinkError>),
}

/// The retry policy: a save that conflicts is retried until `MAX_SAVE_ATTEMPTS`
/// saves have been tried; any other answer ends the creation.
pub open spec fn save_step(attempt: nat, outcome: Result<LinkId, StoreError>) -> SaveStep {
    match outcome {
        Ok(id) => SaveStep::Finish(Ok(id)),
        Err(StoreError::Conflict) => if attempt + 1 < MAX_SAVE_ATTEMPTS {
            SaveStep::Retry
        } else {
            SaveStep::Finish(Err(LinkError::CodeGenerationFailure))
        },
        Err(StoreError::NotFound) => SaveStep::Finish(Err(LinkError::NotFound)),
        Err(StoreError::Failure(m)) => SaveStep::Finish(Err(LinkError::StorageError(m))),
    }
}

/// The result of a creation whose saves, from attempt `attempt` on, were
/// answered with `outcomes`; `None` where the answers run out first.
pub open spec fn creation_outcome(outcomes: Seq<Result<LinkId, StoreError>>, attempt: nat) -> Option<
    Result<LinkId, LinkError>,
>
    decreases outcomes.len(),
{
    if outcomes.len() == 0 {
        None
    } else {
        match save_step(attempt, outcomes[0]) {
            SaveStep::Retry => creation_outcome(outcomes.drop_first(), attempt + 1),
            SaveStep::Finish(r) => Some(r),
        }
    }
}

/// `k` conflicting answers.
pub open spec fn conflicts(k: nat) -> Seq<Result<LinkId, StoreError>> {
    Seq::new(k, |i: int| Err(StoreError::Conflict))
}

/// The retry policy applied to one answer, for the attempt numbered `attempt`
/// (counting from 0).
pub fn after_save(attempt: u32, outcome: Result<LinkId, StoreError>) -> (r: SaveStep)
    requires
        attempt < MAX_SAVE_ATTEMPTS,
    ensures
        r == save_step(attempt as nat, outcome),
{
    match outcome {
        Ok(id) => SaveStep::Finish(Ok(id)),
        Err(StoreError::Conflict) => if attempt + 1 < MAX_SAVE_ATTEMPTS {
            SaveStep::Retry
        } else {
            SaveStep::Finish(Err(LinkError::CodeGenerationFailure))
        },
        Err(StoreError::NotFound) => SaveStep::Finish(Err(LinkError::NotFound)),
        Err(StoreError::Failure(m)) => SaveStep::Finish(Err(LinkError::StorageError(m))),
    }
}

proof fn lemma_after_conflicts(k: nat, attempt: nat, last: Result<LinkId, StoreError>)
    requires
        attempt + k < MAX_SAVE_ATTEMPTS,
    ensures
        creation_outcome(conflicts(k).push(last), attempt) == match save_step(
            attempt + k,
            last,
        ) {
            SaveStep::Retry => creation_outcome(seq![], attempt + k + 1),
            SaveStep::Finish(r) => Some(r),
        },
    decreases k,
{
    let s = conflicts(k).push(last);
    if k == 0 {
        assert(s.drop_first() =~= seq![]);
    } else {
        assert(s.drop_first() =~= conflicts((k - 1) as nat).push(last));
        lemma_after_conflicts((k - 1) as nat, attempt + 1, last);
    }
}

/// A creation whose saves conflict fewer than `MAX_SAVE_ATTEMPTS` times and
/// then succeed ends with the identifier that storage accepted.
pub proof fn lemma_retries_until_saved(k: nat, id: LinkId)
    requires
        k < MAX_SAVE_ATTEMPTS,
    ensures
        creation_outcome(conflicts(k).push(Ok(id)), 0) == Some(Ok::<LinkId, LinkError>(id)),
{
    lemma_after_conflicts(k, 0, Ok(id));
}

/// A creation whose every save conflicts fails with `CodeGenerationFailure`
/// once `MAX_SAVE_ATTEMPTS` saves have been tried.
pub proof fn lemma_gives_up_when_every_save_conflicts()
    ensures
        creation_outcome(conflicts(MAX_SAVE_ATTEMPTS as nat), 0) == Some(
            Err::<LinkId, LinkError>(LinkError::CodeGenerationFailure),
        ),
{
    let k = (MAX_SAVE_ATTEMPTS - 1) as nat;
    assert(conflicts(k).push(Err(StoreError::Conflict)) =~= conflicts(MAX_SAVE_ATTEMPTS as nat));
    lemma_after_conflicts(k, 0, Err(StoreError::Conflict));
}

/// The identifier that a creation result carries, or its error.
pub open spec fn created_id(r: Result<CreatedLink, LinkError>) -> Result<LinkId, LinkError> {
    match r {
        Ok(c) => Ok(c.id),
        Err(e) => Err(e),
    }
}

/// What `LinkKey::verify` answers for `secret` against the stored text `hash`.
pub open spec fn secret_accepted(secret: &str, hash: Seq<char>) -> bool {
    secret.spec_bytes().len() <= MAX_SECRET_BYTES && verifies(secret@, hash)
}

/// The answers in a record of saves.
pub open spec fn save_answers(calls: Seq<PortCall>) -> Seq<Result<LinkId, StoreError>> {
    Seq::new(calls.len(), |i: int| calls[i]->Save_1)
}

/// A save made while creating a link to `long_url` with `secret`: the link
/// has that long URL, a valid short code and a hash that verifies the
/// secret, and an accepted save hands back its identifier.
pub open spec fn is_creation_save(call: PortCall, long_url: Seq<char>, secret: &str) -> bool {
    &&& call is Save
    &&& call->Save_0.long_url == long_url
    &&& is_short_code(call->Save_0.short_code)
    &&& secret_accepted(secret, call->Save_0.delete_hash)
    &&& call->Save_1 matches Ok(id) ==> id@ == call->Save_0.id
}

/// How a creation went, given the calls it made to the write side of
/// storage (`calls`) and to the read side (`reads`, always none). A refused URL
/// or blank secret makes no call; with no call at all otherwise, the random
/// source failed. Else every call is a save of a fresh link, each one but the
/// last answered with a conflict, and the result is what the retry policy
/// gives for those answers.
pub open spec fn creation_went(
    long_url: Seq<char>,
    addrs: Seq<IpAddress>,
    secret: &str,
    calls: Seq<PortCall>,
    reads: Seq<PortCall>,
    r: Result<CreatedLink, LinkError>,
) -> bool {
    reads.len() == 0 && match url_rejection(long_url, addrs) {
        Some(e) => calls.len() == 0 && r == Err::<CreatedLink, LinkError>(e),
        None => if is_blank(secret@) {
            calls.len() == 0 && r == Err::<CreatedLink, LinkError>(LinkError::EmptySecret)
        } else if calls.len() == 0 {
            r == Err::<CreatedLink, LinkError>(LinkError::CodeGenerationFailure)
        } else {
            &&& calls.len() <= MAX_SAVE_ATTEMPTS
            &&& forall|i: int| 0 <= i < calls.len() ==> is_creation_save(#[trigger] calls[i], long_url, secret)
            &&& forall|i: int| 0 <= i < calls.len() - 1 ==> #[trigger] calls[i]->Save_1 == Err::<LinkId, StoreError>(StoreError::Conflict)
            &&& creation_outcome(save_answers(calls), 0) == Some(created_id(r))
            &&& r matches Ok(c) ==> (c.id@ == calls.last()->Save_0.id && c.short_code@ == calls.last()->Save_0.short_code
                && c.delete_secret@ == secret@)
        },
    }
}

/// How a redirect went, given the calls it made to the write side of storage
/// (none) and to the read side (`calls`): one lookup by the short code, whose
/// link's long URL is returned, or whose failure is passed on.
pub open spec fn redirect_went(code: Seq<char>, writes: Seq<PortCall>, calls: Seq<PortCall>, r: Result<UserUrl, LinkError>) -> bool {
    &&& writes.len() == 0
    &&& calls.len() == 1
    &&& calls[0] is FindByShortCode
    &&& calls[0]->FindByShortCode_0 == code
    &&& match calls[0]->FindByShortCode_1 {
        Ok(l) => (r matches Ok(u) && u@ == l@.long_url),
        Err(e) => (r matches Err(x) && lifts(e, x)),
    }
}

/// What a delete hands back once the stored hash accepted the secret: the
/// removed link, or `NotFound` where none was removed, or the storage failure.
pub open spec fn removal_went(answer: Result<Option<Link>, StoreError>, r: Result<Link, LinkError>) -> bool {
    match answer {
        Ok(Some(l)) => r == Ok::<Link, LinkError>(l),
        Ok(None) => r == Err::<Link, LinkError>(LinkError::NotFound),
        Err(e) => (r matches Err(x) && lifts(e, x)),
    }
}

/// How a delete went, given the calls it made to the write side of storage
/// (`writes`) and to the read side (`reads`): a lookup by identifier, then of
/// the stored hash, then, only if that hash accepts the secret, the removal.
/// The first failure ends it.
pub open spec fn deletion_went(
    id: LinkId,
    secret: &str,
    writes: Seq<PortCall>,
    reads: Seq<PortCall>,
    r: Result<Link, LinkError>,
) -> bool {
    &&& reads.len() >= 1
    &&& reads[0] is FindById
    &&& reads[0]->FindById_0 == id
    &&& match reads[0]->FindById_1 {
        Err(e) => reads.len() == 1 && writes.len() == 0 && (r matches Err(x) && lifts(e, x)),
        Ok(_) => {
            &&& reads.len() == 2
            &&& reads[1] is FindDeleteKey
            &&& reads[1]->FindDeleteKey_0 == id
            &&& match reads[1]->FindDeleteKey_1 {
                Err(e) => writes.len() == 0 && (r matches Err(x) && lifts(e, x)),
                Ok(k) => if !secret_accepted(secret, k@) {
                    writes.len() == 0 && r == Err::<Link, LinkError>(LinkError::SecretMismatch)
                } else {
                    &&& writes.len() == 1
                    &&& writes[0] is DeleteById
                    &&& writes[0]->DeleteById_0 == id
                    &&& removal_went(writes[0]->DeleteById_1, r)
                },
            }
        },
    }
}

/// The calls in `after` made since `before`.
pub open spec fn calls_since(before: Seq<PortCall>, after: Seq<PortCall>) -> Seq<PortCall> {
    after.skip(before.len() as int)
}

/// Checks `secret` against the stored hash: `SecretMismatch` where it is not
/// the secret the hash was made from.
pub fn authorize(stored: &LinkKey, secret: &str) -> (r: Result<(), LinkError>)
    ensures
        r == (if secret_accepted(secret, stored@) {
            Ok::<(), LinkError>(())
        } else {
            Err::<(), LinkError>(LinkError::SecretMismatch)
        }),
{
    if stored.verify(secret) {
        Ok(())
    } else {
        Err(LinkError::SecretMismatch)
    }
}

/// The result of a delete, given storage's answer to the removal.
pub fn removal_result(answer: Result<Option<Link>, StoreError>) -> (r: Result<Link, LinkError>)
    ensures
        removal_went(answer, r),
{
    match answer {
        Ok(Some(l)) => Ok(l),
        Ok(None) => Err(LinkError::NotFound),
        Err(e) => Err(lift(e)),
    }
}

/// Creates, resolves and deletes links against the two storage ports. Its
/// view is the record of calls made to the write side and to the read side.
pub struct LinkService<P: LinkPersistence, Q: LinkQuery> {
    persistence_service: LinkPersistenceService<P>,
    query_service: LinkQueryService<Q>,
}

impl<P: LinkPersistence, Q: LinkQuery> View for LinkService<P, Q> {
    type V = (Seq<PortCall>, Seq<PortCall>);

    closed spec fn view(&self) -> (Seq<PortCall>, Seq<PortCall>) {
        (self.persistence_service@, self.query_service@)
    }
}

/// `after` is `before` with more calls at its end.
pub open spec fn extends(before: Seq<PortCall>, after: Seq<PortCall>) -> bool {
    before.len() <= after.len() && after.subrange(0, before.len() as int) == before
}

proof fn lemma_extends_itself(s: Seq<PortCall>)
    ensures
        extends(s, s),
{
    assert(s.subrange(0, s.len() as int) =~= s);
}

impl<P: LinkPersistence, Q: LinkQuery> LinkService<P, Q> {
    pub fn new(persistence: LinkPersistenceService<P>, query: LinkQueryService<Q>) -> (r: Self)
        ensures
            r@ == (persistence@, query@),
    {
        Self { persistence_service: persistence, query_service: query }
    }

    /// Creates a link to `long_url`, deletable with `delete_secret`. `addrs`
    /// is every address that the host of `long_url` (as `Url::host_of` gives
    /// it) resolved to. The URL is checked first, then the secret; then links
    /// with a fresh identifier and short code are saved until storage takes
    /// one, at most `MAX_SAVE_ATTEMPTS` times.
    pub fn create(&mut self, long_url: &str, addrs: &Vec<IpAddress>, delete_secret: &str) -> (r:
        Result<CreatedLink, LinkError>)
        requires
            delete_secret.spec_bytes().len() <= MAX_SECRET_BYTES,
        ensures
            extends(old(self)@.0, final(self)@.0),
            extends(old(self)@.1, final(self)@.1),
            creation_went(
                long_url@,
                addrs@,
                delete_secret,
                calls_since(old(self)@.0, final(self)@.0),
                calls_since(old(self)@.1, final(self)@.1),
                r,
            ),
    {
        let ghost before = self.persistence_service@;
        let ghost reads = self.query_service@;
        proof {
            lemma_extends_itself(before);
            lemma_extends_itself(reads);
        }
        let url = match Url::new(long_url, addrs) {
            Ok(u) => u,
            Err(e) => {
                assert(calls_since(before, self.persistence_service@) =~= seq![]);
                assert(calls_since(reads, self.query_service@) =~= seq![]);
                return Err(e);
            },
        };
        let key = match LinkKey::generate(delete_secret) {
            Ok(k) => k,
            Err(e) => {
                assert(calls_since(before, self.persistence_service@) =~= seq![]);
                assert(calls_since(reads, self.query_service@) =~= seq![]);
                return Err(e);
            },
        };
        let mut rng = match os_seeded() {
            Some(rng) => rng,
            None => {
                assert(calls_since(before, self.persistence_service@) =~= seq![]);
                assert(calls_since(reads, self.query_service@) =~= seq![]);
                return Err(LinkError::CodeGenerationFailure);
            },
        };
        let user_url = UserUrl::from_url(&url);
        let created_at = CreatedAt::value();
        let mut attempt: u32 = 0;
        assert(calls_since(reads, self.query_service@) =~= seq![]);
        loop
            invariant
                attempt < MAX_SAVE_ATTEMPTS,
                before == old(self)@.0,
                reads == old(self)@.1,
                self.query_service@ == reads,
                extends(reads, reads),
                url_rejection(long_url@, addrs@) is None,
                !is_blank(delete_secret@),
                user_url@ == long_url@,
                secret_accepted(delete_secret, key@),
                self.persistence_service@.len() == before.len() + attempt,
                self.persistence_service@.subrange(0, before.len() as int) == before,
                forall|i: int| 0 <= i < attempt ==> is_creation_save(#[trigger] calls_since(before, self.persistence_service@)[i], long_url@, delete_secret),
                save_answers(calls_since(before, self.persistence_service@)) =~= conflicts(attempt as nat),
            decreases MAX_SAVE_ATTEMPTS - attempt,
        {
            let id = LinkId::random(&mut rng);
            let short_code = ShortUrl::random(&mut rng);
            let link = Link::from_parts(
                id,
                key.duplicate(),
                short_code.duplicate(),
                user_url.duplicate(),
                created_at,
            );
            let ghost view = link@;
            let ghost old_calls = self.persistence_service@;
            let outcome = self.persistence_service.save(link);
            let ghost made = calls_since(before, self.persistence_service@);
            proof {
                assert(made =~= calls_since(before, old_calls).push(PortCall::Save(view, outcome)));
                assert(save_answers(made) =~= conflicts(attempt as nat).push(outcome));
                assert(self.persistence_service@.subrange(0, before.len() as int) =~= before);
                lemma_after_conflicts(attempt as nat, 0, outcome);
            }
            let step = after_save(attempt, outcome);
            if let SaveStep::Finish(result) = step {
                let r = match result {
                    Ok(saved) => Ok(
                        CreatedLink { id: saved, short_code, delete_secret: delete_secret.to_owned() },
                    ),
                    Err(e) => Err(e),
                };
                proof {
                    assert forall|i: int| 0 <= i < made.len() - 1 implies #[trigger] made[i]->Save_1
                        == Err::<LinkId, StoreError>(StoreError::Conflict) by {
                        assert(save_answers(made)[i] == made[i]->Save_1);
                    }
                    assert(made.last() == PortCall::Save(view, outcome));
                }
                return r;
            }
            proof {
                assert(save_answers(made) =~= conflicts((attempt + 1) as nat));
            }
            attempt = attempt + 1;
        }
    }

    /// The long URL that the link with `short_code` redirects to, unchanged;
    /// `NotFound` where no link has it.
    pub fn redirect(&mut self, short_code: ShortUrl) -> (r: Result<UserUrl, LinkError>)
        ensures
            extends(old(self)@.0, final(self)@.0),
            extends(old(self)@.1, final(self)@.1),
            redirect_went(
                short_code@,
                calls_since(old(self)@.0, final(self)@.0),
                calls_since(old(self)@.1, final(self)@.1),
                r,
            ),
    {
        let ghost writes = self.persistence_service@;
        let ghost before = self.query_service@;
        proof {
            lemma_extends_itself(writes);
        }
        let answer = self.query_service.find_by_short_code(short_code);
        assert(calls_since(writes, self.persistence_service@) =~= seq![]);
        assert(calls_since(before, self.query_service@) =~= seq![self.query_service@.last()]);
        assert(self.query_service@.subrange(0, before.len() as int) =~= before);
        match answer {
            Ok(link) => Ok(link.user_url().duplicate()),
            Err(e) => Err(lift(e)),
        }
    }

    /// Deletes the link with identifier `id` and hands it back, if
    /// `delete_secret` is the one it was created with. `NotFound` where there
    /// is no such link (a second delete finds none); `SecretMismatch` where
    /// the secret is wrong, and then nothing is removed.
    pub fn delete(&mut self, id: LinkId, delete_secret: &str) -> (r: Result<Link, LinkError>)
        ensures
            extends(old(self)@.0, final(self)@.0),
            extends(old(self)@.1, final(self)@.1),
            deletion_went(
                id,
                delete_secret,
                calls_since(old(self)@.0, final(self)@.0),
                calls_since(old(self)@.1, final(self)@.1),
                r,
            ),
    {
        let ghost writes = self.persistence_service@;
        let ghost before = self.query_service@;
        proof {
            lemma_extends_itself(writes);
        }
        let found = self.query_service.find_by_id(id);
        let ghost c0 = PortCall::FindById(id, found);
        if let Err(e) = found {
            assert(calls_since(writes, self.persistence_service@) =~= seq![]);
            assert(calls_since(before, self.query_service@) =~= seq![c0]);
            assert(self.query_service@.subrange(0, before.len() as int) =~= before);
            return Err(lift(e));
        }
        let stored = self.query_service.find_delete_key(id);
        let ghost c1 = PortCall::FindDeleteKey(id, stored);
        assert(calls_since(before, self.query_service@) =~= seq![c0, c1]);
        assert(self.query_service@.subrange(0, before.len() as int) =~= before);
        let key = match stored {
            Ok(k) => k,
            Err(e) => {
                assert(calls_since(writes, self.persistence_service@) =~= seq![]);
                return Err(lift(e));
            },
        };
        if let Err(e) = authorize(&key, delete_secret) {
            assert(calls_since(writes, self.persistence_service@) =~= seq![]);
            return Err(e);
        }
        let removed = self.persistence_service.delete_by_id(id);
        let ghost c2 = PortCall::DeleteById(id, removed);
        assert(calls_since(writes, self.persistence_service@) =~= seq![c2]);
        assert(self.persistence_service@.subrange(0, writes.len() as int) =~= writes);
        removal_result(removed)
    }
}

} // verus!
