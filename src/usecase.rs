use vstd::prelude::*;

use crate::link::{Link, LinkId, ShortUrl};
use crate::ports::{LinkPersistence, LinkQuery, PortCall, StoreError};
use crate::secret::LinkKey;

verus! {

/// The write side of storage, as the service uses it. It keeps, as ghost
/// state, the record of every call it made to the port and the answer.
pub struct LinkPersistenceService<P: LinkPersistence> {
    persistence: P,
    calls: Ghost<Seq<PortCall>>,
}

impl<P: LinkPersistence> View for LinkPersistenceService<P> {
    type V = Seq<PortCall>;

    closed spec fn view(&self) -> Seq<PortCall> {
        self.calls@
    }
}

impl<P: LinkPersistence> LinkPersistenceService<P> {
    pub fn new(persistence: P) -> (r: Self)
        ensures
            r@ == Seq::<PortCall>::empty(),
    {
        Self { persistence, calls: Ghost(Seq::empty()) }
    }

    pub fn save(&mut self, link: Link) -> (r: Result<LinkId, StoreError>)
        ensures
            final(self)@ == old(self)@.push(PortCall::Save(link@, r)),
            r matches Ok(id) ==> id@ == link@.id,
    {
        let ghost saved = link@;
        let r = self.persistence.save(link);
        self.calls = Ghost(self.calls@.push(PortCall::Save(saved, r)));
        r
    }

    pub fn delete_by_id(&mut self, id: LinkId) -> (r: Result<Option<Link>, StoreError>)
        ensures
            final(self)@ == old(self)@.push(PortCall::DeleteById(id, r)),
            r matches Ok(Some(l)) ==> l@.id == id@,
    {
        let r = self.persistence.delete_by_id(id);
        self.calls = Ghost(self.calls@.push(PortCall::DeleteById(id, r)));
        r
    }
}

/// The read side of storage, as the service uses it. It keeps, as ghost
/// state, the record of every call it made to the port and the answer.
pub struct LinkQueryService<Q: LinkQuery> {
    query: Q,
    calls: Ghost<Seq<PortCall>>,
}

impl<Q: LinkQuery> View for LinkQueryService<Q> {
    type V = Seq<PortCall>;

    closed spec fn view(&self) -> Seq<PortCall> {
        self.calls@
    }
}

impl<Q: LinkQuery> LinkQueryService<Q> {
    pub fn new(query: Q) -> (r: Self)
        ensures
            r@ == Seq::<PortCall>::empty(),
    {
        Self { query, calls: Ghost(Seq::empty()) }
    }

    pub fn find_by_id(&mut self, id: LinkId) -> (r: Result<Link, StoreError>)
        ensures
            final(self)@ == old(self)@.push(PortCall::FindById(id, r)),
            r matches Ok(l) ==> l@.id == id@,
    {
        let r = self.query.find_by_id(id);
        self.calls = Ghost(self.calls@.push(PortCall::FindById(id, r)));
        r
    }

    pub fn find_delete_key(&mut self, id: LinkId) -> (r: Result<LinkKey, StoreError>)
        ensures
            final(self)@ == old(self)@.push(PortCall::FindDeleteKey(id, r)),
    {
        let r = self.query.find_delete_key(id);
        self.calls = Ghost(self.calls@.push(PortCall::FindDeleteKey(id, r)));
        r
    }

    pub fn find_by_short_code(&mut self, short_code: ShortUrl) -> (r: Result<Link, StoreError>)
        ensures
            final(self)@ == old(self)@.push(PortCall::FindByShortCode(short_code@, r)),
            r matches Ok(l) ==> l@.short_code == short_code@,
    {
        let ghost code = short_code@;
        let r = self.query.find_by_short_code(short_code);
        self.calls = Ghost(self.calls@.push(PortCall::FindByShortCode(code, r)));
        r
    }
}

} // verus!
