use std::cell::RefCell;
use std::rc::Rc;

use rustlink::errors::LinkError;
use rustlink::link::{Link, LinkId, ShortUrl};
use rustlink::net::IpAddress;
use rustlink::ports::{lift, LinkPersistence, LinkQuery, StoreError};
use rustlink::secret::LinkKey;
use rustlink::service::{after_save, authorize, removal_result, LinkService, SaveStep, MAX_SAVE_ATTEMPTS};
use rustlink::usecase::{LinkPersistenceService, LinkQueryService};

/// Links kept in memory, shared by every clone; the first `conflicts` saves
/// are answered with a uniqueness conflict.
#[derive(Clone, Default)]
struct MemoryStore {
    links: Rc<RefCell<Vec<Link>>>,
    conflicts: Rc<RefCell<u32>>,
    saves: Rc<RefCell<u32>>,
    failure: Rc<RefCell<Option<String>>>,
}

impl LinkPersistence for MemoryStore {
    fn save(&self, link: Link) -> Result<LinkId, StoreError> {
        *self.saves.borrow_mut() += 1;
        if let Some(m) = self.failure.borrow().clone() {
            return Err(StoreError::Failure(m));
        }
        if *self.conflicts.borrow() > 0 {
            *self.conflicts.borrow_mut() -= 1;
            return Err(StoreError::Conflict);
        }
        let mut links = self.links.borrow_mut();
        if links.iter().any(|l| l.id() == link.id() || l.short_url() == link.short_url()) {
            return Err(StoreError::Conflict);
        }
        let id = *link.id();
        links.push(link);
        Ok(id)
    }

    fn delete_by_id(&self, id: LinkId) -> Result<Option<Link>, StoreError> {
        let mut links = self.links.borrow_mut();
        match links.iter().position(|l| *l.id() == id) {
            Some(i) => Ok(Some(links.remove(i))),
            None => Ok(None),
        }
    }
}

impl LinkQuery for MemoryStore {
    fn find_by_id(&self, id: LinkId) -> Result<Link, StoreError> {
        self.links.borrow().iter().find(|l| *l.id() == id).cloned().ok_or(StoreError::NotFound)
    }

    fn find_delete_key(&self, id: LinkId) -> Result<LinkKey, StoreError> {
        self.find_by_id(id).map(|l| l.delete_hash_code().clone())
    }

    fn find_by_short_code(&self, short_code: ShortUrl) -> Result<Link, StoreError> {
        self.links
            .borrow()
            .iter()
            .find(|l| *l.short_url() == short_code)
            .cloned()
            .ok_or(StoreError::NotFound)
    }
}

fn service(store: &MemoryStore) -> LinkService<MemoryStore, MemoryStore> {
    LinkService::new(LinkPersistenceService::new(store.clone()), LinkQueryService::new(store.clone()))
}

fn public() -> Vec<IpAddress> {
    vec![IpAddress::V4([93, 184, 216, 34])]
}

#[test]
fn create_with_public_host() {
    let store = MemoryStore::default();
    let created = service(&store).create("https://example.com/page", &public(), "s3cret").unwrap();
    assert_eq!(created.delete_secret, "s3cret");
    let code = created.short_code.as_str();
    assert_eq!(code.chars().count(), 7);
    assert!(code.chars().all(|c| c.is_ascii_alphanumeric()));
    let stored = store.links.borrow();
    assert_eq!(stored.len(), 1);
    assert_eq!(*stored[0].id(), created.id);
    assert_eq!(stored[0].user_url().as_str(), "https://example.com/page");
    assert!(!stored[0].delete_hash_code().value().contains("s3cret"));
}

#[test]
fn create_refuses_metadata_address() {
    let store = MemoryStore::default();
    let addrs = vec![IpAddress::V4([169, 254, 169, 254])];
    let r = service(&store).create("http://169.254.169.254/", &addrs, "s3cret");
    assert_eq!(r.unwrap_err(), LinkError::PrivateNetworkTarget);
    assert_eq!(*store.saves.borrow(), 0);
}

#[test]
fn create_checks_url_before_secret() {
    let store = MemoryStore::default();
    let mut svc = service(&store);
    assert_eq!(svc.create("  ", &public(), "").unwrap_err(), LinkError::EmptyUrl);
    assert_eq!(svc.create("nope", &public(), "").unwrap_err(), LinkError::MalformedUrl);
    assert_eq!(svc.create("https://example.com", &vec![], "").unwrap_err(), LinkError::UnresolvableHost);
    assert_eq!(svc.create("https://example.com", &public(), " ").unwrap_err(), LinkError::EmptySecret);
    assert_eq!(*store.saves.borrow(), 0);
}

#[test]
fn create_retries_after_conflicts() {
    let store = MemoryStore::default();
    *store.conflicts.borrow_mut() = MAX_SAVE_ATTEMPTS - 1;
    let created = service(&store).create("https://example.com/", &public(), "k").unwrap();
    assert_eq!(*store.saves.borrow(), MAX_SAVE_ATTEMPTS);
    assert_eq!(*store.links.borrow()[0].id(), created.id);
}

#[test]
fn create_gives_up_when_every_save_conflicts() {
    let store = MemoryStore::default();
    *store.conflicts.borrow_mut() = 100;
    let r = service(&store).create("https://example.com/", &public(), "k");
    assert_eq!(r.unwrap_err(), LinkError::CodeGenerationFailure);
    assert_eq!(*store.saves.borrow(), MAX_SAVE_ATTEMPTS);
    assert!(store.links.borrow().is_empty());
}

#[test]
fn create_passes_storage_failures_through() {
    let store = MemoryStore::default();
    *store.failure.borrow_mut() = Some("disk full".to_string());
    let r = service(&store).create("https://example.com/", &public(), "k");
    assert_eq!(r.unwrap_err(), LinkError::StorageError("disk full".to_string()));
    assert_eq!(*store.saves.borrow(), 1);
}

#[test]
fn retry_policy_steps() {
    let id = LinkId::new(5);
    assert_eq!(after_save(0, Ok(id)), SaveStep::Finish(Ok(id)));
    assert_eq!(after_save(0, Err(StoreError::Conflict)), SaveStep::Retry);
    assert_eq!(after_save(MAX_SAVE_ATTEMPTS - 2, Err(StoreError::Conflict)), SaveStep::Retry);
    assert_eq!(
        after_save(MAX_SAVE_ATTEMPTS - 1, Err(StoreError::Conflict)),
        SaveStep::Finish(Err(LinkError::CodeGenerationFailure))
    );
    assert_eq!(
        after_save(1, Err(StoreError::Failure("down".to_string()))),
        SaveStep::Finish(Err(LinkError::StorageError("down".to_string())))
    );
    assert_eq!(after_save(1, Err(StoreError::NotFound)), SaveStep::Finish(Err(LinkError::NotFound)));
}

#[test]
fn redirect_unknown_code_is_not_found() {
    let store = MemoryStore::default();
    let code = ShortUrl::new("Abc1234".to_string()).unwrap();
    assert_eq!(service(&store).redirect(code).unwrap_err(), LinkError::NotFound);
}

#[test]
fn redirect_returns_stored_url_unchanged() {
    let store = MemoryStore::default();
    let mut svc = service(&store);
    let created = svc.create(" https://example.com/a?b=c ", &public(), "k").unwrap();
    let url = svc.redirect(created.short_code).unwrap();
    assert_eq!(url.as_str(), " https://example.com/a?b=c ");
}

#[test]
fn delete_needs_the_right_secret_and_happens_once() {
    let store = MemoryStore::default();
    let mut svc = service(&store);
    let created = svc.create("https://example.com/page", &public(), "s3cret").unwrap();
    assert_eq!(svc.delete(created.id, "wrong").unwrap_err(), LinkError::SecretMismatch);
    let deleted = svc.delete(created.id, "s3cret").unwrap();
    assert_eq!(*deleted.id(), created.id);
    assert!(store.links.borrow().is_empty());
    assert_eq!(svc.delete(created.id, "s3cret").unwrap_err(), LinkError::NotFound);
}

#[test]
fn delete_unknown_id_is_not_found() {
    let store = MemoryStore::default();
    assert_eq!(service(&store).delete(LinkId::new(1), "x").unwrap_err(), LinkError::NotFound);
}

#[test]
fn storage_errors_reach_callers() {
    assert_eq!(lift(StoreError::NotFound), LinkError::NotFound);
    assert_eq!(
        lift(StoreError::Conflict),
        LinkError::StorageError("storage reported a uniqueness conflict".to_string())
    );
    assert_eq!(lift(StoreError::Failure("gone".to_string())), LinkError::StorageError("gone".to_string()));
}

/// A store whose every call fails.
struct DownStore;

impl LinkPersistence for DownStore {
    fn save(&self, _link: Link) -> Result<LinkId, StoreError> {
        Err(StoreError::Failure("down".to_string()))
    }

    fn delete_by_id(&self, _id: LinkId) -> Result<Option<Link>, StoreError> {
        Err(StoreError::Failure("down".to_string()))
    }
}

impl LinkQuery for DownStore {
    fn find_by_id(&self, _id: LinkId) -> Result<Link, StoreError> {
        Err(StoreError::Failure("down".to_string()))
    }

    fn find_delete_key(&self, _id: LinkId) -> Result<LinkKey, StoreError> {
        Err(StoreError::Failure("down".to_string()))
    }

    fn find_by_short_code(&self, _short_code: ShortUrl) -> Result<Link, StoreError> {
        Err(StoreError::Failure("down".to_string()))
    }
}

#[test]
fn redirect_and_delete_pass_storage_failures_through() {
    let mut svc = LinkService::new(LinkPersistenceService::new(DownStore), LinkQueryService::new(DownStore));
    let code = ShortUrl::new("Abc1234".to_string()).unwrap();
    assert_eq!(svc.redirect(code).unwrap_err(), LinkError::StorageError("down".to_string()));
    assert_eq!(svc.delete(LinkId::new(1), "x").unwrap_err(), LinkError::StorageError("down".to_string()));
}

#[test]
fn authorize_checks_the_secret_against_the_hash() {
    let key = LinkKey::hash_with_salt("s3cret", &vec![4u8; 16]).unwrap();
    assert_eq!(authorize(&key, "s3cret"), Ok(()));
    assert_eq!(authorize(&key, "wrong"), Err(LinkError::SecretMismatch));
    let malformed = LinkKey::new("not-a-hash".to_string()).unwrap();
    assert_eq!(authorize(&malformed, "s3cret"), Err(LinkError::SecretMismatch));
}

#[test]
fn removal_answers_map_to_results() {
    let link = Link::new(3, "h".to_string(), "Abc1234".to_string(), "https://e.com".to_string(), 0).unwrap();
    assert_eq!(removal_result(Ok(Some(link.clone()))), Ok(link));
    assert_eq!(removal_result(Ok(None)), Err(LinkError::NotFound));
    assert_eq!(
        removal_result(Err(StoreError::Failure("x".to_string()))),
        Err(LinkError::StorageError("x".to_string()))
    );
}

#[test]
fn wrong_secret_removes_nothing() {
    let store = MemoryStore::default();
    let mut svc = service(&store);
    let created = svc.create("https://example.com/page", &public(), "s3cret").unwrap();
    let code = created.short_code.clone();
    assert_eq!(svc.delete(created.id, "wrong").unwrap_err(), LinkError::SecretMismatch);
    assert_eq!(store.links.borrow().len(), 1);
    assert_eq!(svc.redirect(code).unwrap().as_str(), "https://example.com/page");
}
