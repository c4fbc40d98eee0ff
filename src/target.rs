use vstd::prelude::*;

use crate::errors::LinkError;
use crate::net::{any_internal, any_private_ip, IpAddress};
use crate::text::{is_blank, trim_of, trimmed};

verus! {

/// The host that `url::Url::parse` finds in `s`, or `None` where `s` is not an
/// absolute URL or has no host.
pub uninterp spec fn url_host_of(s: Seq<char>) -> Option<Seq<char>>;

/// Relies on `url::Url::parse` and `Url::host_str`: the host of an absolute
/// URL, which depends on the text alone.
#[verifier::external_body]
fn parsed_host(s: &str) -> (r: Option<String>)
    ensures
        r matches Some(h) ==> url_host_of(s@) == Some(h@),
        r is None ==> url_host_of(s@) is None,
{
    match ::url::Url::parse(s) {
        Ok(u) => u.host_str().map(String::from),
        Err(_) => None,
    }
}

/// The first check that `value` fails, where `addrs` is what its host resolved to.
pub open spec fn url_rejection(value: Seq<char>, addrs: Seq<IpAddress>) -> Option<LinkError> {
    if is_blank(value) {
        Some(LinkError::EmptyUrl)
    } else if url_host_of(trim_of(value)) is None {
        Some(LinkError::MalformedUrl)
    } else if addrs.len() == 0 {
        Some(LinkError::UnresolvableHost)
    } else if any_internal(addrs) {
        Some(LinkError::PrivateNetworkTarget)
    } else {
        None
    }
}

/// A URL with a host that resolved to at least one address, one of them
/// private-use, loopback, link-local or unique-local, is refused as a private
/// target.
pub proof fn lemma_internal_address_refused(value: Seq<char>, addrs: Seq<IpAddress>, i: int)
    requires
        !is_blank(value),
        url_host_of(trim_of(value)) is Some,
        0 <= i < addrs.len(),
        addrs[i].is_internal(),
    ensures
        url_rejection(value, addrs) == Some(LinkError::PrivateNetworkTarget),
{
}

/// A URL with a host that resolved only to public addresses is accepted.
pub proof fn lemma_public_host_accepted(value: Seq<char>, addrs: Seq<IpAddress>)
    requires
        !is_blank(value),
        url_host_of(trim_of(value)) is Some,
        addrs.len() > 0,
        forall|i: int| 0 <= i < addrs.len() ==> !(#[trigger] addrs[i]).is_internal(),
    ensures
        url_rejection(value, addrs) is None,
{
}

/// Blank text is refused as an empty URL, and text that is no absolute URL
/// with a host as a malformed one, whatever its host resolved to.
pub proof fn lemma_blank_or_malformed_refused(value: Seq<char>, addrs: Seq<IpAddress>)
    ensures
        is_blank(value) ==> url_rejection(value, addrs) == Some(LinkError::EmptyUrl),
        !is_blank(value) && url_host_of(trim_of(value)) is None ==> url_rejection(value, addrs)
            == Some(LinkError::MalformedUrl),
{
}

/// A long URL that was accepted as a redirect target: it has a host, and that
/// host resolved only to public addresses when it was checked.
#[derive(Debug)]
pub struct Url {
    raw: String,
}

impl Clone for Url {
    fn clone(&self) -> (r: Self)
        ensures
            r@ == self@,
    {
        self.duplicate()
    }
}

impl View for Url {
    type V = Seq<char>;

    closed spec fn view(&self) -> Seq<char> {
        self.raw@
    }
}

impl Url {
    #[verifier::type_invariant]
    spec fn inv(self) -> bool {
        !is_blank(self.raw@)
    }

    /// The host that must be resolved before `value` can be checked.
    pub fn host_of(value: &str) -> (r: Result<String, LinkError>)
        ensures
            is_blank(value@) ==> r == Err::<String, LinkError>(LinkError::EmptyUrl),
            !is_blank(value@) ==> match url_host_of(trim_of(value@)) {
                None => r == Err::<String, LinkError>(LinkError::MalformedUrl),
                Some(h) => (r matches Ok(s) && s@ == h),
            },
    {
        let t = trimmed(value);
        if t.is_empty() {
            return Err(LinkError::EmptyUrl);
        }
        match parsed_host(t) {
            Some(h) => Ok(h),
            None => Err(LinkError::MalformedUrl),
        }
    }

    /// Accepts `value` as a redirect target, where `addrs` is every address that
    /// its host (as `host_of` gives it) resolved to. A single internal address
    /// among them is enough to refuse it. The text is kept exactly as given.
    pub fn new(value: &str, addrs: &Vec<IpAddress>) -> (r: Result<Url, LinkError>)
        ensures
            match url_rejection(value@, addrs@) {
                Some(e) => r == Err::<Url, LinkError>(e),
                None => r matches Ok(u) && u@ == value@,
            },
    {
        let t = trimmed(value);
        if t.is_empty() {
            return Err(LinkError::EmptyUrl);
        }
        if parsed_host(t).is_none() {
            return Err(LinkError::MalformedUrl);
        }
        if addrs.len() == 0 {
            return Err(LinkError::UnresolvableHost);
        }
        if any_private_ip(addrs) {
            return Err(LinkError::PrivateNetworkTarget);
        }
        Ok(Url { raw: value.to_owned() })
    }

    pub(crate) fn duplicate(&self) -> (r: Url)
        ensures
            r@ == self@,
    {
        proof {
            use_type_invariant(self);
        }
        Url { raw: self.raw.clone() }
    }

    pub fn as_str(&self) -> (r: &str)
        ensures
            r@ == self@,
            !is_blank(r@),
    {
        proof {
            use_type_invariant(self);
        }
        self.raw.as_str()
    }
}

} // verus!
