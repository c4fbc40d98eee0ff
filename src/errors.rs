use vstd::prelude::*;

verus! {

/// Every failure the library reports to its callers.
#[derive(Debug, Clone, PartialEq, Eq)]
pub enum LinkError {
    /// The long URL is empty once surrounding whitespace is removed.
    EmptyUrl,
    /// The long URL is not an absolute URL with a host.
    MalformedUrl,
    /// The host of the long URL resolved to no address.
    UnresolvableHost,
    /// The host of the long URL resolved to an address inside a private network.
    PrivateNetworkTarget,
    /// The delete secret is empty once surrounding whitespace is removed.
    EmptySecret,
    /// No fresh identifier and short code could be stored, or no random source was available.
    CodeGenerationFailure,
    /// No link has the given identifier or short code.
    NotFound,
    /// The delete secret does not match the one the link was created with.
    SecretMismatch,
    /// A stored or supplied value does not have the shape of the value it stands for.
    InvalidFormat,
    /// The storage collaborator failed; its message is passed on unread.
    StorageError(String),
}

} // verus!
