use vstd::prelude::*;

verus! {

/// What a caller submits to create a link: the long URL and, optionally, a
/// delete secret of their own (the server makes one where it is absent).
#[derive(Debug, Clone)]
pub struct CreateLinkForm {
    pub long_url: String,
    pub delete_secret: Option<String>,
}

} // verus!
