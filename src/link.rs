use vstd::prelude::*;

use rand::rngs::StdRng;

use crate::errors::LinkError;
use crate::ids::{big_endian, now_unix_seconds, parse_uuid, uuid_parsed_of, uuid_v4_bytes, uuid_v4_from};
use crate::random::{os_seeded, random_below, random_bytes};
use crate::secret::LinkKey;
use crate::target::Url;
use crate::text::{is_blank, trim_of, trimmed};

verus! {

/// The number of symbols in a short code.
pub const SHORT_CODE_LEN: usize = 7;

/// The symbols a short code is drawn from: Latin letters of both cases, then digits.
pub open spec fn code_alphabet() -> Seq<char> {
    "ABCDEFGHIJKLMNOPQRSTUVWXYZabcdefghijklmnopqrstuvwxyz0123456789"@
}

/// Seven symbols of the short-code alphabet.
pub open spec fn is_short_code(s: Seq<char>) -> bool {
    &&& s.len() == SHORT_CODE_LEN
    &&& forall|i: int| 0 <= i < s.len() ==> code_alphabet().contains(#[trigger] s[i])
}

/// The identifier of a link: 128 bits, random when the link is created.
#[derive(Debug, Clone, Copy, PartialEq, Eq)]
pub struct LinkId(u128);

impl View for LinkId {
    type V = u128;

    closed spec fn view(&self) -> u128 {
        self.0
    }
}

impl LinkId {
    /// An identifier with the given value, as storage hands it back.
    pub fn new(value: u128) -> (r: LinkId)
        ensures
            r@ == value,
    {
        LinkId(value)
    }

    /// A fresh version-4 UUID drawn from `rng`.
    pub fn random(rng: &mut StdRng) -> (r: LinkId)
        ensures
            exists|b: Seq<u8>| b.len() == 16 && r@ as nat == big_endian(#[trigger] uuid_v4_bytes(b)),
    {
        let bytes = random_bytes(rng, 16);
        LinkId(uuid_v4_from(&bytes))
    }

    /// A fresh identifier from a generator that the operating system seeds;
    /// `CodeGenerationFailure` where that source fails.
    pub fn generate() -> (r: Result<LinkId, LinkError>)
        ensures
            r matches Err(e) ==> e == LinkError::CodeGenerationFailure,
            r matches Ok(id) ==> exists|b: Seq<u8>|
                b.len() == 16 && id@ as nat == big_endian(#[trigger] uuid_v4_bytes(b)),
    {
        match os_seeded() {
            Some(mut rng) => Ok(LinkId::random(&mut rng)),
            None => Err(LinkError::CodeGenerationFailure),
        }
    }

    /// Reads an identifier written as a UUID.
    pub fn from_string(raw: String) -> (r: Result<LinkId, LinkError>)
        ensures
            match uuid_parsed_of(raw@) {
                Some(v) => (r matches Ok(id) && id@ == v),
                None => r == Err::<LinkId, LinkError>(LinkError::InvalidFormat),
            },
    {
        match parse_uuid(raw.as_str()) {
            Some(v) => Ok(LinkId(v)),
            None => Err(LinkError::InvalidFormat),
        }
    }

    pub fn into_inner(self) -> (r: u128)
        ensures
            r == self@,
    {
        self.0
    }
}

/// A short code: seven symbols of the alphabet, unique across links (storage
/// enforces that, not this type).
#[derive(Debug, PartialEq, Eq)]
pub struct ShortUrl(String);

impl Clone for ShortUrl {
    fn clone(&self) -> (r: Self)
        ensures
            r@ == self@,
    {
        self.duplicate()
    }
}

impl View for ShortUrl {
    type V = Seq<char>;

    closed spec fn view(&self) -> Seq<char> {
        self.0@
    }
}

impl ShortUrl {
    #[verifier::type_invariant]
    spec fn inv(self) -> bool {
        is_short_code(self.0@)
    }

    /// The short code whose symbols are the alphabet entries at `draws`.
    pub fn from_draws(draws: &Vec<usize>) -> (r: ShortUrl)
        requires
            draws@.len() == SHORT_CODE_LEN,
            forall|i: int| 0 <= i < draws@.len() ==> #[trigger] draws@[i] < 62,
        ensures
            r@ == Seq::new(SHORT_CODE_LEN as nat, |i: int| code_alphabet()[draws@[i] as int]),
    {
        let alphabet = "ABCDEFGHIJKLMNOPQRSTUVWXYZabcdefghijklmnopqrstuvwxyz0123456789";
        proof {
            reveal_strlit("ABCDEFGHIJKLMNOPQRSTUVWXYZabcdefghijklmnopqrstuvwxyz0123456789");
        }
        let ghost target = Seq::new(SHORT_CODE_LEN as nat, |i: int| code_alphabet()[draws@[i] as int]);
        let mut code = String::new();
        let mut i: usize = 0;
        while i < SHORT_CODE_LEN
            invariant
                alphabet@ == code_alphabet(),
                alphabet@.len() == 62,
                draws@.len() == SHORT_CODE_LEN,
                forall|j: int| 0 <= j < draws@.len() ==> #[trigger] draws@[j] < 62,
                target == Seq::new(SHORT_CODE_LEN as nat, |j: int| code_alphabet()[draws@[j] as int]),
                i <= SHORT_CODE_LEN,
                code@ == target.subrange(0, i as int),
            decreases SHORT_CODE_LEN - i,
        {
            let k = draws[i];
            let symbol = alphabet.substring_char(k, k + 1);
            code.append(symbol);
            assert(code@ =~= target.subrange(0, i + 1));
            i = i + 1;
        }
        proof {
            assert(code@ =~= target);
            assert forall|j: int| 0 <= j < code@.len() implies code_alphabet().contains(
                #[trigger] code@[j],
            ) by {
                assert(code@[j] == code_alphabet()[draws@[j] as int]);
            }
        }
        ShortUrl(code)
    }

    /// A short code of seven symbols, each drawn uniformly from `rng`.
    pub fn random(rng: &mut StdRng) -> (r: ShortUrl)
        ensures
            is_short_code(r@),
            exists|draws: Seq<usize>|
                draws.len() == SHORT_CODE_LEN && (forall|i: int| 0 <= i < draws.len() ==> #[trigger] draws[i] < 62)
                    && r@ == Seq::new(SHORT_CODE_LEN as nat, |i: int| code_alphabet()[draws[i] as int]),
    {
        let mut draws: Vec<usize> = Vec::new();
        let mut i: usize = 0;
        while i < SHORT_CODE_LEN
            invariant
                i <= SHORT_CODE_LEN,
                draws@.len() == i,
                forall|j: int| 0 <= j < draws@.len() ==> #[trigger] draws@[j] < 62,
            decreases SHORT_CODE_LEN - i,
        {
            draws.push(random_below(rng, 62));
            i = i + 1;
        }
        let r = ShortUrl::from_draws(&draws);
        proof {
            use_type_invariant(&r);
        }
        r
    }

    /// A fresh short code from a generator that the operating system seeds;
    /// `CodeGenerationFailure` where that source fails.
    pub fn value() -> (r: Result<ShortUrl, LinkError>)
        ensures
            r matches Ok(s) ==> is_short_code(s@),
            r matches Err(e) ==> e == LinkError::CodeGenerationFailure,
    {
        match os_seeded() {
            Some(mut rng) => Ok(ShortUrl::random(&mut rng)),
            None => Err(LinkError::CodeGenerationFailure),
        }
    }

    /// Accepts `value`, once surrounding white space is removed, as a short
    /// code if it is seven symbols of the alphabet; keeps the trimmed text.
    pub fn new(value: String) -> (r: Result<ShortUrl, LinkError>)
        ensures
            is_short_code(trim_of(value@)) ==> (r matches Ok(s) && s@ == trim_of(value@)),
            !is_short_code(trim_of(value@)) ==> r == Err::<ShortUrl, LinkError>(
                LinkError::InvalidFormat,
            ),
    {
        let alphabet = "ABCDEFGHIJKLMNOPQRSTUVWXYZabcdefghijklmnopqrstuvwxyz0123456789";
        proof {
            reveal_strlit("ABCDEFGHIJKLMNOPQRSTUVWXYZabcdefghijklmnopqrstuvwxyz0123456789");
        }
        let s = trimmed(value.as_str());
        if s.unicode_len() != SHORT_CODE_LEN {
            return Err(LinkError::InvalidFormat);
        }
        let mut i: usize = 0;
        while i < SHORT_CODE_LEN
            invariant
                alphabet@ == code_alphabet(),
                alphabet@.len() == 62,
                s@ == trim_of(value@),
                s@.len() == SHORT_CODE_LEN,
                i <= SHORT_CODE_LEN,
                forall|j: int| 0 <= j < i ==> code_alphabet().contains(#[trigger] s@[j]),
            decreases SHORT_CODE_LEN - i,
        {
            let c = s.get_char(i);
            let mut k: usize = 0;
            let mut found = false;
            while k < 62 && !found
                invariant
                    alphabet@ == code_alphabet(),
                    alphabet@.len() == 62,
                    k <= 62,
                    c == s@[i as int],
                    found ==> code_alphabet().contains(c),
                    !found ==> forall|m: int| 0 <= m < k ==> code_alphabet()[m] != c,
                decreases 62 - k + (if found { 0int } else { 1int }),
            {
                if alphabet.get_char(k) == c {
                    found = true;
                } else {
                    k = k + 1;
                }
            }
            if !found {
                return Err(LinkError::InvalidFormat);
            }
            i = i + 1;
        }
        Ok(ShortUrl(s.to_owned()))
    }

    pub fn as_str(&self) -> (r: &str)
        ensures
            r@ == self@,
            is_short_code(r@),
    {
        proof {
            use_type_invariant(self);
        }
        self.0.as_str()
    }

    pub fn into_inner(self) -> (r: String)
        ensures
            r@ == self@,
            is_short_code(r@),
    {
        proof {
            use_type_invariant(&self);
        }
        self.0
    }

    pub(crate) fn duplicate(&self) -> (r: ShortUrl)
        ensures
            r@ == self@,
    {
        proof {
            use_type_invariant(self);
        }
        ShortUrl(self.0.clone())
    }
}

/// The long URL a link redirects to, as it was given: never blank.
#[derive(Debug, PartialEq, Eq)]
pub struct UserUrl {
    raw: String,
}

impl Clone for UserUrl {
    fn clone(&self) -> (r: Self)
        ensures
            r@ == self@,
    {
        self.duplicate()
    }
}

impl View for UserUrl {
    type V = Seq<char>;

    closed spec fn view(&self) -> Seq<char> {
        self.raw@
    }
}

impl UserUrl {
    #[verifier::type_invariant]
    spec fn inv(self) -> bool {
        !is_blank(self.raw@)
    }

    /// Accepts `raw` unless nothing is left of it once white space is removed.
    pub fn new(raw: String) -> (r: Result<UserUrl, LinkError>)
        ensures
            !is_blank(raw@) ==> (r matches Ok(u) && u@ == raw@),
            is_blank(raw@) ==> r == Err::<UserUrl, LinkError>(LinkError::EmptyUrl),
    {
        if trimmed(raw.as_str()).is_empty() {
            Err(LinkError::EmptyUrl)
        } else {
            Ok(UserUrl { raw })
        }
    }

    /// The long URL of a target that passed the URL check.
    pub fn from_url(url: &Url) -> (r: UserUrl)
        ensures
            r@ == url@,
    {
        let s = url.as_str();
        UserUrl { raw: s.to_owned() }
    }

    pub fn value(&self) -> (r: &String)
        ensures
            r@ == self@,
            !is_blank(r@),
    {
        proof {
            use_type_invariant(self);
        }
        &self.raw
    }

    pub fn into_inner(self) -> (r: String)
        ensures
            r@ == self@,
            !is_blank(r@),
    {
        proof {
            use_type_invariant(&self);
        }
        self.raw
    }

    pub fn as_str(&self) -> (r: &str)
        ensures
            r@ == self@,
            !is_blank(r@),
    {
        proof {
            use_type_invariant(self);
        }
        self.raw.as_str()
    }

    pub(crate) fn duplicate(&self) -> (r: UserUrl)
        ensures
            r@ == self@,
            !is_blank(r@),
    {
        proof {
            use_type_invariant(self);
        }
        UserUrl { raw: self.raw.clone() }
    }
}

/// When a link was created, in whole seconds since the Unix epoch.
#[derive(Debug, Clone, Copy, PartialEq, Eq)]
pub struct CreatedAt(i64);

impl View for CreatedAt {
    type V = i64;

    closed spec fn view(&self) -> i64 {
        self.0
    }
}

impl CreatedAt {
    /// The current time.
    pub fn value() -> (r: CreatedAt) {
        CreatedAt(now_unix_seconds())
    }

    /// A creation time as storage hands it back.
    pub fn new(seconds: i64) -> (r: CreatedAt)
        ensures
            r@ == seconds,
    {
        CreatedAt(seconds)
    }

    pub fn into_inner(self) -> (r: i64)
        ensures
            r == self@,
    {
        self.0
    }
}

/// What a link holds, as plain values.
pub struct LinkView {
    pub id: u128,
    pub delete_hash: Seq<char>,
    pub short_code: Seq<char>,
    pub long_url: Seq<char>,
    pub created_at: i64,
}

/// A short link. Each of its five parts is valid by construction, and no part
/// changes once it exists.
#[derive(Debug, Clone, PartialEq, Eq)]
pub struct Link {
    id: LinkId,
    code: LinkKey,
    short_url: ShortUrl,
    user_url: UserUrl,
    created_at: CreatedAt,
}

impl View for Link {
    type V = LinkView;

    closed spec fn view(&self) -> LinkView {
        LinkView {
            id: self.id@,
            delete_hash: self.code@,
            short_code: self.short_url@,
            long_url: self.user_url@,
            created_at: self.created_at@,
        }
    }
}

impl Link {
    /// A link from parts that are each valid already.
    pub fn from_parts(
        id: LinkId,
        code: LinkKey,
        short_url: ShortUrl,
        user_url: UserUrl,
        created_at: CreatedAt,
    ) -> (r: Link)
        ensures
            r@ == (LinkView {
                id: id@,
                delete_hash: code@,
                short_code: short_url@,
                long_url: user_url@,
                created_at: created_at@,
            }),
    {
        Link { id, code, short_url, user_url, created_at }
    }

    /// A link from plain values, as storage hands them back. Each part is
    /// checked in turn, and the first that fails decides the error.
    pub fn new(id: u128, code: String, short_url: String, user_url: String, created_at: i64) -> (r:
        Result<Link, LinkError>)
        ensures
            is_blank(code@) ==> r == Err::<Link, LinkError>(LinkError::InvalidFormat),
            !is_blank(code@) && !is_short_code(trim_of(short_url@)) ==> r == Err::<Link, LinkError>(
                LinkError::InvalidFormat,
            ),
            !is_blank(code@) && is_short_code(trim_of(short_url@)) && is_blank(user_url@) ==> r == Err::<
                Link,
                LinkError,
            >(LinkError::EmptyUrl),
            !is_blank(code@) && is_short_code(trim_of(short_url@)) && !is_blank(user_url@) ==> (r matches Ok(
                l,
            ) && l@ == (LinkView {
                id,
                delete_hash: trim_of(code@),
                short_code: trim_of(short_url@),
                long_url: user_url@,
                created_at,
            })),
    {
        let code = match LinkKey::new(code) {
            Ok(k) => k,
            Err(e) => return Err(e),
        };
        let short_url = match ShortUrl::new(short_url) {
            Ok(s) => s,
            Err(e) => return Err(e),
        };
        let user_url = match UserUrl::new(user_url) {
            Ok(u) => u,
            Err(e) => return Err(e),
        };
        Ok(Link { id: LinkId(id), code, short_url, user_url, created_at: CreatedAt(created_at) })
    }

    pub fn id(&self) -> (r: &LinkId)
        ensures
            r@ == self@.id,
    {
        &self.id
    }

    pub fn delete_hash_code(&self) -> (r: &LinkKey)
        ensures
            r@ == self@.delete_hash,
    {
        &self.code
    }

    pub fn short_url(&self) -> (r: &ShortUrl)
        ensures
            r@ == self@.short_code,
    {
        &self.short_url
    }

    pub fn user_url(&self) -> (r: &UserUrl)
        ensures
            r@ == self@.long_url,
    {
        &self.user_url
    }

    pub fn created_at(self) -> (r: CreatedAt)
        ensures
            r@ == self@.created_at,
    {
        self.created_at
    }
}

} // verus!
