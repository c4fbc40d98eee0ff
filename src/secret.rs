use vstd::prelude::*;
use vstd::string::StringSliceAdditionalSpecFns;

use crate::digest::{
    argon2id, argon2id_of, hex_decode, hex_decoded, hex_encode, hex_lower, lemma_hex_lower_len,
    lemma_hex_round_trip, sha256, sha256_of,
};
use crate::errors::LinkError;
use crate::random::{os_seeded, random_bytes};
use crate::text::{is_blank, trim_of, trimmed};

verus! {

/// Bytes of fresh salt in each hash.
pub const SALT_LEN: usize = 16;

/// The longest secret, in UTF-8 bytes, that Argon2 accepts.
pub const MAX_SECRET_BYTES: usize = 0xffff_ffff;

/// Characters in the scheme tag that opens every encoded hash.
pub const TAG_LEN: usize = 31;

/// Characters in a server-made delete secret.
pub const GENERATED_SECRET_LEN: usize = 8;

/// The scheme tag: the algorithm and the parameters the hash was made with.
pub open spec fn hash_tag() -> Seq<char> {
    "$argon2id$v=19$m=19456,t=2,p=1$"@
}

/// The text stored for a secret: the tag, the salt in hexadecimal, `$`, and
/// the Argon2id digest in hexadecimal. This is the library's own format: it
/// resembles a PHC hash string, but those encode salt and digest in base64,
/// so neither reads the other.
pub open spec fn encoded_hash(salt: Seq<u8>, digest: Seq<u8>) -> Seq<char> {
    hash_tag() + hex_lower(salt) + seq!['$'] + hex_lower(digest)
}

/// The salt and digest that a stored text holds, or `None` where it is not
/// an encoded hash.
pub open spec fn decoded_hash(s: Seq<char>) -> Option<(Seq<u8>, Seq<u8>)> {
    if s.len() >= TAG_LEN + 33 && s.subrange(0, TAG_LEN as int) == hash_tag() && s[TAG_LEN + 32]
        == '$' {
        match (
            hex_decoded(s.subrange(TAG_LEN as int, TAG_LEN + 32)),
            hex_decoded(s.subrange(TAG_LEN + 33, s.len() as int)),
        ) {
            (Some(salt), Some(digest)) => Some((salt, digest)),
            _ => None,
        }
    } else {
        None
    }
}

/// `secret` is the one that `hash` was made from: hashing it again under the
/// stored salt gives the stored digest.
pub open spec fn verifies(secret: Seq<char>, hash: Seq<char>) -> bool {
    match decoded_hash(hash) {
        Some((salt, digest)) => argon2id_of(secret, salt) == digest,
        None => false,
    }
}

proof fn lemma_hex_decoded_len(s: Seq<char>)
    ensures
        hex_decoded(s) matches Some(v) ==> 2 * v.len() == s.len(),
    decreases s.len(),
{
    if s.len() >= 2 {
        lemma_hex_decoded_len(s.subrange(2, s.len() as int));
    }
}

/// Reading back what `encoded_hash` wrote gives the salt and digest back.
pub proof fn lemma_decode_encoded(salt: Seq<u8>, digest: Seq<u8>)
    requires
        salt.len() == SALT_LEN,
    ensures
        decoded_hash(encoded_hash(salt, digest)) == Some((salt, digest)),
{
    reveal_strlit("$argon2id$v=19$m=19456,t=2,p=1$");
    let s = encoded_hash(salt, digest);
    lemma_hex_lower_len(salt);
    lemma_hex_lower_len(digest);
    assert(s.subrange(0, TAG_LEN as int) =~= hash_tag());
    assert(s.subrange(TAG_LEN as int, TAG_LEN + 32) =~= hex_lower(salt));
    assert(s.subrange(TAG_LEN + 33, s.len() as int) =~= hex_lower(digest));
    lemma_hex_round_trip(salt);
    lemma_hex_round_trip(digest);
}

/// A hash verifies the secret it was made from, whatever the salt.
pub proof fn lemma_hash_verifies_its_secret(secret: Seq<char>, salt: Seq<u8>)
    requires
        salt.len() == SALT_LEN,
    ensures
        verifies(secret, encoded_hash(salt, argon2id_of(secret, salt))),
{
    lemma_decode_encoded(salt, argon2id_of(secret, salt));
}

/// Two hashes of one secret under different salts are different texts.
pub proof fn lemma_distinct_salts_distinct_hashes(secret: Seq<char>, s1: Seq<u8>, s2: Seq<u8>)
    requires
        s1.len() == SALT_LEN,
        s2.len() == SALT_LEN,
        s1 != s2,
    ensures
        encoded_hash(s1, argon2id_of(secret, s1)) != encoded_hash(s2, argon2id_of(secret, s2)),
{
    lemma_decode_encoded(s1, argon2id_of(secret, s1));
    lemma_decode_encoded(s2, argon2id_of(secret, s2));
}

/// Compares two byte strings in time that depends on their lengths alone.
pub fn same_bytes(a: &Vec<u8>, b: &Vec<u8>) -> (r: bool)
    ensures
        r == (a@ == b@),
{
    if a.len() != b.len() {
        return false;
    }
    let mut diff: u8 = 0;
    let mut i: usize = 0;
    while i < a.len()
        invariant
            a@.len() == b@.len(),
            i <= a@.len(),
            (diff == 0) == (forall|j: int| 0 <= j < i ==> a@[j] == b@[j]),
        decreases a@.len() - i,
    {
        let (x, y) = (a[i], b[i]);
        let d = diff | (x ^ y);
        assert((d == 0) == (diff == 0 && x == y)) by (bit_vector)
            requires
                d == diff | (x ^ y),
        ;
        diff = d;
        i = i + 1;
    }
    if diff == 0 {
        assert(a@ =~= b@);
    }
    diff == 0
}

/// The salt and digest that `hash` holds, or `None` where it is not an encoded hash.
fn decode_hash(hash: &str) -> (r: Option<(Vec<u8>, Vec<u8>)>)
    ensures
        match decoded_hash(hash@) {
            Some((salt, digest)) => (r matches Some(v) && v.0@ == salt && v.1@ == digest),
            None => r is None,
        },
{
    let tag = "$argon2id$v=19$m=19456,t=2,p=1$";
    proof {
        reveal_strlit("$argon2id$v=19$m=19456,t=2,p=1$");
    }
    let n = hash.unicode_len();
    if n < TAG_LEN + 33 {
        return None;
    }
    let head = hash.substring_char(0, TAG_LEN);
    if !(head.to_owned() == tag.to_owned()) {
        return None;
    }
    if hash.get_char(TAG_LEN + 32) != '$' {
        return None;
    }
    let salt = match hex_decode(hash.substring_char(TAG_LEN, TAG_LEN + 32)) {
        Some(v) => v,
        None => return None,
    };
    let digest = match hex_decode(hash.substring_char(TAG_LEN + 33, n)) {
        Some(v) => v,
        None => return None,
    };
    Some((salt, digest))
}

/// The stored form of a delete secret: a salted Argon2id hash. The secret
/// itself is never kept.
#[derive(Debug, PartialEq, Eq)]
pub struct LinkKey(String);

impl Clone for LinkKey {
    fn clone(&self) -> (r: Self)
        ensures
            r@ == self@,
    {
        self.duplicate()
    }
}

impl View for LinkKey {
    type V = Seq<char>;

    closed spec fn view(&self) -> Seq<char> {
        self.0@
    }
}

impl LinkKey {
    #[verifier::type_invariant]
    spec fn inv(self) -> bool {
        self.0@.len() > 0
    }

    /// A stored hash as storage hands it back, without surrounding white
    /// space; only blank text is refused, since a malformed hash simply
    /// verifies no secret.
    pub fn new(value: String) -> (r: Result<LinkKey, LinkError>)
        ensures
            !is_blank(value@) ==> (r matches Ok(k) && k@ == trim_of(value@)),
            is_blank(value@) ==> r == Err::<LinkKey, LinkError>(LinkError::InvalidFormat),
    {
        let t = trimmed(value.as_str());
        if t.is_empty() {
            Err(LinkError::InvalidFormat)
        } else {
            Ok(LinkKey(t.to_owned()))
        }
    }

    /// The hash of `secret` under the given salt.
    pub fn hash_with_salt(secret: &str, salt: &Vec<u8>) -> (r: Result<LinkKey, LinkError>)
        requires
            salt@.len() == SALT_LEN,
            secret.spec_bytes().len() <= MAX_SECRET_BYTES,
        ensures
            is_blank(secret@) ==> r == Err::<LinkKey, LinkError>(LinkError::EmptySecret),
            !is_blank(secret@) ==> (r matches Ok(k) && k@ == encoded_hash(
                salt@,
                argon2id_of(secret@, salt@),
            )),
    {
        if trimmed(secret).is_empty() {
            return Err(LinkError::EmptySecret);
        }
        let digest = argon2id(secret, salt.as_slice());
        let mut out = "$argon2id$v=19$m=19456,t=2,p=1$".to_owned();
        let separator = "$";
        proof {
            reveal_strlit("$argon2id$v=19$m=19456,t=2,p=1$");
            reveal_strlit("$");
        }
        out.append(hex_encode(salt.as_slice()).as_str());
        out.append(separator);
        out.append(hex_encode(digest.as_slice()).as_str());
        assert(out@ =~= encoded_hash(salt@, digest@));
        assert(out@.len() > 0);
        Ok(LinkKey(out))
    }

    /// The hash of `secret` under a fresh random salt. `EmptySecret` where
    /// the secret is blank; `CodeGenerationFailure` where no random source is
    /// available.
    pub fn generate(secret: &str) -> (r: Result<LinkKey, LinkError>)
        requires
            secret.spec_bytes().len() <= MAX_SECRET_BYTES,
        ensures
            is_blank(secret@) ==> r == Err::<LinkKey, LinkError>(LinkError::EmptySecret),
            !is_blank(secret@) ==> (r matches Err(e) ==> e == LinkError::CodeGenerationFailure),
            r matches Ok(k) ==> exists|salt: Seq<u8>|
                salt.len() == SALT_LEN && k@ == #[trigger] encoded_hash(
                    salt,
                    argon2id_of(secret@, salt),
                ),
            r matches Ok(k) ==> verifies(secret@, k@),
    {
        if trimmed(secret).is_empty() {
            return Err(LinkError::EmptySecret);
        }
        let mut rng = match os_seeded() {
            Some(rng) => rng,
            None => return Err(LinkError::CodeGenerationFailure),
        };
        let salt = random_bytes(&mut rng, SALT_LEN);
        proof {
            lemma_hash_verifies_its_secret(secret@, salt@);
        }
        LinkKey::hash_with_salt(secret, &salt)
    }

    /// True exactly when `secret` is the one this hash was made from. A
    /// malformed hash verifies nothing, and the digests are compared in
    /// constant time.
    pub fn verify(&self, secret: &str) -> (r: bool)
        ensures
            r == (secret.spec_bytes().len() <= MAX_SECRET_BYTES && verifies(secret@, self@)),
    {
        let (salt, digest) = match decode_hash(self.0.as_str()) {
            Some(parts) => parts,
            None => return false,
        };
        if secret.as_bytes().len() > MAX_SECRET_BYTES {
            return false;
        }
        proof {
            lemma_hex_decoded_len(self@.subrange(TAG_LEN as int, TAG_LEN + 32));
        }
        let fresh = argon2id(secret, salt.as_slice());
        same_bytes(&fresh, &digest)
    }

    pub fn value(&self) -> (r: &str)
        ensures
            r@ == self@,
    {
        self.0.as_str()
    }

    pub fn into_inner(self) -> (r: String)
        ensures
            r@ == self@,
    {
        self.0
    }

    pub(crate) fn duplicate(&self) -> (r: LinkKey)
        ensures
            r@ == self@,
    {
        proof {
            use_type_invariant(self);
        }
        LinkKey(self.0.clone())
    }
}

/// A delete secret made by the server from `seed`: the first eight
/// hexadecimal digits of its SHA-256 digest.
pub fn secret_from_seed(seed: &Vec<u8>) -> (r: String)
    ensures
        r@ == hex_lower(sha256_of(seed@)).subrange(0, GENERATED_SECRET_LEN as int),
{
    let digest = sha256(seed.as_slice());
    let full = hex_encode(digest.as_slice());
    proof {
        lemma_hex_lower_len(digest@);
    }
    full.as_str().substring_char(0, GENERATED_SECRET_LEN).to_owned()
}

/// A delete secret made by the server from sixteen random bytes;
/// `CodeGenerationFailure` where no random source is available.
pub fn generate_secret() -> (r: Result<String, LinkError>)
    ensures
        r matches Err(e) ==> e == LinkError::CodeGenerationFailure,
        r matches Ok(s) ==> exists|seed: Seq<u8>|
            seed.len() == 16 && s@ == hex_lower(#[trigger] sha256_of(seed)).subrange(
                0,
                GENERATED_SECRET_LEN as int,
            ),
{
    match os_seeded() {
        Some(mut rng) => {
            let seed = random_bytes(&mut rng, 16);
            Ok(secret_from_seed(&seed))
        },
        None => Err(LinkError::CodeGenerationFailure),
    }
}

} // verus!
