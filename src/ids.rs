use vstd::prelude::*;

verus! {

/// The bytes of a version-4 UUID made from `b`: the high half of byte 6 holds
/// the version (4) and the two high bits of byte 8 the RFC 4122 variant (10).
pub open spec fn uuid_v4_bytes(b: Seq<u8>) -> Seq<u8> {
    b.update(6, (b[6] & 0x0f) | 0x40).update(8, (b[8] & 0x3f) | 0x80)
}

/// The number that `b` spells as a big-endian integer.
pub open spec fn big_endian(b: Seq<u8>) -> nat
    decreases b.len(),
{
    if b.len() == 0 {
        0
    } else {
        big_endian(b.drop_last()) * 256 + b.last() as nat
    }
}

/// Relies on `uuid::Builder::from_random_bytes` and `Uuid::as_u128`: the first
/// sets the version and variant bits of the sixteen bytes, the second reads
/// them as a big-endian integer.
#[verifier::external_body]
pub(crate) fn uuid_v4_from(random: &Vec<u8>) -> (r: u128)
    requires
        random@.len() == 16,
    ensures
        r as nat == big_endian(uuid_v4_bytes(random@)),
{
    let mut bytes = [0u8; 16];
    bytes.copy_from_slice(random);
    uuid::Builder::from_random_bytes(bytes).into_uuid().as_u128()
}

/// The value of the UUID that `uuid::Uuid::parse_str` reads from `s`, or
/// `None` where it refuses `s`.
pub uninterp spec fn uuid_parsed_of(s: Seq<char>) -> Option<u128>;

/// Relies on `uuid::Uuid::parse_str` and `Uuid::as_u128`: the 128-bit value of
/// a UUID written in one of the crate's accepted text forms.
#[verifier::external_body]
pub(crate) fn parse_uuid(s: &str) -> (r: Option<u128>)
    ensures
        r == uuid_parsed_of(s@),
{
    match uuid::Uuid::parse_str(s) {
        Ok(u) => Some(u.as_u128()),
        Err(_) => None,
    }
}

/// Relies on `DateTime::<Utc>::from(SystemTime::now())` and
/// `DateTime::timestamp`: the current time in whole seconds since the Unix
/// epoch, negative before it. Unlike `Utc::now`, this conversion does not
/// panic on a clock set before 1970; it unwraps only for a time outside
/// chrono's range of about 262,000 years, which the system clock cannot hold.
/// Nothing is known of its value.
#[verifier::external_body]
pub(crate) fn now_unix_seconds() -> (r: i64) {
    chrono::DateTime::<chrono::Utc>::from(std::time::SystemTime::now()).timestamp()
}

} // verus!
