use vstd::prelude::*;

verus! {

/// A resolved network address: four octets, or eight 16-bit segments.
#[derive(Debug, Clone, Copy, PartialEq, Eq)]
pub enum IpAddress {
    V4([u8; 4]),
    V6([u16; 8]),
}

/// 10.0.0.0/8, 172.16.0.0/12 and 192.168.0.0/16 (private use),
/// 127.0.0.0/8 (loopback) and 169.254.0.0/16 (link-local).
pub open spec fn is_internal_v4(o: Seq<u8>) -> bool {
    ||| o[0] == 10
    ||| (o[0] == 172 && 16 <= o[1] && o[1] <= 31)
    ||| (o[0] == 192 && o[1] == 168)
    ||| o[0] == 127
    ||| (o[0] == 169 && o[1] == 254)
}

/// The four octets that the last two segments of an IPv6 address spell.
pub open spec fn embedded_v4(s: Seq<u16>) -> Seq<u8> {
    seq![(s[6] / 256) as u8, (s[6] % 256) as u8, (s[7] / 256) as u8, (s[7] % 256) as u8]
}

/// ::1 (loopback), fc00::/7 (unique local), fe80::/10 (link-local), and an
/// IPv4-mapped address ::ffff:a.b.c.d whose IPv4 address is internal.
pub open spec fn is_internal_v6(s: Seq<u16>) -> bool {
    ||| (forall|i: int| 0 <= i < 7 ==> s[i] == 0) && s[7] == 1
    ||| (forall|i: int| 0 <= i < 5 ==> s[i] == 0) && s[5] == 0xffff && is_internal_v4(
        embedded_v4(s),
    )
    ||| (0xfc00 <= s[0] && s[0] <= 0xfdff)
    ||| (0xfe80 <= s[0] && s[0] <= 0xfebf)
}

impl IpAddress {
    /// The address is only reachable from inside the operator's network.
    pub open spec fn is_internal(self) -> bool {
        match self {
            IpAddress::V4(o) => is_internal_v4(o@),
            IpAddress::V6(s) => is_internal_v6(s@),
        }
    }
}

/// True when any of `addrs` is internal.
pub open spec fn any_internal(addrs: Seq<IpAddress>) -> bool {
    exists|i: int| 0 <= i < addrs.len() && #[trigger] addrs[i].is_internal()
}

fn is_internal_octets(a: u8, b: u8) -> (r: bool)
    ensures
        r == is_internal_v4(seq![a, b, 0u8, 0u8]),
{
    a == 10 || (a == 172 && 16 <= b && b <= 31) || (a == 192 && b == 168) || a == 127 || (a == 169
        && b == 254)
}

/// Tells whether `ip` is a private-use, loopback, link-local or unique-local address.
pub fn is_private_ip(ip: &IpAddress) -> (r: bool)
    ensures
        r == ip.is_internal(),
{
    match ip {
        IpAddress::V4(o) => is_internal_octets(o[0], o[1]),
        IpAddress::V6(s) => {
            let mut leading_zero = true;
            let mut i: usize = 0;
            while i < 5
                invariant
                    0 <= i <= 5,
                    leading_zero == (forall|j: int| 0 <= j < i ==> s@[j] == 0),
                decreases 5 - i,
            {
                if s[i] != 0 {
                    leading_zero = false;
                }
                i = i + 1;
            }
            let mapped = leading_zero && s[5] == 0xffff && is_internal_octets(
                (s[6] / 256) as u8,
                (s[6] % 256) as u8,
            );
            proof {
                let e = embedded_v4(s@);
                assert(e[0] == (s[6] / 256) as u8 && e[1] == (s[6] % 256) as u8);
            }
            let loopback = leading_zero && s[5] == 0 && s[6] == 0 && s[7] == 1;
            proof {
                assert(loopback == ((forall|j: int| 0 <= j < 7 ==> s@[j] == 0) && s@[7] == 1)) by {
                    if (forall|j: int| 0 <= j < 7 ==> s@[j] == 0) {
                        assert(s@[5] == 0 && s@[6] == 0);
                    }
                }
            }
            loopback || mapped || (0xfc00 <= s[0] && s[0] <= 0xfdff) || (0xfe80 <= s[0] && s[0]
                <= 0xfebf)
        },
    }
}

/// Tells whether any of `addrs` is private-use, loopback, link-local or unique-local.
pub fn any_private_ip(addrs: &Vec<IpAddress>) -> (r: bool)
    ensures
        r == any_internal(addrs@),
{
    let mut i: usize = 0;
    while i < addrs.len()
        invariant
            0 <= i <= addrs@.len(),
            forall|j: int| 0 <= j < i ==> !(#[trigger] addrs@[j]).is_internal(),
        decreases addrs@.len() - i,
    {
        if is_private_ip(&addrs[i]) {
            return true;
        }
        i = i + 1;
    }
    false
}

} // verus!
