//! IPv4 and IPv6 networks in CIDR notation, through the `ipnetwork` crate.
//! Addresses are held as numbers: 32 bits for IPv4, 128 bits for IPv6.
use vstd::prelude::*;

use crate::text::{concat, decimal_text, digit_char};
use ipnetwork::{Ipv4Network, Ipv6Network};
use vstd::arithmetic::power2::{lemma2_to64, lemma_pow2_adds, lemma_pow2_pos, pow2};

verus! {

/// What `s.parse::<ipnetwork::Ipv4Network>()` gives: the network's address
/// and prefix length, or the text of the error.
pub uninterp spec fn ipv4_network_from_str(s: Seq<char>) -> Result<(u32, u8), Seq<char>>;

/// What `s.parse::<ipnetwork::Ipv6Network>()` gives: the network's address
/// and prefix length, or the text of the error.
pub uninterp spec fn ipv6_network_from_str(s: Seq<char>) -> Result<(u128, u8), Seq<char>>;

/// Calls `str::parse::<ipnetwork::Ipv4Network>`. Claimed: the result is the
/// named one; a prefix read is at most 32 (`Ipv4Network::new` refuses more).
#[verifier::external_body]
pub(crate) fn parse_ipv4_network(s: &str) -> (res: Result<(u32, u8), String>)
    ensures
        match res {
            Ok(v) => ipv4_network_from_str(s@) == Ok::<(u32, u8), Seq<char>>(v) && v.1 <= 32,
            Err(e) => ipv4_network_from_str(s@) == Err::<(u32, u8), Seq<char>>(e@),
        },
{
    match s.parse::<Ipv4Network>() {
        Ok(n) => Ok((u32::from(n.ip()), n.prefix())),
        Err(e) => Err(e.to_string()),
    }
}

/// Calls `str::parse::<ipnetwork::Ipv6Network>`. Claimed: the result is the
/// named one; a prefix read is at most 128 (`Ipv6Network::new` refuses more).
#[verifier::external_body]
pub(crate) fn parse_ipv6_network(s: &str) -> (res: Result<(u128, u8), String>)
    ensures
        match res {
            Ok(v) => ipv6_network_from_str(s@) == Ok::<(u128, u8), Seq<char>>(v) && v.1 <= 128,
            Err(e) => ipv6_network_from_str(s@) == Err::<(u128, u8), Seq<char>>(e@),
        },
{
    match s.parse::<Ipv6Network>() {
        Ok(n) => Ok((u128::from(n.ip()), n.prefix())),
        Err(e) => Err(e.to_string()),
    }
}

/// The number of addresses in an IPv4 network with the given prefix length.
pub open spec fn ipv4_block_size(prefix: u8) -> nat {
    pow2((32 - prefix) as nat)
}

/// The lowest address of the IPv4 network of `addr` with the given prefix
/// length: `addr` with its host bits cleared.
pub open spec fn ipv4_network_base(addr: u32, prefix: u8) -> nat {
    (addr as nat / ipv4_block_size(prefix)) * ipv4_block_size(prefix)
}

/// The `n`-th address of the IPv4 network of `addr` and `prefix`, if the
/// network has that many.
pub open spec fn ipv4_nth(addr: u32, prefix: u8, n: u32) -> Option<u32> {
    if n < ipv4_block_size(prefix) {
        Some((ipv4_network_base(addr, prefix) + n) as u32)
    } else {
        None
    }
}

/// The whole network lies below 2^32: its base plus its size does not
/// exceed 2^32.
proof fn lemma_ipv4_network_fits(addr: u32, prefix: u8)
    requires
        prefix <= 32,
    ensures
        ipv4_network_base(addr, prefix) + ipv4_block_size(prefix) <= 0x1_0000_0000,
{
    let size = ipv4_block_size(prefix);
    let count = pow2(prefix as nat);
    lemma_pow2_adds(prefix as nat, (32 - prefix) as nat);
    lemma2_to64();
    lemma_pow2_pos((32 - prefix) as nat);
    lemma_pow2_pos(prefix as nat);
    assert(count * size == 0x1_0000_0000);
    let a = addr as int;
    let q = a / (size as int);
    assert(q * size <= a && a < count * size) by (nonlinear_arith)
        requires
            size > 0,
            q == a / (size as int),
            a < 0x1_0000_0000,
            count * size == 0x1_0000_0000,
    ;
    assert(q * size + size <= count * size) by (nonlinear_arith)
        requires
            size > 0,
            q * size <= a,
            a < count * size,
    ;
}

/// Distinct offsets within a network give distinct addresses.
pub proof fn lemma_ipv4_nth_distinct(addr: u32, prefix: u8, i: u32, j: u32)
    requires
        prefix <= 32,
        i < ipv4_block_size(prefix),
        j < ipv4_block_size(prefix),
        i != j,
    ensures
        ipv4_nth(addr, prefix, i) is Some,
        ipv4_nth(addr, prefix, j) is Some,
        ipv4_nth(addr, prefix, i)->Some_0 != ipv4_nth(addr, prefix, j)->Some_0,
{
    lemma_ipv4_network_fits(addr, prefix);
}

/// Calls `ipnetwork::Ipv4Network::nth` on the network of `addr` and
/// `prefix`. Claimed, as its source shows: the network's base address plus
/// `n` where `n` is below the network's size, else `None`. A prefix of 0 is
/// left out: computing that network's size overflows.
#[verifier::external_body]
pub(crate) fn ipv4_network_nth(addr: u32, prefix: u8, n: u32) -> (res: Option<u32>)
    requires
        1 <= prefix <= 32,
    ensures
        res == ipv4_nth(addr, prefix, n),
{
    match Ipv4Network::new(addr.into(), prefix) {
        Ok(net) => net.nth(n).map(u32::from),
        Err(_) => None,
    }
}

/// The lowest address of the IPv6 network of `addr` with the given prefix
/// length: `addr` with its host bits cleared.
pub open spec fn ipv6_network_base(addr: u128, prefix: u8) -> nat {
    (addr as nat / pow2((128 - prefix) as nat)) * pow2((128 - prefix) as nat)
}

/// Calls `ipnetwork::Ipv6Network::iter` on the network of `addr` and
/// `prefix` and takes the first address. Claimed, as its source shows: the
/// iterator starts at the network's lowest address.
#[verifier::external_body]
pub(crate) fn ipv6_network_first(addr: u128, prefix: u8) -> (res: Option<u128>)
    requires
        prefix <= 128,
    ensures
        res == Some(ipv6_network_base(addr, prefix) as u128),
{
    match Ipv6Network::new(addr.into(), prefix) {
        Ok(net) => net.iter().next().map(u128::from),
        Err(_) => None,
    }
}

/// The dotted decimal text of an IPv4 address.
pub open spec fn ipv4_text(addr: u32) -> Seq<char> {
    decimal_text(addr as nat / 16777216) + seq!['.'] + decimal_text((addr as nat / 65536) % 256)
        + seq!['.'] + decimal_text((addr as nat / 256) % 256) + seq!['.'] + decimal_text(
        addr as nat % 256,
    )
}

/// The text of a decimal digit.
fn digit_text(d: u8) -> (res: &'static str)
    requires
        d < 10,
    ensures
        res@ == seq![digit_char(d as nat)],
{
    match d {
        0 => {
            proof {
                reveal_strlit("0");
            }
            "0"
        },
        1 => {
            proof {
                reveal_strlit("1");
            }
            "1"
        },
        2 => {
            proof {
                reveal_strlit("2");
            }
            "2"
        },
        3 => {
            proof {
                reveal_strlit("3");
            }
            "3"
        },
        4 => {
            proof {
                reveal_strlit("4");
            }
            "4"
        },
        5 => {
            proof {
                reveal_strlit("5");
            }
            "5"
        },
        6 => {
            proof {
                reveal_strlit("6");
            }
            "6"
        },
        7 => {
            proof {
                reveal_strlit("7");
            }
            "7"
        },
        8 => {
            proof {
                reveal_strlit("8");
            }
            "8"
        },
        _ => {
            proof {
                reveal_strlit("9");
            }
            "9"
        },
    }
}

/// The decimal text of a byte, without leading zeros.
fn byte_text(n: u8) -> (res: String)
    ensures
        res@ == decimal_text(n as nat),
{
    proof {
        reveal_with_fuel(decimal_text, 3);
    }
    if n < 10 {
        digit_text(n).to_owned()
    } else if n < 100 {
        let res = concat(digit_text(n / 10), digit_text(n % 10));
        assert(decimal_text((n / 10) as nat) == seq![digit_char((n / 10) as nat)]);
        assert(res@ =~= decimal_text(n as nat));
        res
    } else {
        let mut res = concat(digit_text(n / 100), digit_text((n / 10) % 10));
        res.append(digit_text(n % 10));
        assert(decimal_text((n / 100) as nat) == seq![digit_char((n / 100) as nat)]);
        assert(((n / 10) as nat) / 10 == (n / 100) as nat);
        assert(decimal_text((n / 10) as nat) =~= seq![digit_char((n / 100) as nat), digit_char(((n / 10) % 10) as nat)]);
        assert(res@ =~= decimal_text(n as nat));
        res
    }
}

/// The dotted decimal text of an IPv4 address, as `Ipv4Addr` writes it.
pub fn ipv4_addr_text(addr: u32) -> (res: String)
    ensures
        res@ == ipv4_text(addr),
{
    let a: u8 = (addr / 16777216) as u8;
    let b: u8 = ((addr / 65536) % 256) as u8;
    let c: u8 = ((addr / 256) % 256) as u8;
    let d: u8 = (addr % 256) as u8;
    let mut res = byte_text(a);
    res.append(".");
    let tb = byte_text(b);
    res.append(tb.as_str());
    res.append(".");
    let tc = byte_text(c);
    res.append(tc.as_str());
    res.append(".");
    let td = byte_text(d);
    res.append(td.as_str());
    proof {
        reveal_strlit(".");
    }
    assert(res@ =~= ipv4_text(addr));
    res
}

/// The CIDR text of an IPv4 network: its address, a slash and its prefix
/// length.
pub open spec fn ipv4_network_text(addr: u32, prefix: u8) -> Seq<char> {
    ipv4_text(addr) + seq!['/'] + decimal_text(prefix as nat)
}

/// Calls `ipnetwork::Ipv4Network::new` and writes the network with its
/// `Display`. Claimed: an error whose text is `invalid prefix` where the
/// prefix exceeds 32, else the dotted decimal address, a slash and the
/// prefix length (the `Display` of `Ipv4Addr` and of `u8`).
#[verifier::external_body]
pub(crate) fn ipv4_network_to_string(addr: u32, prefix: u8) -> (res: Result<String, String>)
    ensures
        match res {
            Ok(s) => prefix <= 32 && s@ == ipv4_network_text(addr, prefix),
            Err(e) => prefix > 32 && e@ == "invalid prefix"@,
        },
{
    match Ipv4Network::new(addr.into(), prefix) {
        Ok(net) => Ok(net.to_string()),
        Err(e) => Err(e.to_string()),
    }
}

/// The IPv4 address that a text names: the text of a network without a
/// slash, whose prefix length is then 32. The `ipnetwork` parser reads such
/// a text with the parser of `Ipv4Addr`, so this is the address that
/// `Ipv4Addr` reads.
pub open spec fn ipv4_addr_from_str(s: Seq<char>) -> Option<u32> {
    if s.contains('/') {
        None
    } else {
        match ipv4_network_from_str(s) {
            Ok(v) => Some(v.0),
            Err(_) => None,
        }
    }
}

/// Whether `s` holds the character `c`.
pub fn contains_char(s: &str, c: char) -> (res: bool)
    ensures
        res == s@.contains(c),
{
    let n = s.unicode_len();
    let mut i: usize = 0;
    while i < n
        invariant
            n == s@.len(),
            i <= n,
            forall|j: int| 0 <= j < i ==> s@[j] != c,
        decreases n - i,
    {
        if s.get_char(i) == c {
            return true;
        }
        i = i + 1;
    }
    false
}

/// Reads an IPv4 address in dotted decimal notation.
pub fn parse_ipv4_addr(s: &str) -> (res: Option<u32>)
    ensures
        res == ipv4_addr_from_str(s@),
{
    if contains_char(s, '/') {
        return None;
    }
    match parse_ipv4_network(s) {
        Ok(v) => Some(v.0),
        Err(_) => None,
    }
}

} // verus!
