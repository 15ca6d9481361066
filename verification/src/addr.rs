//! Addresses of tunnel endpoints.

use crate::ifconfig::parse_cidr;
use crate::text::{cut, decimal, digit};
use vstd::prelude::*;
use vstd::string::StrSliceExecFns;

verus! {

/// An IP address, as the number that its octets form in network order.
#[derive(Debug, Clone, Copy, PartialEq, Eq, Structural)]
pub enum IpAddr {
    /// An IPv4 address.
    V4(u32),
    /// An IPv6 address.
    V6(u128),
}

impl IpAddr {
    /// The width of the address in bits.
    pub open spec fn width(self) -> int {
        match self {
            IpAddr::V4(_) => 32,
            IpAddr::V6(_) => 128,
        }
    }
}

/// A UDP endpoint.
#[derive(Debug, Clone, Copy, PartialEq, Eq, Structural)]
pub struct SocketAddr {
    /// The host.
    pub ip: IpAddr,
    /// The port.
    pub port: u16,
}

impl SocketAddr {
    /// The endpoint of `ip` at `port`.
    pub fn new(ip: IpAddr, port: u16) -> (r: Self)
        ensures
            r == (SocketAddr { ip, port }),
    {
        SocketAddr { ip, port }
    }
}

/// A network: an address and the length of the prefix that its hosts share.
#[derive(Debug, Clone, Copy, PartialEq, Eq, Structural)]
pub struct IpCidr {
    /// The address, as it was written.
    pub addr: IpAddr,
    /// The length of the prefix in bits.
    pub prefix_len: u8,
}

impl IpCidr {
    /// The prefix is no longer than the address.
    pub open spec fn wf(self) -> bool {
        self.prefix_len <= self.addr.width()
    }
}

/// A remote tunnel endpoint and what lies behind it.
#[derive(Debug, Clone, Copy, PartialEq, Eq)]
pub struct VtepPeer {
    /// Where its datagrams go.
    pub endpoint: SocketAddr,
    /// The pod network behind it, where one was given.
    pub pod_cidr: Option<IpCidr>,
    /// Its inner MAC address, where one was given.
    pub vtep_mac: Option<[u8; 6]>,
}

/// Whether `c` is a decimal digit.
pub open spec fn is_digit(c: char) -> bool {
    '0' <= c <= '9'
}

/// The number that a text of decimal digits denotes.
pub open spec fn digits_value(s: Seq<char>) -> int
    decreases s.len(),
{
    if s.len() == 0 {
        0
    } else {
        digits_value(s.drop_last()) * 10 + (s.last() as int - '0' as int)
    }
}

/// The digits of a number that may have a plus sign in front.
pub open spec fn without_plus(s: Seq<char>) -> Seq<char> {
    if s.len() > 0 && s[0] == '+' {
        s.drop_first()
    } else {
        s
    }
}

/// The number that a text denotes: decimal digits, at least one, which may
/// follow a plus sign.
pub open spec fn number(s: Seq<char>) -> Option<int> {
    let t = without_plus(s);
    if t.len() > 0 && (forall|i: int| 0 <= i < t.len() ==> is_digit(#[trigger] t[i])) {
        Some(digits_value(t))
    } else {
        None
    }
}

/// The network that a text in CIDR notation denotes, where its address part
/// denotes `addr`; otherwise what is wrong with it.
pub open spec fn cidr_network(text: Seq<char>, addr: Option<IpAddr>) -> Result<IpCidr, Seq<char>> {
    match (cut(text, '/'), addr) {
        (None, _) => Err("'"@ + text + "' is not valid CIDR notation (expected addr/prefixlen)"@),
        (Some(_), None) => Err("invalid IP address"@),
        (Some(p), Some(a)) => match number(p.1) {
            Some(n) => if n <= a.width() {
                Ok(IpCidr { addr: a, prefix_len: n as u8 })
            } else {
                Err("invalid prefix length"@)
            },
            None => Err("invalid prefix length"@),
        },
    }
}

/// The number that `s` denotes, where it is at most `max`.
fn small_number(s: &str, max: u32) -> (r: Option<u32>)
    requires
        max <= 1000,
    ensures
        match r {
            Some(n) => number(s@) == Some(n as int) && n <= max,
            None => number(s@) is None || number(s@)->0 > max,
        },
{
    let n = s.unicode_len();
    let start: usize = if n > 0 && s.get_char(0) == '+' {
        1
    } else {
        0
    };
    let ghost t = without_plus(s@);
    assert(t =~= s@.skip(start as int));
    if start == n {
        return None;
    }
    let mut i: usize = start;
    let mut value: u32 = 0;
    let mut large: bool = false;
    while i < n
        invariant
            start <= i <= n,
            n == s@.len(),
            t == without_plus(s@),
            t == s@.skip(start as int),
            max <= 1000,
            forall|j: int| 0 <= j < i - start ==> is_digit(#[trigger] t[j]),
            large ==> digits_value(t.take(i - start)) > max,
            !large ==> value == digits_value(t.take(i - start)) && value <= max,
        decreases n - i,
    {
        let c = s.get_char(i);
        assert(c == t[i - start]);
        if c < '0' || '9' < c {
            assert(!is_digit(t[i - start]));
            return None;
        }
        let d: u32 = c as u32 - '0' as u32;
        proof {
            let next = t.take(i - start + 1);
            assert(next.drop_last() =~= t.take(i - start));
            assert(next.last() == c);
            assert(digits_value(next) == digits_value(t.take(i - start)) * 10 + d);
        }
        if !large {
            value = value * 10 + d;
            if value > max {
                large = true;
            }
        }
        i += 1;
    }
    assert(t.take(i - start) =~= t);
    if large {
        None
    } else {
        Some(value)
    }
}

impl IpCidr {
    /// The network that `text` denotes, given what its part in front of the
    /// first slash denotes as an IP address, if it denotes one.
    pub fn from_str(text: &str, addr: Option<IpAddr>) -> (r: Result<IpCidr, String>)
        ensures
            match r {
                Ok(network) => cidr_network(text@, addr) == Ok::<IpCidr, Seq<char>>(network)
                    && network.wf(),
                Err(e) => cidr_network(text@, addr) == Err::<IpCidr, Seq<char>>(e@),
            },
    {
        let (_, prefix) = match parse_cidr(text) {
            Ok(p) => p,
            Err(e) => {
                return Err(e.message());
            },
        };
        let addr = match addr {
            Some(a) => a,
            None => {
                return Err("invalid IP address".to_owned());
            },
        };
        let width: u32 = match addr {
            IpAddr::V4(_) => 32,
            IpAddr::V6(_) => 128,
        };
        match small_number(prefix, width) {
            Some(n) => Ok(IpCidr { addr, prefix_len: n as u8 }),
            None => Err("invalid prefix length".to_owned()),
        }
    }
}

/// The number that a text of digits denotes grows tenfold and by the digit with
/// every digit behind it.
pub proof fn law_digits_are_positional(s: Seq<char>, d: int)
    requires
        0 <= d < 10,
    ensures
        digits_value(s.push((48 + d) as char)) == digits_value(s) * 10 + d,
        digits_value(seq![]) == 0,
{
    assert(s.push((48 + d) as char).drop_last() =~= s);
}

proof fn lemma_decimal_digits(n: int)
    requires
        n >= 0,
    ensures
        decimal(n).len() > 0,
        forall|i: int| 0 <= i < decimal(n).len() ==> is_digit(#[trigger] decimal(n)[i]),
        digits_value(decimal(n)) == n,
    decreases n,
{
    if n >= 10 {
        let head = decimal(n / 10);
        lemma_decimal_digits(n / 10);
        law_digits_are_positional(head, n % 10);
        assert forall|i: int| 0 <= i < decimal(n).len() implies is_digit(
            #[trigger] decimal(n)[i],
        ) by {
            if i < head.len() {
                assert(decimal(n)[i] == head[i]);
            }
        }
    } else {
        law_digits_are_positional(seq![], n);
        assert(seq![].push(digit(n)) =~= decimal(n));
    }
}

/// What is written in decimal is read as the same number, with a plus sign in
/// front too; and only texts of decimal digits, one plus sign in front set
/// aside, are numbers.
pub proof fn law_numbers_are_read_as_written(n: int, s: Seq<char>)
    requires
        n >= 0,
    ensures
        number(decimal(n)) == Some(n),
        number(seq!['+'] + decimal(n)) == Some(n),
        number(s) is Some ==> s.len() > 0 && s.last() != '+' && forall|i: int|
            0 <= i < s.len() ==> ('0' <= #[trigger] s[i] <= '9' || (i == 0 && s[0] == '+')),
        s.len() > 0 && (forall|i: int| 0 <= i < s.len() ==> '0' <= #[trigger] s[i] <= '9')
            ==> number(s) == Some(digits_value(s)) && number(seq!['+'] + s) == Some(
            digits_value(s),
        ),
{
    lemma_decimal_digits(n);
    let t = decimal(n);
    assert(is_digit(t[0]));
    assert(without_plus(t) =~= t);
    assert((seq!['+'] + t).drop_first() =~= t);
    if number(s) is Some {
        let u = without_plus(s);
        assert forall|i: int| 0 <= i < s.len() implies ('0' <= #[trigger] s[i] <= '9' || (i == 0
            && s[0] == '+')) by {
            if s[0] == '+' {
                if i > 0 {
                    assert(is_digit(u[i - 1]));
                }
            } else {
                assert(is_digit(u[i]));
            }
        }
        assert(is_digit(u[u.len() - 1]));
    }
    if s.len() > 0 && (forall|i: int| 0 <= i < s.len() ==> '0' <= #[trigger] s[i] <= '9') {
        assert(s[0] != '+');
        assert(forall|i: int| 0 <= i < s.len() ==> is_digit(#[trigger] s[i]));
        assert((seq!['+'] + s).drop_first() =~= s);
    }
}

/// A network is denoted by an address, a slash and a prefix length that the
/// address has room for, and it has just that address and that length; the
/// error names the first of the three that is wrong.
pub proof fn law_network_is_address_and_prefix(text: Seq<char>, addr: Option<IpAddr>)
    ensures
        match cidr_network(text, addr) {
            Ok(network) => {
                &&& Some(network.addr) == addr
                &&& cut(text, '/') matches Some(parts)
                &&& number(parts.1) == Some(network.prefix_len as int)
                &&& match network.addr {
                    IpAddr::V4(_) => network.prefix_len <= 32,
                    IpAddr::V6(_) => network.prefix_len <= 128,
                }
            },
            Err(e) => {
                ||| !text.contains('/') && e == "'"@ + text
                    + "' is not valid CIDR notation (expected addr/prefixlen)"@
                ||| text.contains('/') && addr is None && e == "invalid IP address"@
                ||| {
                    &&& text.contains('/')
                    &&& addr matches Some(a)
                    &&& e == "invalid prefix length"@
                    &&& match (number((cut(text, '/')->0).1), a) {
                        (None, _) => true,
                        (Some(n), IpAddr::V4(_)) => n > 32,
                        (Some(n), IpAddr::V6(_)) => n > 128,
                    }
                }
            },
        },
{
    if let Some(parts) = cut(text, '/') {
        if let Some(n) = number(parts.1) {
            lemma_digits_not_negative(without_plus(parts.1));
        }
    }
}

proof fn lemma_digits_not_negative(s: Seq<char>)
    requires
        forall|i: int| 0 <= i < s.len() ==> is_digit(#[trigger] s[i]),
    ensures
        digits_value(s) >= 0,
    decreases s.len(),
{
    if s.len() > 0 {
        let rest = s.drop_last();
        assert forall|i: int| 0 <= i < rest.len() implies is_digit(#[trigger] rest[i]) by {
            assert(rest[i] == s[i]);
        }
        assert(is_digit(s[s.len() - 1]));
        lemma_digits_not_negative(rest);
    }
}

} // verus!
