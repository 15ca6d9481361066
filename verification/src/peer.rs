//! The text that names a remote endpoint on the command line.

use crate::addr::{cidr_network, IpAddr, IpCidr};
use crate::error::{join, joined};
use crate::text::{cut, pieces, slices_view, split, split_once};
use vstd::prelude::*;
use vstd::string::StrSliceExecFns;

verus! {

/// A remote endpoint as it is given on the command line.
#[derive(Debug, Clone, Copy, PartialEq, Eq)]
pub struct PeerSpec {
    /// The address that its datagrams go to.
    pub underlay: IpAddr,
    /// The pod network behind it.
    pub pod_cidr: Option<IpCidr>,
    /// Its inner MAC address.
    pub vtep_mac: Option<[u8; 6]>,
}

/// The parts of a text that names a remote endpoint.
#[derive(Debug, Clone, Copy)]
pub enum PeerFields<'a> {
    /// `POD_CIDR=UNDERLAY_IP`.
    Mapped {
        /// In front of the equals sign.
        pod_cidr: &'a str,
        /// Behind it.
        underlay: &'a str,
    },
    /// `UNDERLAY_IP,MAC`.
    Vtep {
        /// In front of the comma.
        underlay: &'a str,
        /// Behind it.
        mac: &'a str,
    },
}

/// `PeerFields` with its texts as character sequences.
pub enum PeerFieldsView {
    Mapped { pod_cidr: Seq<char>, underlay: Seq<char> },
    Vtep { underlay: Seq<char>, mac: Seq<char> },
}

impl<'a> View for PeerFields<'a> {
    type V = PeerFieldsView;

    open spec fn view(&self) -> PeerFieldsView {
        match *self {
            PeerFields::Mapped { pod_cidr, underlay } => PeerFieldsView::Mapped {
                pod_cidr: pod_cidr@,
                underlay: underlay@,
            },
            PeerFields::Vtep { underlay, mac } => PeerFieldsView::Vtep {
                underlay: underlay@,
                mac: mac@,
            },
        }
    }
}

/// The parts of `value`: cut at its first equals sign or, where it has none,
/// at its first comma.
pub open spec fn peer_fields(value: Seq<char>) -> Option<PeerFieldsView> {
    match (cut(value, '='), cut(value, ',')) {
        (Some(p), _) => Some(PeerFieldsView::Mapped { pod_cidr: p.0, underlay: p.1 }),
        (None, Some(p)) => Some(PeerFieldsView::Vtep { underlay: p.0, mac: p.1 }),
        (None, None) => None,
    }
}

/// The value of a hexadecimal digit.
pub open spec fn hex_value(c: char) -> Option<int> {
    if '0' <= c <= '9' {
        Some(c as int - '0' as int)
    } else if 'a' <= c <= 'f' {
        Some(c as int - 'a' as int + 10)
    } else if 'A' <= c <= 'F' {
        Some(c as int - 'A' as int + 10)
    } else {
        None
    }
}

/// The octet that a text of two characters denotes: two hexadecimal digits,
/// or a plus sign and one digit.
pub open spec fn mac_octet(s: Seq<char>) -> Option<u8> {
    if s.len() != 2 {
        None
    } else if s[0] == '+' {
        match hex_value(s[1]) {
            Some(low) => Some(low as u8),
            None => None,
        }
    } else {
        match (hex_value(s[0]), hex_value(s[1])) {
            (Some(high), Some(low)) => Some((high * 16 + low) as u8),
            _ => None,
        }
    }
}

/// The MAC address that a text denotes: six octets with colons between them.
pub open spec fn mac_address(s: Seq<char>) -> Option<Seq<u8>> {
    let p = pieces(s, ':');
    if p.len() == 6 && (forall|i: int| 0 <= i < 6 ==> mac_octet(#[trigger] p[i]) is Some) {
        Some(Seq::new(6, |i: int| mac_octet(p[i])->0))
    } else {
        None
    }
}

/// The endpoint that `fields` name, or what is wrong with them. `pod_addr` is
/// what the address part of the pod network denotes, and `underlay` what the
/// underlay address denotes, where they denote an IP address.
pub open spec fn named_peer(
    fields: PeerFieldsView,
    pod_addr: Option<IpAddr>,
    underlay: Option<IpAddr>,
) -> Result<(IpAddr, Option<IpCidr>, Option<Seq<u8>>), Seq<char>> {
    match fields {
        PeerFieldsView::Mapped { pod_cidr, underlay: text } => match (
            cidr_network(pod_cidr, pod_addr),
            underlay,
        ) {
            (Err(e), _) => Err("invalid peer CIDR "@ + pod_cidr + ": "@ + e),
            (Ok(_), None) => Err("invalid underlay IP address: "@ + text),
            (Ok(network), Some(ip)) => Ok((ip, Some(network), None)),
        },
        PeerFieldsView::Vtep { underlay: text, mac } => match (underlay, mac_address(mac)) {
            (None, _) => Err("invalid underlay IP address: "@ + text),
            (Some(_), None) => Err("invalid VTEP MAC address: "@ + mac),
            (Some(ip), Some(octets)) => Ok((ip, None, Some(octets))),
        },
    }
}

/// The endpoint that `value` names, or what is wrong with it.
pub open spec fn peer_spec(
    value: Seq<char>,
    pod_addr: Option<IpAddr>,
    underlay: Option<IpAddr>,
) -> Result<(IpAddr, Option<IpCidr>, Option<Seq<u8>>), Seq<char>> {
    match peer_fields(value) {
        Some(fields) => named_peer(fields, pod_addr, underlay),
        None => Err("expected POD_CIDR=UNDERLAY_IP"@),
    }
}

impl PeerSpec {
    /// The fields, with the MAC address as a sequence.
    pub open spec fn fields(self) -> (IpAddr, Option<IpCidr>, Option<Seq<u8>>) {
        (
            self.underlay,
            self.pod_cidr,
            match self.vtep_mac {
                Some(mac) => Some(mac@),
                None => None,
            },
        )
    }
}

impl<'a> PeerFields<'a> {
    /// The parts of a text that names a remote endpoint.
    pub fn split(value: &'a str) -> (r: Option<PeerFields<'a>>)
        ensures
            r is Some <==> peer_fields(value@) is Some,
            r matches Some(fields) ==> peer_fields(value@) == Some(fields@),
    {
        if let Some((pod_cidr, underlay)) = split_once(value, '=') {
            return Some(PeerFields::Mapped { pod_cidr, underlay });
        }
        match split_once(value, ',') {
            Some((underlay, mac)) => Some(PeerFields::Vtep { underlay, mac }),
            None => None,
        }
    }
}

/// The value of a hexadecimal digit.
fn hex_digit(c: char) -> (r: Option<u8>)
    ensures
        r is Some <==> hex_value(c) is Some,
        r matches Some(v) ==> hex_value(c) == Some(v as int) && v < 16,
{
    let u: u32 = c as u32;
    if '0' <= c && c <= '9' {
        Some((u - '0' as u32) as u8)
    } else if 'a' <= c && c <= 'f' {
        Some((u - 'a' as u32 + 10) as u8)
    } else if 'A' <= c && c <= 'F' {
        Some((u - 'A' as u32 + 10) as u8)
    } else {
        None
    }
}

/// The octet that a text of two characters denotes.
fn parse_mac_octet(s: &str) -> (r: Option<u8>)
    ensures
        r == mac_octet(s@),
{
    if s.unicode_len() != 2 {
        return None;
    }
    let first = s.get_char(0);
    let low = match hex_digit(s.get_char(1)) {
        Some(v) => v,
        None => {
            return None;
        },
    };
    if first == '+' {
        return Some(low);
    }
    match hex_digit(first) {
        Some(high) => Some(high * 16 + low),
        None => None,
    }
}

/// The MAC address that a text denotes.
pub fn parse_mac(s: &str) -> (r: Option<[u8; 6]>)
    ensures
        r is Some <==> mac_address(s@) is Some,
        r matches Some(mac) ==> mac_address(s@) == Some(mac@),
{
    let parts = split(s, ':');
    let ghost p = pieces(s@, ':');
    assert(p == slices_view(parts@));
    if parts.len() != 6 {
        return None;
    }
    assert(forall|i: int| 0 <= i < 6 ==> #[trigger] p[i] == parts@[i]@);
    let mut mac: [u8; 6] = [0u8; 6];
    let mut i: usize = 0;
    while i < 6
        invariant
            i <= 6,
            p == pieces(s@, ':'),
            p.len() == 6,
            parts@.len() == 6,
            forall|j: int| 0 <= j < 6 ==> #[trigger] p[j] == parts@[j]@,
            forall|j: int| 0 <= j < i ==> mac_octet(#[trigger] p[j]) == Some(mac@[j]),
        decreases 6 - i,
    {
        assert(p[i as int] == parts@[i as int]@);
        match parse_mac_octet(parts[i]) {
            Some(octet) => {
                mac[i] = octet;
            },
            None => {
                assert(mac_octet(p[i as int]) is None);
                return None;
            },
        }
        i += 1;
    }
    assert(mac@ =~= mac_address(s@)->0);
    Some(mac)
}

impl PeerSpec {
    /// The endpoint that `value` names: `POD_CIDR=UNDERLAY_IP`, or
    /// `UNDERLAY_IP,MAC`. `pod_addr` and `underlay` are what the address part
    /// of the pod network and the underlay address, as `PeerFields::split`
    /// gives them, denote as IP addresses, where they denote one.
    pub fn from_str(value: &str, pod_addr: Option<IpAddr>, underlay: Option<IpAddr>) -> (r: Result<
        PeerSpec,
        String,
    >)
        ensures
            match r {
                Ok(peer) => peer_spec(value@, pod_addr, underlay) == Ok::<
                    (IpAddr, Option<IpCidr>, Option<Seq<u8>>),
                    Seq<char>,
                >(peer.fields()),
                Err(e) => peer_spec(value@, pod_addr, underlay) == Err::<
                    (IpAddr, Option<IpCidr>, Option<Seq<u8>>),
                    Seq<char>,
                >(e@),
            },
    {
        proof {
            reveal_with_fuel(joined, 5);
        }
        match PeerFields::split(value) {
            None => Err("expected POD_CIDR=UNDERLAY_IP".to_owned()),
            Some(PeerFields::Mapped { pod_cidr, underlay: text }) => {
                let network = match IpCidr::from_str(pod_cidr, pod_addr) {
                    Ok(network) => network,
                    Err(error) => {
                        return Err(join(&["invalid peer CIDR ", pod_cidr, ": ", error.as_str()]));
                    },
                };
                match underlay {
                    Some(ip) => Ok(
                        PeerSpec { underlay: ip, pod_cidr: Some(network), vtep_mac: None },
                    ),
                    None => Err(join(&["invalid underlay IP address: ", text])),
                }
            },
            Some(PeerFields::Vtep { underlay: text, mac }) => {
                let ip = match underlay {
                    Some(ip) => ip,
                    None => {
                        return Err(join(&["invalid underlay IP address: ", text]));
                    },
                };
                match parse_mac(mac) {
                    Some(octets) => Ok(
                        PeerSpec { underlay: ip, pod_cidr: None, vtep_mac: Some(octets) },
                    ),
                    None => Err(join(&["invalid VTEP MAC address: ", mac])),
                }
            },
        }
    }
}

/// A hexadecimal digit is worth its place among the sixteen digits, in small
/// letters or in capitals, and nothing else is one.
pub proof fn law_hex_digits_are_worth_their_place(c: char, v: int)
    ensures
        hex_value(c) == Some(v) <==> 0 <= v < 16 && ("0123456789abcdef"@[v] == c
            || "0123456789ABCDEF"@[v] == c),
{
    reveal_strlit("0123456789abcdef");
    reveal_strlit("0123456789ABCDEF");
}

/// An octet of a MAC address is written as two digits, the higher one first, or
/// as a plus sign and one digit.
pub proof fn law_octets_are_two_digits(s: Seq<char>)
    ensures
        match mac_octet(s) {
            Some(octet) => {
                &&& s.len() == 2
                &&& hex_value(s[1]) == Some(octet as int % 16)
                &&& s[0] == '+' ==> octet < 16
                &&& s[0] != '+' ==> hex_value(s[0]) == Some(octet as int / 16)
            },
            None => s.len() != 2 || hex_value(s[1]) is None || (s[0] != '+' && hex_value(
                s[0],
            ) is None),
        },
{
}

/// A MAC address is six octets with colons between them, and has them in the
/// order in which they are written.
pub proof fn law_mac_address_is_six_octets(s: Seq<char>)
    ensures
        match mac_address(s) {
            Some(mac) => {
                &&& mac.len() == 6
                &&& pieces(s, ':').len() == 6
                &&& forall|i: int|
                    0 <= i < 6 ==> mac_octet(pieces(s, ':')[i]) == Some(#[trigger] mac[i])
            },
            None => pieces(s, ':').len() != 6 || exists|i: int|
                0 <= i < 6 && mac_octet(#[trigger] pieces(s, ':')[i]) is None,
        },
{
    let p = pieces(s, ':');
    if let Some(mac) = mac_address(s) {
        assert forall|i: int| 0 <= i < 6 implies mac_octet(p[i]) == Some(#[trigger] mac[i]) by {
            assert(mac_octet(p[i]) is Some);
        }
    }
}

/// How a peer is read: a text with an equals sign maps the network in front of
/// the first one to the address behind it; a text without one but with a comma
/// gives the address in front of the first comma the MAC address behind it; any
/// other text is refused. A peer that is read has just what was given, and an
/// error names the first part that is wrong.
pub proof fn law_peer_is_what_its_text_names(
    value: Seq<char>,
    pod_addr: Option<IpAddr>,
    underlay: Option<IpAddr>,
)
    ensures
        match (cut(value, '='), cut(value, ',')) {
            (Some(p), _) => match peer_spec(value, pod_addr, underlay) {
                Ok(peer) => {
                    &&& Some(peer.0) == underlay
                    &&& peer.1 matches Some(network)
                    &&& cidr_network(p.0, pod_addr) == Ok::<IpCidr, Seq<char>>(network)
                    &&& peer.2 is None
                },
                Err(e) => match cidr_network(p.0, pod_addr) {
                    Err(cause) => e == "invalid peer CIDR "@ + p.0 + ": "@ + cause,
                    Ok(_) => underlay is None && e == "invalid underlay IP address: "@ + p.1,
                },
            },
            (None, Some(p)) => match peer_spec(value, pod_addr, underlay) {
                Ok(peer) => {
                    &&& Some(peer.0) == underlay
                    &&& peer.1 is None
                    &&& peer.2 is Some
                    &&& peer.2 == mac_address(p.1)
                },
                Err(e) => {
                    &&& underlay is None ==> e == "invalid underlay IP address: "@ + p.0
                    &&& underlay is Some ==> mac_address(p.1) is None && e
                        == "invalid VTEP MAC address: "@ + p.1
                },
            },
            (None, None) => peer_spec(value, pod_addr, underlay) == Err::<
                (IpAddr, Option<IpCidr>, Option<Seq<u8>>),
                Seq<char>,
            >("expected POD_CIDR=UNDERLAY_IP"@),
        },
        match peer_fields(value) {
            Some(PeerFieldsView::Mapped { pod_cidr, underlay: text }) => cut(value, '=') == Some(
                (pod_cidr, text),
            ),
            Some(PeerFieldsView::Vtep { underlay: text, mac }) => !value.contains('=') && cut(
                value,
                ',',
            ) == Some((text, mac)),
            None => !value.contains('=') && !value.contains(','),
        },
{
}

/// The views of a peer and of its parts keep all that they hold.
pub proof fn law_views_keep_peers(spec: PeerSpec, a: &str, b: &str)
    ensures
        spec.fields().0 == spec.underlay,
        spec.fields().1 == spec.pod_cidr,
        spec.fields().2 is Some <==> spec.vtep_mac is Some,
        spec.vtep_mac matches Some(mac) ==> spec.fields().2 == Some(mac@),
        (PeerFields::Mapped { pod_cidr: a, underlay: b })@ == (PeerFieldsView::Mapped {
            pod_cidr: a@,
            underlay: b@,
        }),
        (PeerFields::Vtep { underlay: a, mac: b })@ == (PeerFieldsView::Vtep {
            underlay: a@,
            mac: b@,
        }),
{
}

} // verus!
