//! Why a tunnel could not be built.

use crate::bridge::{VMNET_BRIDGE_BASE, VMNET_MAX_FORCED_VNI};
use crate::text::{decimal, decimal_text};
use vstd::prelude::*;
use vstd::string::StringExecFns;

verus! {

/// The reasons for which building a tunnel fails.
#[derive(Debug)]
pub enum TunnelError {
    /// No remote endpoint was configured.
    NoRemotes,
    /// The identifier does not fit in 24 bits.
    VniOutOfRange(u32),
    /// Forcing the bridge name would take too many temporary bridges.
    TooManyBridges(u32),
    /// The bridge that the tunnel is to get exists already.
    BridgeExists(String),
    /// The command that creates a temporary bridge could not be run.
    CreateNotRun {
        /// The temporary bridge.
        name: String,
        /// What the system says about it.
        error: String,
    },
    /// The command that creates a temporary bridge failed.
    CreateFailed {
        /// The temporary bridge.
        name: String,
        /// The command's exit status.
        status: String,
    },
    /// The UDP socket could not be bound.
    BindFailed(String),
    /// vmnet did not start.
    VmnetUnavailable,
    /// No new bridge appeared in time.
    BridgeNotFound,
    /// vmnet created another bridge than the one that was forced.
    UnexpectedBridge {
        /// The bridge that vmnet created.
        created: String,
        /// The identifier whose bridge was expected.
        vni: u32,
    },
    /// The command that assigns an IPv4 address could not be run.
    Inet4NotRun(String),
    /// The command that assigns an IPv4 address failed.
    Inet4Failed {
        /// The address.
        cidr: String,
        /// The interface.
        iface: String,
    },
    /// The command that assigns an IPv6 address could not be run.
    Inet6NotRun(String),
    /// The command that assigns an IPv6 address failed.
    Inet6Failed {
        /// The address.
        cidr: String,
        /// The interface.
        iface: String,
    },
    /// A text that is to be an address and a prefix length is not.
    InvalidCidr(String),
}

/// `TunnelError` with its texts as character sequences.
pub enum TunnelErrorView {
    NoRemotes,
    VniOutOfRange(u32),
    TooManyBridges(u32),
    BridgeExists(Seq<char>),
    CreateNotRun { name: Seq<char>, error: Seq<char> },
    CreateFailed { name: Seq<char>, status: Seq<char> },
    BindFailed(Seq<char>),
    VmnetUnavailable,
    BridgeNotFound,
    UnexpectedBridge { created: Seq<char>, vni: u32 },
    Inet4NotRun(Seq<char>),
    Inet4Failed { cidr: Seq<char>, iface: Seq<char> },
    Inet6NotRun(Seq<char>),
    Inet6Failed { cidr: Seq<char>, iface: Seq<char> },
    InvalidCidr(Seq<char>),
}

impl View for TunnelError {
    type V = TunnelErrorView;

    open spec fn view(&self) -> TunnelErrorView {
        match *self {
            TunnelError::NoRemotes => TunnelErrorView::NoRemotes,
            TunnelError::VniOutOfRange(vni) => TunnelErrorView::VniOutOfRange(vni),
            TunnelError::TooManyBridges(vni) => TunnelErrorView::TooManyBridges(vni),
            TunnelError::BridgeExists(name) => TunnelErrorView::BridgeExists(name@),
            TunnelError::CreateNotRun { name, error } => TunnelErrorView::CreateNotRun {
                name: name@,
                error: error@,
            },
            TunnelError::CreateFailed { name, status } => TunnelErrorView::CreateFailed {
                name: name@,
                status: status@,
            },
            TunnelError::BindFailed(error) => TunnelErrorView::BindFailed(error@),
            TunnelError::VmnetUnavailable => TunnelErrorView::VmnetUnavailable,
            TunnelError::BridgeNotFound => TunnelErrorView::BridgeNotFound,
            TunnelError::UnexpectedBridge { created, vni } => TunnelErrorView::UnexpectedBridge {
                created: created@,
                vni,
            },
            TunnelError::Inet4NotRun(error) => TunnelErrorView::Inet4NotRun(error@),
            TunnelError::Inet4Failed { cidr, iface } => TunnelErrorView::Inet4Failed {
                cidr: cidr@,
                iface: iface@,
            },
            TunnelError::Inet6NotRun(error) => TunnelErrorView::Inet6NotRun(error@),
            TunnelError::Inet6Failed { cidr, iface } => TunnelErrorView::Inet6Failed {
                cidr: cidr@,
                iface: iface@,
            },
            TunnelError::InvalidCidr(text) => TunnelErrorView::InvalidCidr(text@),
        }
    }
}

impl TunnelErrorView {
    /// The message for the user.
    pub open spec fn message(self) -> Seq<char> {
        match self {
            TunnelErrorView::NoRemotes => "at least one remote VTEP endpoint is required"@,
            TunnelErrorView::VniOutOfRange(vni) => "VNI "@ + decimal(vni as int)
                + " is outside the 24-bit VXLAN range"@,
            TunnelErrorView::TooManyBridges(vni) => "cannot force bridge"@ + decimal(vni as int)
                + ": refusing to create more than "@ + decimal(
                VMNET_MAX_FORCED_VNI - VMNET_BRIDGE_BASE,
            ) + " temporary bridge devices"@,
            TunnelErrorView::BridgeExists(name) => name
                + " already exists; refusing to use or disturb an existing bridge"@,
            TunnelErrorView::CreateNotRun { name, error } => "create temporary "@ + name + ": "@
                + error,
            TunnelErrorView::CreateFailed { name, status } => "failed to create temporary "@ + name
                + " (exit "@ + status + ")"@,
            TunnelErrorView::BindFailed(error) => "Failed to bind UDP socket: "@ + error,
            TunnelErrorView::VmnetUnavailable => "vmnet_ctx_start() failed — run as root. vmnet.framework requires root or the com.apple.vm.networking entitlement."@,
            TunnelErrorView::BridgeNotFound => "Bridge interface not found after 3 s. Run `ifconfig -a` to inspect."@,
            TunnelErrorView::UnexpectedBridge { created, vni } => "vmnet created "@ + created
                + ", expected bridge"@ + decimal(vni as int) + " for VNI "@ + decimal(vni as int)
                + "; another interface may have raced the bridge allocator"@,
            TunnelErrorView::Inet4NotRun(error) => "ifconfig inet failed: "@ + error,
            TunnelErrorView::Inet4Failed { cidr, iface } => "Failed to assign IPv4 "@ + cidr
                + " to "@ + iface,
            TunnelErrorView::Inet6NotRun(error) => "ifconfig inet6 failed: "@ + error,
            TunnelErrorView::Inet6Failed { cidr, iface } => "Failed to assign IPv6 "@ + cidr
                + " to "@ + iface,
            TunnelErrorView::InvalidCidr(text) => "'"@ + text
                + "' is not valid CIDR notation (expected addr/prefixlen)"@,
        }
    }
}

/// The texts in `parts`, one behind the other.
pub open spec fn joined(parts: Seq<&str>) -> Seq<char>
    decreases parts.len(),
{
    if parts.len() == 0 {
        seq![]
    } else {
        joined(parts.drop_last()) + parts.last()@
    }
}

/// The texts in `parts`, one behind the other.
pub(crate) fn join(parts: &[&str]) -> (r: String)
    ensures
        r@ == joined(parts@),
{
    let mut r: String = String::new();
    let mut i: usize = 0;
    while i < parts.len()
        invariant
            i <= parts@.len(),
            r@ == joined(parts@.take(i as int)),
        decreases parts@.len() - i,
    {
        r.append(parts[i]);
        i += 1;
        assert(parts@.take(i as int).drop_last() =~= parts@.take(i - 1));
    }
    assert(parts@.take(i as int) =~= parts@);
    r
}

impl TunnelError {
    /// The message for the user.
    pub fn message(&self) -> (r: String)
        ensures
            r@ == self@.message(),
    {
        proof {
            reveal_with_fuel(joined, 8);
        }
        let r = match self {
            TunnelError::NoRemotes => join(&["at least one remote VTEP endpoint is required"]),
            TunnelError::VniOutOfRange(vni) => join(
                &["VNI ", decimal_text(*vni).as_str(), " is outside the 24-bit VXLAN range"],
            ),
            TunnelError::TooManyBridges(vni) => join(
                &[
                    "cannot force bridge",
                    decimal_text(*vni).as_str(),
                    ": refusing to create more than ",
                    decimal_text(VMNET_MAX_FORCED_VNI - VMNET_BRIDGE_BASE).as_str(),
                    " temporary bridge devices",
                ],
            ),
            TunnelError::BridgeExists(name) => join(
                &[
                    name.as_str(),
                    " already exists; refusing to use or disturb an existing bridge",
                ],
            ),
            TunnelError::CreateNotRun { name, error } => join(
                &["create temporary ", name.as_str(), ": ", error.as_str()],
            ),
            TunnelError::CreateFailed { name, status } => join(
                &["failed to create temporary ", name.as_str(), " (exit ", status.as_str(), ")"],
            ),
            TunnelError::BindFailed(error) => join(&["Failed to bind UDP socket: ", error.as_str()]),
            TunnelError::VmnetUnavailable => join(
                &[
                    "vmnet_ctx_start() failed — run as root. vmnet.framework requires root or the com.apple.vm.networking entitlement.",
                ],
            ),
            TunnelError::BridgeNotFound => join(
                &["Bridge interface not found after 3 s. Run `ifconfig -a` to inspect."],
            ),
            TunnelError::UnexpectedBridge { created, vni } => join(
                &[
                    "vmnet created ",
                    created.as_str(),
                    ", expected bridge",
                    decimal_text(*vni).as_str(),
                    " for VNI ",
                    decimal_text(*vni).as_str(),
                    "; another interface may have raced the bridge allocator",
                ],
            ),
            TunnelError::Inet4NotRun(error) => join(&["ifconfig inet failed: ", error.as_str()]),
            TunnelError::Inet4Failed { cidr, iface } => join(
                &["Failed to assign IPv4 ", cidr.as_str(), " to ", iface.as_str()],
            ),
            TunnelError::Inet6NotRun(error) => join(&["ifconfig inet6 failed: ", error.as_str()]),
            TunnelError::Inet6Failed { cidr, iface } => join(
                &["Failed to assign IPv6 ", cidr.as_str(), " to ", iface.as_str()],
            ),
            TunnelError::InvalidCidr(text) => join(
                &["'", text.as_str(), "' is not valid CIDR notation (expected addr/prefixlen)"],
            ),
        };
        r
    }
}

/// Every message tells its reader the cause with all that is known of it, word
/// for word: `n` stands for a number, `a` and `b` for texts of any length.
pub proof fn law_messages_tell_the_cause(n: u32, a: Seq<char>, b: Seq<char>)
    ensures
        TunnelErrorView::NoRemotes.message() == "at least one remote VTEP endpoint is required"@,
        TunnelErrorView::VniOutOfRange(n).message() == "VNI "@ + decimal(n as int)
            + " is outside the 24-bit VXLAN range"@,
        TunnelErrorView::TooManyBridges(n).message() == "cannot force bridge"@ + decimal(n as int)
            + ": refusing to create more than "@ + decimal(3995) + " temporary bridge devices"@,
        TunnelErrorView::BridgeExists(a).message() == a
            + " already exists; refusing to use or disturb an existing bridge"@,
        (TunnelErrorView::CreateNotRun { name: a, error: b }).message() == "create temporary "@ + a
            + ": "@ + b,
        (TunnelErrorView::CreateFailed { name: a, status: b }).message()
            == "failed to create temporary "@ + a + " (exit "@ + b + ")"@,
        TunnelErrorView::BindFailed(a).message() == "Failed to bind UDP socket: "@ + a,
        (TunnelErrorView::UnexpectedBridge { created: a, vni: n }).message() == "vmnet created "@
            + a + ", expected bridge"@ + decimal(n as int) + " for VNI "@ + decimal(n as int)
            + "; another interface may have raced the bridge allocator"@,
        TunnelErrorView::Inet4NotRun(a).message() == "ifconfig inet failed: "@ + a,
        (TunnelErrorView::Inet4Failed { cidr: a, iface: b }).message() == "Failed to assign IPv4 "@
            + a + " to "@ + b,
        TunnelErrorView::Inet6NotRun(a).message() == "ifconfig inet6 failed: "@ + a,
        (TunnelErrorView::Inet6Failed { cidr: a, iface: b }).message() == "Failed to assign IPv6 "@
            + a + " to "@ + b,
        TunnelErrorView::InvalidCidr(a).message() == "'"@ + a
            + "' is not valid CIDR notation (expected addr/prefixlen)"@,
{
}

/// The view of an error keeps its kind and all that is known of the cause.
pub proof fn law_view_keeps_errors(n: u32, a: String, b: String)
    ensures
        TunnelError::NoRemotes@ is NoRemotes,
        TunnelError::VniOutOfRange(n)@ == TunnelErrorView::VniOutOfRange(n),
        TunnelError::TooManyBridges(n)@ == TunnelErrorView::TooManyBridges(n),
        TunnelError::BridgeExists(a)@ == TunnelErrorView::BridgeExists(a@),
        (TunnelError::CreateNotRun { name: a, error: b })@ == (TunnelErrorView::CreateNotRun {
            name: a@,
            error: b@,
        }),
        (TunnelError::CreateFailed { name: a, status: b })@ == (TunnelErrorView::CreateFailed {
            name: a@,
            status: b@,
        }),
        TunnelError::BindFailed(a)@ == TunnelErrorView::BindFailed(a@),
        TunnelError::VmnetUnavailable@ is VmnetUnavailable,
        TunnelError::BridgeNotFound@ is BridgeNotFound,
        (TunnelError::UnexpectedBridge { created: a, vni: n })@ == (
        TunnelErrorView::UnexpectedBridge { created: a@, vni: n }),
        TunnelError::Inet4NotRun(a)@ == TunnelErrorView::Inet4NotRun(a@),
        (TunnelError::Inet4Failed { cidr: a, iface: b })@ == (TunnelErrorView::Inet4Failed {
            cidr: a@,
            iface: b@,
        }),
        TunnelError::Inet6NotRun(a)@ == TunnelErrorView::Inet6NotRun(a@),
        (TunnelError::Inet6Failed { cidr: a, iface: b })@ == (TunnelErrorView::Inet6Failed {
            cidr: a@,
            iface: b@,
        }),
        TunnelError::InvalidCidr(a)@ == TunnelErrorView::InvalidCidr(a@),
{
}

} // verus!
