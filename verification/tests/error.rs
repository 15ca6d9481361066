use darwin_vxlan::error::TunnelError;

fn text(s: &str) -> String {
    s.to_string()
}

#[test]
fn messages_are_exact() {
    let cases = [
        (TunnelError::NoRemotes, "at least one remote VTEP endpoint is required"),
        (
            TunnelError::VniOutOfRange(16_777_216),
            "VNI 16777216 is outside the 24-bit VXLAN range",
        ),
        (
            TunnelError::TooManyBridges(5000),
            "cannot force bridge5000: refusing to create more than 3995 temporary bridge devices",
        ),
        (
            TunnelError::BridgeExists(text("bridge137")),
            "bridge137 already exists; refusing to use or disturb an existing bridge",
        ),
        (
            TunnelError::CreateNotRun { name: text("bridge100"), error: text("denied") },
            "create temporary bridge100: denied",
        ),
        (
            TunnelError::CreateFailed { name: text("bridge100"), status: text("exit status: 1") },
            "failed to create temporary bridge100 (exit exit status: 1)",
        ),
        (
            TunnelError::BindFailed(text("Address already in use (os error 48)")),
            "Failed to bind UDP socket: Address already in use (os error 48)",
        ),
        (
            TunnelError::VmnetUnavailable,
            "vmnet_ctx_start() failed \u{2014} run as root. \
             vmnet.framework requires root or the com.apple.vm.networking entitlement.",
        ),
        (
            TunnelError::BridgeNotFound,
            "Bridge interface not found after 3 s. Run `ifconfig -a` to inspect.",
        ),
        (
            TunnelError::UnexpectedBridge { created: text("bridge101"), vni: 199 },
            "vmnet created bridge101, expected bridge199 for VNI 199; \
             another interface may have raced the bridge allocator",
        ),
        (TunnelError::Inet4NotRun(text("denied")), "ifconfig inet failed: denied"),
        (
            TunnelError::Inet4Failed { cidr: text("10.0.0.1/24"), iface: text("bridge100") },
            "Failed to assign IPv4 10.0.0.1/24 to bridge100",
        ),
        (TunnelError::Inet6NotRun(text("denied")), "ifconfig inet6 failed: denied"),
        (
            TunnelError::Inet6Failed { cidr: text("fd00::1/64"), iface: text("bridge100") },
            "Failed to assign IPv6 fd00::1/64 to bridge100",
        ),
        (
            TunnelError::InvalidCidr(text("fd00::1")),
            "'fd00::1' is not valid CIDR notation (expected addr/prefixlen)",
        ),
    ];
    for (error, message) in cases {
        assert_eq!(error.message(), message);
    }
}
