use darwin_vxlan::error::TunnelError;
use darwin_vxlan::ifconfig::{
    assign_inet4, assign_inet4_args, assign_inet6, assign_inet6_args, create_interface_args,
    destroy_interface_args, list_bridge_interfaces, list_interfaces_args, parse_bridge_names,
    parse_cidr, parse_inet4_addrs, remove_all_inet4, remove_inet4_addrs, show_interface_args,
    RunOutcome,
};

#[test]
fn parse_bridges_empty_input() {
    assert!(parse_bridge_names("").is_empty());
}

#[test]
fn parse_bridges_no_bridge_interfaces() {
    let input = "lo0: flags=8049\n\tinet 127.0.0.1\nen0: flags=8863\n";
    assert!(parse_bridge_names(input).is_empty());
}

#[test]
fn parse_bridges_single() {
    let input = "en0: flags=8863\nbridge100: flags=8863\n\tinet 192.168.64.1\n";
    assert_eq!(parse_bridge_names(input), vec!["bridge100"]);
}

#[test]
fn parse_bridges_multiple() {
    let input = "bridge0: flags=1\nbridge1: flags=2\nutun0: flags=3\nbridge100: flags=4\n";
    assert_eq!(parse_bridge_names(input), vec!["bridge0", "bridge1", "bridge100"]);
}

#[test]
fn parse_bridges_ignores_indented_detail_lines() {
    let input = "bridge100: flags=8863\n\tether aa:bb:cc:dd:ee:ff\n\tinet 10.0.0.1\n";
    assert_eq!(parse_bridge_names(input), vec!["bridge100"]);
}

// parse_inet4_addrs

#[test]
fn parse_inet4_empty_input() {
    assert!(parse_inet4_addrs("").is_empty());
}

#[test]
fn parse_inet4_no_addresses() {
    assert!(parse_inet4_addrs("bridge100: flags=8863\n\tether aa:bb:cc:dd:ee:ff\n").is_empty());
}

#[test]
fn parse_inet4_single_address() {
    let input = "\tinet 192.168.64.1 netmask 0xffffff00 broadcast 192.168.64.255\n";
    assert_eq!(parse_inet4_addrs(input), vec!["192.168.64.1"]);
}

#[test]
fn parse_inet4_multiple_addresses() {
    let input = "\tinet 10.0.0.1 netmask 0xff000000\n\tinet 172.16.0.1 netmask 0xffff0000\n";
    assert_eq!(parse_inet4_addrs(input), vec!["10.0.0.1", "172.16.0.1"]);
}

#[test]
fn parse_inet4_ignores_inet6_lines() {
    let input = "\tinet6 fe80::1%bridge100 prefixlen 64\n\tinet 192.168.1.1 netmask 0xffffff00\n";
    assert_eq!(parse_inet4_addrs(input), vec!["192.168.1.1"]);
}

#[test]
fn parse_cidr_valid() {
    let (addr, prefix) = parse_cidr("fd00::1/64").unwrap();
    assert_eq!(addr, "fd00::1");
    assert_eq!(prefix, "64");
}

#[test]
fn parse_cidr_ipv4_notation() {
    let (addr, prefix) = parse_cidr("192.168.1.1/24").unwrap();
    assert_eq!(addr, "192.168.1.1");
    assert_eq!(prefix, "24");
}

#[test]
fn parse_cidr_missing_slash_returns_err() {
    assert!(parse_cidr("fd00::1").is_err());
}

#[test]
fn parse_cidr_cuts_at_the_first_slash() {
    assert_eq!(parse_cidr("a/b/c").unwrap(), ("a", "b/c"));
    assert_eq!(parse_cidr("/").unwrap(), ("", ""));
    assert_eq!(
        parse_cidr("fd00::1").unwrap_err().message(),
        "'fd00::1' is not valid CIDR notation (expected addr/prefixlen)",
    );
}

// What the text formats allow beyond the common case

#[test]
fn parse_bridges_takes_crlf_and_missing_colons() {
    let input = "bridge1: x\r\nbridge2\r\n bridge3: y\nbridge4 : z\nbridge5";
    assert_eq!(parse_bridge_names(input), vec!["bridge1", "bridge2", "bridge4", "bridge5"]);
}

#[test]
fn parse_bridges_takes_any_name_that_starts_with_bridge() {
    assert_eq!(parse_bridge_names("bridge\nbridgehead: 1\nBridge1: 2\n"), vec![
        "bridge",
        "bridgehead",
    ]);
}

#[test]
fn parse_bridges_trims_other_white_space() {
    assert_eq!(parse_bridge_names("\u{a0}bridge9\u{3000}: flags\n"), vec!["bridge9"]);
}

#[test]
fn parse_inet4_needs_the_blank() {
    assert!(parse_inet4_addrs("inet\ninet\t1.2.3.4\ninet6 ::1\n").is_empty());
    assert_eq!(parse_inet4_addrs("inet   1.2.3.4\tx\r\n"), vec!["1.2.3.4"]);
    assert!(parse_inet4_addrs("\tinet \n").is_empty());
}

// Output of commands

#[test]
fn list_bridge_interfaces_does_not_panic() {
    assert!(list_bridge_interfaces(&None).is_empty());
    let printed = Some(b"lo0: flags=8049\nbridge100: flags=8863\n\tinet 192.168.64.1\n".to_vec());
    assert_eq!(list_bridge_interfaces(&printed), vec!["bridge100"]);
}

#[test]
fn output_that_is_not_text_lists_nothing() {
    let mut bytes = b"bridge100: flags=8863\n".to_vec();
    bytes.push(0xFF);
    assert!(list_bridge_interfaces(&Some(bytes.clone())).is_empty());
    assert!(remove_all_inet4("bridge100", &Some(bytes)).is_empty());
}

#[test]
fn output_is_read_as_utf8() {
    let printed = Some("bridge\u{e9}\u{20ac}: flags\n".as_bytes().to_vec());
    assert_eq!(list_bridge_interfaces(&printed), vec!["bridge\u{e9}\u{20ac}"]);
}

#[test]
fn remove_all_inet4_nonexistent_iface_is_noop() {
    // The command prints nothing on its standard output, or is not there.
    assert!(remove_all_inet4("darwin_vxlan_test_nonexistent", &Some(Vec::new())).is_empty());
    assert!(remove_all_inet4("darwin_vxlan_test_nonexistent", &None).is_empty());
}

#[test]
fn remove_inet4_addrs_executes_delete_for_each_address() {
    let fake_output = "\tinet 10.0.0.1 netmask 0xffffff00 broadcast 10.0.0.255\n\
                       \tinet 10.0.0.2 netmask 0xffffff00\n";
    let commands = remove_inet4_addrs("darwin_vxlan_test_nonexistent", fake_output);
    assert_eq!(commands, vec![
        vec!["darwin_vxlan_test_nonexistent", "inet", "10.0.0.1", "delete"],
        vec!["darwin_vxlan_test_nonexistent", "inet", "10.0.0.2", "delete"],
    ]);
}

#[test]
fn remove_all_inet4_reads_the_output() {
    let printed = Some(b"bridge100: flags\n\tinet6 fe80::1\n\tinet 10.0.0.1 netmask 0\n".to_vec());
    assert_eq!(remove_all_inet4("bridge100", &printed), vec![
        vec!["bridge100", "inet", "10.0.0.1", "delete"],
    ]);
}

// Assigning addresses

fn exited(success: bool) -> RunOutcome {
    let status = if success { "exit status: 0" } else { "exit status: 1" };
    RunOutcome::Exited { success, status: status.to_string() }
}

#[test]
fn assign_inet4_fails_for_nonexistent_iface() {
    let result = assign_inet4("darwin_vxlan_test_nonexistent", "192.168.200.1/24", exited(false));
    assert!(result.is_err());
    assert_eq!(
        result.unwrap_err().message(),
        "Failed to assign IPv4 192.168.200.1/24 to darwin_vxlan_test_nonexistent",
    );
}

#[test]
fn assign_inet6_fails_for_nonexistent_iface() {
    let result = assign_inet6("darwin_vxlan_test_nonexistent", "fd00::1/64", exited(false));
    assert!(result.is_err());
    assert_eq!(
        result.unwrap_err().message(),
        "Failed to assign IPv6 fd00::1/64 to darwin_vxlan_test_nonexistent",
    );
}

#[test]
fn assign_inet6_fails_for_missing_slash() {
    let result = assign_inet6("bridge0", "fd00::1", exited(true));
    assert!(result.is_err());
    assert!(matches!(result, Err(TunnelError::InvalidCidr(_))));
    assert!(assign_inet6_args("bridge0", "fd00::1").is_err());
}

#[test]
fn assignments_succeed_where_the_command_does() {
    assert!(assign_inet4("bridge100", "10.0.0.1/24", exited(true)).is_ok());
    assert!(assign_inet6("bridge100", "fd00::1/64", exited(true)).is_ok());
}

#[test]
fn assignments_fail_where_the_command_cannot_be_run() {
    let missing = || RunOutcome::NotRun("No such file or directory".to_string());
    assert_eq!(
        assign_inet4("bridge100", "10.0.0.1/24", missing()).unwrap_err().message(),
        "ifconfig inet failed: No such file or directory",
    );
    assert_eq!(
        assign_inet6("bridge100", "fd00::1/64", missing()).unwrap_err().message(),
        "ifconfig inet6 failed: No such file or directory",
    );
}

#[test]
fn arguments_are_exact() {
    assert_eq!(list_interfaces_args(), vec!["-a"]);
    assert_eq!(show_interface_args("bridge100"), vec!["bridge100"]);
    assert_eq!(create_interface_args("bridge100"), vec!["bridge100", "create"]);
    assert_eq!(destroy_interface_args("bridge100"), vec!["bridge100", "destroy"]);
    assert_eq!(
        assign_inet4_args("bridge100", "10.0.0.1/24"),
        vec!["bridge100", "inet", "10.0.0.1/24", "alias"],
    );
    assert_eq!(
        assign_inet6_args("bridge100", "fd00::1/64").unwrap(),
        vec!["bridge100", "inet6", "fd00::1", "prefixlen", "64", "alias"],
    );
}
