//! The text that `ifconfig` prints and the arguments that it is given.

use crate::error::{TunnelError, TunnelErrorView};
use crate::text::{
    before, cut, first_whitespace_separated, first_word, law_first_word_is_a_word,
    law_trimmed_has_no_outer_space, lemma_find, lines, slices_view, split_once, strings_view, strip_prefix,
    text_lines, trim, trim_start, trimmed, white_space, without_prefix,
};
use vstd::prelude::*;
use vstd::string::StrSliceExecFns;
use vstd::utf8::{decode_utf8, valid_utf8};

verus! {

/// What came of running a command without reading its output.
#[derive(Debug)]
pub enum RunOutcome {
    /// The command could not be run; what the system says about it.
    NotRun(String),
    /// The command ended.
    Exited {
        /// Whether it reported success.
        success: bool,
        /// Its exit status, as text.
        status: String,
    },
}

/// `RunOutcome` with its texts as character sequences.
pub enum RunOutcomeView {
    NotRun(Seq<char>),
    Exited { success: bool, status: Seq<char> },
}

impl View for RunOutcome {
    type V = RunOutcomeView;

    open spec fn view(&self) -> RunOutcomeView {
        match *self {
            RunOutcome::NotRun(error) => RunOutcomeView::NotRun(error@),
            RunOutcome::Exited { success, status } => RunOutcomeView::Exited {
                success,
                status: status@,
            },
        }
    }
}

/// The values that `f` gives for the elements of `s`, where it gives one.
pub open spec fn collected(
    s: Seq<Seq<char>>,
    f: spec_fn(Seq<char>) -> Option<Seq<char>>,
) -> Seq<Seq<char>>
    decreases s.len(),
{
    if s.len() == 0 {
        seq![]
    } else {
        match f(s.last()) {
            Some(x) => collected(s.drop_last(), f).push(x),
            None => collected(s.drop_last(), f),
        }
    }
}

/// The bridge that a line of `ifconfig -a` introduces: the line is not
/// indented and its part in front of the first colon, trimmed, starts with
/// "bridge".
pub open spec fn bridge_of_line(line: Seq<char>) -> Option<Seq<char>> {
    let name = trimmed(before(line, ':'));
    if line.len() > 0 && (line[0] == '\t' || line[0] == ' ') {
        None
    } else if "bridge"@.is_prefix_of(name) {
        Some(name)
    } else {
        None
    }
}

/// The bridges that a listing introduces, in its order.
pub open spec fn bridge_names(listing: Seq<char>) -> Seq<Seq<char>> {
    collected(text_lines(listing), |line: Seq<char>| bridge_of_line(line))
}

/// The IPv4 address that a line of an interface's description holds: the
/// first word behind "inet ", with which the trimmed line starts.
pub open spec fn inet4_of_line(line: Seq<char>) -> Option<Seq<char>> {
    match without_prefix(trimmed(line), "inet "@) {
        Some(rest) => first_word(rest),
        None => None,
    }
}

/// The IPv4 addresses in the description of an interface, in its order.
pub open spec fn inet4_addrs(description: Seq<char>) -> Seq<Seq<char>> {
    collected(text_lines(description), |line: Seq<char>| inet4_of_line(line))
}

/// The text that a command printed: nothing where it could not be run or
/// printed something else than UTF-8.
pub open spec fn printed(output: Option<Seq<u8>>) -> Option<Seq<char>> {
    match output {
        Some(bytes) => if valid_utf8(bytes) {
            Some(decode_utf8(bytes))
        } else {
            None
        },
        None => None,
    }
}

/// The bridges in what `ifconfig -a` printed.
pub open spec fn listed_bridges(output: Option<Seq<u8>>) -> Seq<Seq<char>> {
    match printed(output) {
        Some(text) => bridge_names(text),
        None => seq![],
    }
}

/// The view of an optional output.
pub open spec fn output_view(output: Option<Vec<u8>>) -> Option<Seq<u8>> {
    match output {
        Some(bytes) => Some(bytes@),
        None => None,
    }
}

/// `std::str::from_utf8`: the text that the bytes encode, exactly where they
/// are valid UTF-8.
#[verifier::external_body]
fn utf8_text(bytes: &[u8]) -> (r: Option<&str>)
    ensures
        r is Some <==> valid_utf8(bytes@),
        r matches Some(text) ==> text@ == decode_utf8(bytes@),
{
    std::str::from_utf8(bytes).ok()
}

/// The text that a command printed.
fn printed_text(output: &Option<Vec<u8>>) -> (r: Option<&str>)
    ensures
        r is Some <==> printed(output_view(*output)) is Some,
        r matches Some(text) ==> printed(output_view(*output)) == Some(text@),
{
    match output {
        Some(bytes) => utf8_text(bytes.as_slice()),
        None => None,
    }
}

/// The bridge that a line of `ifconfig -a` introduces.
fn line_bridge(line: &str) -> (r: Option<&str>)
    ensures
        r is Some <==> bridge_of_line(line@) is Some,
        r matches Some(name) ==> bridge_of_line(line@) == Some(name@),
{
    if !line.is_empty() {
        let c = line.get_char(0);
        if c == '\t' || c == ' ' {
            return None;
        }
    }
    let head = match split_once(line, ':') {
        Some((head, _)) => head,
        None => line,
    };
    proof {
        lemma_find(line@, ':');
        assert(line@.take(line@.len() as int) =~= line@);
    }
    let name = trim(head);
    match strip_prefix(name, "bridge") {
        Some(_) => Some(name),
        None => None,
    }
}

/// The bridges that a listing introduces, in its order.
pub fn parse_bridge_names(ifconfig_output: &str) -> (names: Vec<String>)
    ensures
        strings_view(names@) == bridge_names(ifconfig_output@),
{
    let ls = lines(ifconfig_output);
    let ghost all = text_lines(ifconfig_output@);
    let ghost f = |line: Seq<char>| bridge_of_line(line);
    let mut names: Vec<String> = Vec::new();
    let mut i: usize = 0;
    assert(strings_view(names@) =~= collected(all.take(0), f));
    while i < ls.len()
        invariant
            i <= ls@.len(),
            slices_view(ls@) == all,
            f == (|line: Seq<char>| bridge_of_line(line)),
            strings_view(names@) == collected(all.take(i as int), f),
        decreases ls@.len() - i,
    {
        let ghost sofar = strings_view(names@);
        assert(ls@[i as int]@ == all[i as int]);
        if let Some(name) = line_bridge(ls[i]) {
            names.push(name.to_owned());
            assert(strings_view(names@) =~= sofar.push(name@));
        }
        i += 1;
        assert(all.take(i as int).drop_last() =~= all.take(i - 1));
    }
    assert(all.take(i as int) =~= all);
    names
}

/// The IPv4 address that a line of an interface's description holds.
fn line_inet4(line: &str) -> (r: Option<&str>)
    ensures
        r is Some <==> inet4_of_line(line@) is Some,
        r matches Some(addr) ==> inet4_of_line(line@) == Some(addr@),
{
    match strip_prefix(trim(line), "inet ") {
        Some(rest) => first_whitespace_separated(rest),
        None => None,
    }
}

/// The IPv4 addresses in the description of an interface, in its order.
pub fn parse_inet4_addrs(ifconfig_output: &str) -> (addrs: Vec<String>)
    ensures
        strings_view(addrs@) == inet4_addrs(ifconfig_output@),
{
    let ls = lines(ifconfig_output);
    let ghost all = text_lines(ifconfig_output@);
    let ghost f = |line: Seq<char>| inet4_of_line(line);
    let mut addrs: Vec<String> = Vec::new();
    let mut i: usize = 0;
    assert(strings_view(addrs@) =~= collected(all.take(0), f));
    while i < ls.len()
        invariant
            i <= ls@.len(),
            slices_view(ls@) == all,
            f == (|line: Seq<char>| inet4_of_line(line)),
            strings_view(addrs@) == collected(all.take(i as int), f),
        decreases ls@.len() - i,
    {
        let ghost sofar = strings_view(addrs@);
        assert(ls@[i as int]@ == all[i as int]);
        if let Some(addr) = line_inet4(ls[i]) {
            addrs.push(addr.to_owned());
            assert(strings_view(addrs@) =~= sofar.push(addr@));
        }
        i += 1;
        assert(all.take(i as int).drop_last() =~= all.take(i - 1));
    }
    assert(all.take(i as int) =~= all);
    addrs
}

/// The bridges in what `ifconfig -a` printed; none where it could not be run
/// or printed something else than text.
pub fn list_bridge_interfaces(output: &Option<Vec<u8>>) -> (names: Vec<String>)
    ensures
        strings_view(names@) == listed_bridges(output_view(*output)),
{
    match printed_text(output) {
        Some(text) => parse_bridge_names(text),
        None => {
            let names: Vec<String> = Vec::new();
            assert(strings_view(names@) =~= seq![]);
            names
        },
    }
}

/// Cuts a text in CIDR notation into address and prefix length.
pub fn parse_cidr(cidr: &str) -> (r: Result<(&str, &str), TunnelError>)
    ensures
        match r {
            Ok(p) => cut(cidr@, '/') == Some((p.0@, p.1@)),
            Err(e) => cut(cidr@, '/') is None && e@ == TunnelErrorView::InvalidCidr(cidr@),
        },
{
    match split_once(cidr, '/') {
        Some(p) => Ok(p),
        None => Err(TunnelError::InvalidCidr(cidr.to_owned())),
    }
}

/// The arguments that list all interfaces.
pub open spec fn list_args() -> Seq<Seq<char>> {
    seq!["-a"@]
}

/// The arguments that describe an interface.
pub open spec fn show_args(iface: Seq<char>) -> Seq<Seq<char>> {
    seq![iface]
}

/// The arguments that create an interface.
pub open spec fn create_args(name: Seq<char>) -> Seq<Seq<char>> {
    seq![name, "create"@]
}

/// The arguments that destroy an interface.
pub open spec fn destroy_args(name: Seq<char>) -> Seq<Seq<char>> {
    seq![name, "destroy"@]
}

/// The arguments that take an IPv4 address from an interface.
pub open spec fn delete_args(iface: Seq<char>, addr: Seq<char>) -> Seq<Seq<char>> {
    seq![iface, "inet"@, addr, "delete"@]
}

/// The arguments that give an interface an IPv4 address in CIDR notation.
pub open spec fn inet4_args(iface: Seq<char>, cidr: Seq<char>) -> Seq<Seq<char>> {
    seq![iface, "inet"@, cidr, "alias"@]
}

/// The arguments that give an interface an IPv6 address.
pub open spec fn inet6_args(iface: Seq<char>, addr: Seq<char>, prefixlen: Seq<char>) -> Seq<
    Seq<char>,
> {
    seq![iface, "inet6"@, addr, "prefixlen"@, prefixlen, "alias"@]
}

/// The commands that take from `iface` every IPv4 address that its
/// description lists.
pub open spec fn removals(iface: Seq<char>, description: Seq<char>) -> Seq<Seq<Seq<char>>> {
    inet4_addrs(description).map_values(|addr: Seq<char>| delete_args(iface, addr))
}

/// The commands that take from `iface` every IPv4 address in what
/// `ifconfig` printed of it.
pub open spec fn all_removals(iface: Seq<char>, output: Option<Seq<u8>>) -> Seq<Seq<Seq<char>>> {
    match printed(output) {
        Some(description) => removals(iface, description),
        None => seq![],
    }
}

/// What the attempt to assign an IPv4 address comes to.
pub open spec fn inet4_assigned(
    iface: Seq<char>,
    cidr: Seq<char>,
    outcome: RunOutcomeView,
) -> Result<(), TunnelErrorView> {
    match outcome {
        RunOutcomeView::NotRun(error) => Err(TunnelErrorView::Inet4NotRun(error)),
        RunOutcomeView::Exited { success, .. } => if success {
            Ok(())
        } else {
            Err(TunnelErrorView::Inet4Failed { cidr, iface })
        },
    }
}

/// What the attempt to assign an IPv6 address comes to.
pub open spec fn inet6_assigned(
    iface: Seq<char>,
    cidr: Seq<char>,
    outcome: RunOutcomeView,
) -> Result<(), TunnelErrorView> {
    if cut(cidr, '/') is None {
        Err(TunnelErrorView::InvalidCidr(cidr))
    } else {
        match outcome {
            RunOutcomeView::NotRun(error) => Err(TunnelErrorView::Inet6NotRun(error)),
            RunOutcomeView::Exited { success, .. } => if success {
                Ok(())
            } else {
                Err(TunnelErrorView::Inet6Failed { cidr, iface })
            },
        }
    }
}

/// The views of a vector of commands.
pub open spec fn commands_view(commands: Seq<Vec<String>>) -> Seq<Seq<Seq<char>>> {
    Seq::new(commands.len(), |i: int| strings_view(commands[i]@))
}

/// Arguments made of `parts`.
fn arguments(parts: &[&str]) -> (args: Vec<String>)
    ensures
        strings_view(args@) == slices_view(parts@),
{
    let mut args: Vec<String> = Vec::new();
    let mut i: usize = 0;
    while i < parts.len()
        invariant
            i <= parts@.len(),
            args@.len() == i,
            forall|j: int| 0 <= j < i ==> args@[j]@ == parts@[j]@,
        decreases parts@.len() - i,
    {
        args.push(parts[i].to_owned());
        i += 1;
    }
    assert(strings_view(args@) =~= slices_view(parts@));
    args
}

/// The arguments that list all interfaces.
pub fn list_interfaces_args() -> (args: Vec<String>)
    ensures
        strings_view(args@) == list_args(),
{
    let args = arguments(&["-a"]);
    assert(strings_view(args@) =~= list_args());
    args
}

/// The arguments that describe an interface.
pub fn show_interface_args(iface: &str) -> (args: Vec<String>)
    ensures
        strings_view(args@) == show_args(iface@),
{
    let args = arguments(&[iface]);
    assert(strings_view(args@) =~= show_args(iface@));
    args
}

/// The arguments that create an interface.
pub fn create_interface_args(name: &str) -> (args: Vec<String>)
    ensures
        strings_view(args@) == create_args(name@),
{
    let args = arguments(&[name, "create"]);
    assert(strings_view(args@) =~= create_args(name@));
    args
}

/// The arguments that destroy an interface.
pub fn destroy_interface_args(name: &str) -> (args: Vec<String>)
    ensures
        strings_view(args@) == destroy_args(name@),
{
    let args = arguments(&[name, "destroy"]);
    assert(strings_view(args@) =~= destroy_args(name@));
    args
}

/// The commands that take from `iface` each address that `ifconfig_output`
/// lists.
pub fn remove_inet4_addrs(iface: &str, ifconfig_output: &str) -> (commands: Vec<Vec<String>>)
    ensures
        commands_view(commands@) == removals(iface@, ifconfig_output@),
{
    let addrs = parse_inet4_addrs(ifconfig_output);
    let mut commands: Vec<Vec<String>> = Vec::new();
    let mut i: usize = 0;
    while i < addrs.len()
        invariant
            i <= addrs@.len(),
            commands@.len() == i,
            forall|j: int|
                0 <= j < i ==> strings_view(#[trigger] commands@[j]@) == delete_args(
                    iface@,
                    addrs@[j]@,
                ),
        decreases addrs@.len() - i,
    {
        let command = arguments(&[iface, "inet", addrs[i].as_str(), "delete"]);
        assert(strings_view(command@) =~= delete_args(iface@, addrs@[i as int]@));
        commands.push(command);
        i += 1;
    }
    assert(commands_view(commands@) =~= removals(iface@, ifconfig_output@)) by {
        let found = inet4_addrs(ifconfig_output@);
        assert(found =~= strings_view(addrs@));
        assert forall|j: int| 0 <= j < commands@.len() implies commands_view(commands@)[j]
            == removals(iface@, ifconfig_output@)[j] by {
            assert(found[j] == addrs@[j]@);
        }
    }
    commands
}

/// The commands that take all IPv4 addresses from an interface, given what
/// `ifconfig` printed of it; none where that is not known.
pub fn remove_all_inet4(iface: &str, output: &Option<Vec<u8>>) -> (commands: Vec<Vec<String>>)
    ensures
        commands_view(commands@) == all_removals(iface@, output_view(*output)),
{
    match printed_text(output) {
        Some(text) => remove_inet4_addrs(iface, text),
        None => {
            let commands: Vec<Vec<String>> = Vec::new();
            assert(commands_view(commands@) =~= seq![]);
            commands
        },
    }
}

/// The arguments that give an interface an IPv4 address in CIDR notation
/// (e.g. "192.168.100.1/24").
pub fn assign_inet4_args(iface: &str, cidr: &str) -> (args: Vec<String>)
    ensures
        strings_view(args@) == inet4_args(iface@, cidr@),
{
    let args = arguments(&[iface, "inet", cidr, "alias"]);
    assert(strings_view(args@) =~= inet4_args(iface@, cidr@));
    args
}

/// What the attempt to assign an IPv4 address comes to.
pub fn assign_inet4(iface: &str, cidr: &str, outcome: RunOutcome) -> (r: Result<(), TunnelError>)
    ensures
        match r {
            Ok(_) => inet4_assigned(iface@, cidr@, outcome@) == Ok::<(), TunnelErrorView>(()),
            Err(e) => inet4_assigned(iface@, cidr@, outcome@) == Err::<(), TunnelErrorView>(e@),
        },
{
    match outcome {
        RunOutcome::NotRun(error) => Err(TunnelError::Inet4NotRun(error)),
        RunOutcome::Exited { success, .. } => if success {
            Ok(())
        } else {
            Err(TunnelError::Inet4Failed { cidr: cidr.to_owned(), iface: iface.to_owned() })
        },
    }
}

/// The arguments that give an interface an IPv6 address in CIDR notation
/// (e.g. "fd00::1/64").
pub fn assign_inet6_args(iface: &str, cidr: &str) -> (r: Result<Vec<String>, TunnelError>)
    ensures
        match r {
            Ok(args) => cut(cidr@, '/') matches Some(p) && strings_view(args@) == inet6_args(
                iface@,
                p.0,
                p.1,
            ),
            Err(e) => cut(cidr@, '/') is None && e@ == TunnelErrorView::InvalidCidr(cidr@),
        },
{
    let (addr, prefixlen) = match parse_cidr(cidr) {
        Ok(p) => p,
        Err(e) => {
            return Err(e);
        },
    };
    let args = arguments(&[iface, "inet6", addr, "prefixlen", prefixlen, "alias"]);
    assert(strings_view(args@) =~= inet6_args(iface@, addr@, prefixlen@));
    Ok(args)
}

/// What the attempt to assign an IPv6 address comes to; a text that is not in
/// CIDR notation is refused whatever the command did.
pub fn assign_inet6(iface: &str, cidr: &str, outcome: RunOutcome) -> (r: Result<(), TunnelError>)
    ensures
        match r {
            Ok(_) => inet6_assigned(iface@, cidr@, outcome@) == Ok::<(), TunnelErrorView>(()),
            Err(e) => inet6_assigned(iface@, cidr@, outcome@) == Err::<(), TunnelErrorView>(e@),
        },
{
    if let Err(e) = parse_cidr(cidr) {
        return Err(e);
    }
    match outcome {
        RunOutcome::NotRun(error) => Err(TunnelError::Inet6NotRun(error)),
        RunOutcome::Exited { success, .. } => if success {
            Ok(())
        } else {
            Err(TunnelError::Inet6Failed { cidr: cidr.to_owned(), iface: iface.to_owned() })
        },
    }
}

proof fn lemma_collected(s: Seq<Seq<char>>, f: spec_fn(Seq<char>) -> Option<Seq<char>>, k: int)
    requires
        0 <= k < collected(s, f).len(),
    ensures
        exists|i: int| 0 <= i < s.len() && f(#[trigger] s[i]) == Some(collected(s, f)[k]),
    decreases s.len(),
{
    let prior = s.drop_last();
    if k < collected(prior, f).len() {
        lemma_collected(prior, f, k);
        let i = choose|i: int|
            0 <= i < prior.len() && f(#[trigger] prior[i]) == Some(collected(prior, f)[k]);
        assert(s[i] == prior[i]);
        assert(collected(s, f)[k] == collected(prior, f)[k]);
    } else {
        assert(f(s[s.len() - 1]) == Some(collected(s, f)[k]));
    }
}

/// Every name in the list of bridges starts with "bridge", neither starts nor
/// ends with white space, and stands on a line that is not indented.
pub proof fn law_listed_names_are_bridges(listing: Seq<char>, k: int)
    requires
        0 <= k < bridge_names(listing).len(),
    ensures
        "bridge"@.is_prefix_of(bridge_names(listing)[k]),
        !white_space(bridge_names(listing)[k].last()),
        exists|i: int|
            {
                &&& 0 <= i < text_lines(listing).len()
                &&& bridge_of_line(#[trigger] text_lines(listing)[i]) == Some(
                    bridge_names(listing)[k],
                )
                &&& text_lines(listing)[i].len() > 0 ==> text_lines(listing)[i][0] != '\t'
                    && text_lines(listing)[i][0] != ' '
            },
{
    let ls = text_lines(listing);
    let f = |line: Seq<char>| bridge_of_line(line);
    lemma_collected(ls, f, k);
    let i = choose|i: int| 0 <= i < ls.len() && f(#[trigger] ls[i]) == Some(collected(ls, f)[k]);
    assert(bridge_of_line(ls[i]) == Some(bridge_names(listing)[k]));
    law_trimmed_has_no_outer_space(before(ls[i], ':'));
    reveal_strlit("bridge");
}

/// Every address that is found is a word: not empty and free of white space.
pub proof fn law_found_addresses_are_words(description: Seq<char>, k: int)
    requires
        0 <= k < inet4_addrs(description).len(),
    ensures
        inet4_addrs(description)[k].len() > 0,
        forall|j: int|
            0 <= j < inet4_addrs(description)[k].len() ==> !white_space(
                #[trigger] inet4_addrs(description)[k][j],
            ),
{
    let ls = text_lines(description);
    let f = |line: Seq<char>| inet4_of_line(line);
    lemma_collected(ls, f, k);
    let i = choose|i: int| 0 <= i < ls.len() && f(#[trigger] ls[i]) == Some(collected(ls, f)[k]);
    assert(inet4_of_line(ls[i]) == Some(inet4_addrs(description)[k]));
    law_first_word_is_a_word(without_prefix(trimmed(ls[i]), "inet "@)->0);
}

/// A line that starts with "inet " holds an address: the word that follows is
/// never missing.
pub proof fn law_inet_lines_hold_an_address(line: Seq<char>)
    requires
        "inet "@.is_prefix_of(trimmed(line)),
    ensures
        inet4_of_line(line) is Some,
{
    let t = trimmed(line);
    let rest = t.skip("inet "@.len() as int);
    reveal_strlit("inet ");
    law_trimmed_has_no_outer_space(line);
    assert(t[4] == t.subrange(0, 5)[4]);
    assert(white_space(t[4]));
    assert(t.len() > 5);
    assert(rest.last() == t.last());
    lemma_trim_start_keeps(rest, rest.len() - 1);
}

/// A text that holds more than white space is not trimmed away.
proof fn lemma_trim_start_keeps(s: Seq<char>, i: int)
    requires
        0 <= i < s.len(),
        !white_space(s[i]),
    ensures
        trim_start(s).len() > 0,
    decreases s.len(),
{
    if white_space(s[0]) {
        assert(s.drop_first()[i - 1] == s[i]);
        lemma_trim_start_keeps(s.drop_first(), i - 1);
    }
}

/// Lines about other address families hold no IPv4 address.
pub proof fn law_inet6_lines_are_ignored(line: Seq<char>)
    requires
        "inet6"@.is_prefix_of(trimmed(line)),
    ensures
        inet4_of_line(line) is None,
{
    let t = trimmed(line);
    reveal_strlit("inet ");
    reveal_strlit("inet6");
    if "inet "@.is_prefix_of(t) {
        assert("inet "@[4] == t.subrange(0, 5)[4]);
        assert("inet6"@[4] == t.subrange(0, 5)[4]);
    }
}

/// One removal per address that is found, for the interface itself and in the
/// order of its description.
pub proof fn law_every_address_is_removed(iface: Seq<char>, description: Seq<char>)
    ensures
        removals(iface, description).len() == inet4_addrs(description).len(),
        forall|i: int|
            0 <= i < removals(iface, description).len() ==> #[trigger] removals(
                iface,
                description,
            )[i] == delete_args(iface, inet4_addrs(description)[i]),
{
}

/// What is collected is what a filter lets through, mapped in order.
proof fn lemma_collected_is_filtered(
    s: Seq<Seq<char>>,
    f: spec_fn(Seq<char>) -> Option<Seq<char>>,
    keep: spec_fn(Seq<char>) -> bool,
    g: spec_fn(Seq<char>) -> Seq<char>,
)
    requires
        forall|x: Seq<char>|
            #[trigger] f(x) == (if keep(x) {
                Some(g(x))
            } else {
                None
            }),
    ensures
        collected(s, f) == s.filter(keep).map_values(g),
    decreases s.len(),
{
    reveal(Seq::filter);
    if s.len() == 0 {
        assert(collected(s, f) =~= s.filter(keep).map_values(g));
    } else {
        lemma_collected_is_filtered(s.drop_last(), f, keep, g);
        assert(f(s.last()) is Some <==> keep(s.last()));
        assert(collected(s, f) =~= s.filter(keep).map_values(g));
    }
}

/// The list of bridges is complete: it has one element for each line that
/// starts with neither tab nor blank and whose part in front of the first colon,
/// trimmed, starts with "bridge", whatever else the line holds; that part is the
/// element; and the elements stand in the order of the lines.
pub proof fn law_bridge_list_is_complete(listing: Seq<char>)
    ensures
        bridge_names(listing) == text_lines(listing).filter(
            |line: Seq<char>|
                (line.len() == 0 || (line[0] != '\t' && line[0] != ' ')) && "bridge"@.is_prefix_of(
                    trimmed(before(line, ':')),
                ),
        ).map_values(|line: Seq<char>| trimmed(before(line, ':'))),
{
    let keep = |line: Seq<char>|
        (line.len() == 0 || (line[0] != '\t' && line[0] != ' ')) && "bridge"@.is_prefix_of(
            trimmed(before(line, ':')),
        );
    let g = |line: Seq<char>| trimmed(before(line, ':'));
    lemma_collected_is_filtered(
        text_lines(listing),
        |line: Seq<char>| bridge_of_line(line),
        keep,
        g,
    );
}

/// No bridge is overlooked: a line that starts with neither tab nor blank and
/// has "bridge" at the start of the trimmed part in front of its first colon
/// puts that part on the list.
pub proof fn law_no_bridge_is_overlooked(listing: Seq<char>, i: int)
    requires
        0 <= i < text_lines(listing).len(),
        text_lines(listing)[i].len() == 0 || (text_lines(listing)[i][0] != '\t'
            && text_lines(listing)[i][0] != ' '),
        "bridge"@.is_prefix_of(trimmed(before(text_lines(listing)[i], ':'))),
    ensures
        bridge_names(listing).contains(trimmed(before(text_lines(listing)[i], ':'))),
{
    lemma_collected_holds(text_lines(listing), |line: Seq<char>| bridge_of_line(line), i);
}

/// The list of addresses is complete: it has one element for each line that,
/// trimmed, starts with "inet ", namely the first word behind that; and the
/// elements stand in the order of the lines.
pub proof fn law_address_list_is_complete(description: Seq<char>)
    ensures
        inet4_addrs(description) == text_lines(description).filter(
            |line: Seq<char>| "inet "@.is_prefix_of(trimmed(line)),
        ).map_values(|line: Seq<char>| first_word(trimmed(line).skip(5))->0),
{
    let keep = |line: Seq<char>| "inet "@.is_prefix_of(trimmed(line));
    let g = |line: Seq<char>| first_word(trimmed(line).skip(5))->0;
    let f = |line: Seq<char>| inet4_of_line(line);
    reveal_strlit("inet ");
    assert forall|line: Seq<char>|
        #[trigger] f(line) == (if keep(line) {
            Some(g(line))
        } else {
            None
        }) by {
        if keep(line) {
            law_inet_lines_hold_an_address(line);
        }
    }
    lemma_collected_is_filtered(text_lines(description), f, keep, g);
}

proof fn lemma_collected_holds(
    s: Seq<Seq<char>>,
    f: spec_fn(Seq<char>) -> Option<Seq<char>>,
    i: int,
)
    requires
        0 <= i < s.len(),
        f(s[i]) is Some,
    ensures
        collected(s, f).contains(f(s[i])->0),
    decreases s.len(),
{
    let prior = collected(s.drop_last(), f);
    if i < s.len() - 1 {
        lemma_collected_holds(s.drop_last(), f, i);
        let k = choose|k: int| 0 <= k < prior.len() && prior[k] == f(s[i])->0;
        assert(collected(s, f)[k] == prior[k]);
    } else {
        assert(collected(s, f)[prior.len() as int] == f(s[i])->0);
    }
}

/// A command's output is read as the text that it encodes; a command that could
/// not be run, and output that is not UTF-8, name no bridge and no address.
pub proof fn law_output_is_read_as_text(iface: Seq<char>, bytes: Seq<u8>)
    ensures
        valid_utf8(bytes) ==> listed_bridges(Some(bytes)) == bridge_names(decode_utf8(bytes)),
        valid_utf8(bytes) ==> all_removals(iface, Some(bytes)) == removals(
            iface,
            decode_utf8(bytes),
        ),
        !valid_utf8(bytes) ==> listed_bridges(Some(bytes)).len() == 0,
        !valid_utf8(bytes) ==> all_removals(iface, Some(bytes)).len() == 0,
        listed_bridges(None).len() == 0,
        all_removals(iface, None).len() == 0,
{
}

/// The words of every command, in their places: the interface comes first, the
/// verb last, and the operands stand behind what names them.
pub proof fn law_command_words(iface: Seq<char>, a: Seq<char>, b: Seq<char>)
    ensures
        list_args().len() == 1 && list_args()[0] == "-a"@,
        show_args(iface).len() == 1 && show_args(iface)[0] == iface,
        create_args(iface).len() == 2 && create_args(iface)[0] == iface && create_args(iface)[1]
            == "create"@,
        destroy_args(iface).len() == 2 && destroy_args(iface)[0] == iface && destroy_args(
            iface,
        )[1] == "destroy"@,
        delete_args(iface, a).len() == 4 && delete_args(iface, a)[0] == iface && delete_args(
            iface,
            a,
        )[1] == "inet"@ && delete_args(iface, a)[2] == a && delete_args(iface, a)[3] == "delete"@,
        inet4_args(iface, a).len() == 4 && inet4_args(iface, a)[0] == iface && inet4_args(
            iface,
            a,
        )[1] == "inet"@ && inet4_args(iface, a)[2] == a && inet4_args(iface, a)[3] == "alias"@,
        inet6_args(iface, a, b).len() == 6 && inet6_args(iface, a, b)[0] == iface && inet6_args(
            iface,
            a,
            b,
        )[1] == "inet6"@ && inet6_args(iface, a, b)[2] == a && inet6_args(iface, a, b)[3]
            == "prefixlen"@ && inet6_args(iface, a, b)[4] == b && inet6_args(iface, a, b)[5]
            == "alias"@,
{
}

/// An address is assigned exactly where its command ran and reported success,
/// and an IPv6 address only where it is in CIDR notation; the error tells a
/// command that could not be run, with what the system says, from one that
/// failed, with the address and the interface.
pub proof fn law_assignment_follows_its_command(
    iface: Seq<char>,
    cidr: Seq<char>,
    outcome: RunOutcomeView,
)
    ensures
        inet4_assigned(iface, cidr, outcome) is Ok <==> (outcome matches RunOutcomeView::Exited {
            success,
            ..
        } && success),
        inet6_assigned(iface, cidr, outcome) is Ok <==> cidr.contains('/') && (
        outcome matches RunOutcomeView::Exited { success, .. } && success),
        inet4_assigned(iface, cidr, outcome) matches Err(e) ==> match outcome {
            RunOutcomeView::NotRun(error) => e == TunnelErrorView::Inet4NotRun(error),
            RunOutcomeView::Exited { .. } => e == (TunnelErrorView::Inet4Failed { cidr, iface }),
        },
        inet6_assigned(iface, cidr, outcome) matches Err(e) ==> if cidr.contains('/') {
            match outcome {
                RunOutcomeView::NotRun(error) => e == TunnelErrorView::Inet6NotRun(error),
                RunOutcomeView::Exited { .. } => e == (TunnelErrorView::Inet6Failed {
                    cidr,
                    iface,
                }),
            }
        } else {
            e == TunnelErrorView::InvalidCidr(cidr)
        },
{
}

/// The views of outputs, outcomes and commands keep all that they hold.
pub proof fn law_views_keep_outcomes(
    bytes: Vec<u8>,
    text: String,
    success: bool,
    commands: Seq<Vec<String>>,
)
    ensures
        output_view(Some(bytes)) == Some(bytes@),
        output_view(None) is None,
        RunOutcome::NotRun(text)@ == RunOutcomeView::NotRun(text@),
        (RunOutcome::Exited { success, status: text })@ == (RunOutcomeView::Exited {
            success,
            status: text@,
        }),
        commands_view(commands).len() == commands.len(),
        forall|i: int, j: int|
            0 <= i < commands.len() && 0 <= j < commands[i]@.len() ==> #[trigger] commands_view(
                commands,
            )[i][j] == commands[i]@[j]@,
        forall|i: int|
            0 <= i < commands.len() ==> (#[trigger] commands_view(commands)[i]).len()
                == commands[i]@.len(),
{
}

} // verus!
