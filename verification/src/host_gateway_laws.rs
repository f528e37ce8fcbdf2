//! What holds of every selection of the host gateway.

use crate::host_gateway;
use crate::host_gateway::{
    HostAddress, HostGatewayError, HostsFile, ResolveFault,
};
use crate::text;
use crate::text::CharClass;
use vstd::prelude::*;

verus! {

/// An IPv4 address is refused as unsafe only if it is the cloud metadata
/// address 169.254.169.254, or its first octet is 0, 127 or at least 224. Any
/// other IPv4 address that stands alone is selected.
pub proof fn lone_ipv4_address_is_selected_unless_unsafe(a: u8, b: u8, c: u8, d: u8)
    ensures
        host_gateway::selected(seq![Some(HostAddress::V4(a, b, c, d))]) == if a == 0 || a == 127
            || a >= 224 || (a == 169 && b == 254 && c == 169 && d == 254) {
            Err::<Option<HostAddress>, HostGatewayError>(HostGatewayError::UnsafeAddress)
        } else {
            Ok(Some(HostAddress::V4(a, b, c, d)))
        },
{
    lemma_lone(Some(HostAddress::V4(a, b, c, d)));
}

/// An IPv6 address that maps no IPv4 address is refused as unsafe only if it is
/// `::`, `::1`, a multicast address `ff00::/8`, or the cloud metadata address
/// `fd00:ec2::254`. Any other one that stands alone is selected.
pub proof fn lone_ipv6_address_is_selected_unless_unsafe(
    g0: u16,
    g1: u16,
    g2: u16,
    g3: u16,
    g4: u16,
    g5: u16,
    g6: u16,
    g7: u16,
)
    requires
        !(g0 == 0 && g1 == 0 && g2 == 0 && g3 == 0 && g4 == 0 && g5 == 0xffff),
    ensures
        ({
            let address = HostAddress::V6(g0, g1, g2, g3, g4, g5, g6, g7);
            host_gateway::selected(seq![Some(address)]) == if address == HostAddress::V6(
                0,
                0,
                0,
                0,
                0,
                0,
                0,
                0,
            ) || address == HostAddress::V6(0, 0, 0, 0, 0, 0, 0, 1) || 0xff00 <= g0 || address
                == HostAddress::V6(0xfd00, 0x0ec2, 0, 0, 0, 0, 0, 0x0254) {
                Err::<Option<HostAddress>, HostGatewayError>(HostGatewayError::UnsafeAddress)
            } else {
                Ok(Some(address))
            }
        }),
{
    lemma_lone(Some(HostAddress::V6(g0, g1, g2, g3, g4, g5, g6, g7)));
}

proof fn lemma_lone(address: Option<HostAddress>)
    ensures
        host_gateway::found_in(seq![address]) == host_gateway::found_next(
            host_gateway::Found { ipv4: None, ipv6: None },
            address,
        ),
{
    assert(seq![address].drop_last() == Seq::<Option<HostAddress>>::empty());
    assert(host_gateway::found_in(Seq::<Option<HostAddress>>::empty()) == Ok::<
        host_gateway::Found,
        HostGatewayError,
    >(host_gateway::Found { ipv4: None, ipv6: None }));
}

/// An IPv4-mapped IPv6 address has no second interpretation: behind any other
/// addresses it does what the IPv4 address that it maps does.
pub proof fn mapped_address_is_its_ipv4_address(
    before: Seq<Option<HostAddress>>,
    a: u8,
    b: u8,
    c: u8,
    d: u8,
)
    ensures
        host_gateway::selected(
            before.push(
                Some(
                    HostAddress::V6(
                        0,
                        0,
                        0,
                        0,
                        0,
                        0xffff,
                        (256 * (a as int) + b as int) as u16,
                        (256 * (c as int) + d as int) as u16,
                    ),
                ),
            ),
        ) == host_gateway::selected(before.push(Some(HostAddress::V4(a, b, c, d)))),
{
    let high = (256 * (a as int) + b as int) as u16;
    let low = (256 * (c as int) + d as int) as u16;
    let mapped = before.push(Some(HostAddress::V6(0, 0, 0, 0, 0, 0xffff, high, low)));
    let plain = before.push(Some(HostAddress::V4(a, b, c, d)));
    assert(mapped.drop_last() == before);
    assert(plain.drop_last() == before);
    assert(high / 256 == a && high % 256 == b && low / 256 == c && low % 256 == d);
}

/// Without any address there is nothing to select, and that is no fault.
pub proof fn no_address_selects_nothing(addresses: Seq<Option<HostAddress>>)
    ensures
        addresses.len() == 0 ==> host_gateway::selected(addresses) == Ok::<
            Option<HostAddress>,
            HostGatewayError,
        >(None),
{
}

/// The first fault decides: whatever follows faulty addresses, the fault stays.
pub proof fn first_fault_stays(
    before: Seq<Option<HostAddress>>,
    after: Seq<Option<HostAddress>>,
)
    requires
        host_gateway::selected(before) is Err,
    ensures
        host_gateway::selected(before + after) == host_gateway::selected(before),
    decreases after.len(),
{
    if after.len() > 0 {
        first_fault_stays(before, after.drop_last());
        assert((before + after).drop_last() == before + after.drop_last());
    } else {
        assert(before + after == before);
    }
}

/// A text that is no address is a fault, wherever it stands behind addresses
/// that are none.
pub proof fn invalid_address_is_refused(before: Seq<Option<HostAddress>>)
    requires
        host_gateway::selected(before) is Ok,
    ensures
        host_gateway::selected(before.push(None)) == Err::<Option<HostAddress>, HostGatewayError>(
            HostGatewayError::InvalidAddress,
        ),
{
    assert(before.push(None).drop_last() == before);
}

/// A second IPv4 address is accepted only where it is the first one again;
/// another one is ambiguous. The IPv4 address stays selected.
pub proof fn second_ipv4_address_must_agree(
    before: Seq<Option<HostAddress>>,
    first: HostAddress,
    second: HostAddress,
)
    requires
        host_gateway::selected(before) == Ok::<Option<HostAddress>, HostGatewayError>(Some(first)),
        first is V4,
        second is V4,
        host_gateway::selected(seq![Some(second)]) is Ok,
    ensures
        host_gateway::selected(before.push(Some(second))) == if second == first {
            Ok::<Option<HostAddress>, HostGatewayError>(Some(first))
        } else {
            Err(HostGatewayError::AmbiguousIpv4)
        },
{
    lemma_lone(Some(second));
    assert(before.push(Some(second)).drop_last() == before);
    host_gateway::selection_is_safe_and_unambiguous(before);
    lemma_families(before);
}

/// An IPv6 address does not replace a selected IPv4 address; a first IPv4
/// address replaces a selected IPv6 address.
pub proof fn ipv4_address_comes_first(
    before: Seq<Option<HostAddress>>,
    first: HostAddress,
    second: HostAddress,
)
    requires
        host_gateway::selected(before) == Ok::<Option<HostAddress>, HostGatewayError>(Some(first)),
        first is V6,
        second is V4,
        host_gateway::selected(seq![Some(second)]) is Ok,
    ensures
        host_gateway::selected(before.push(Some(second))) == Ok::<
            Option<HostAddress>,
            HostGatewayError,
        >(Some(second)),
{
    lemma_lone(Some(second));
    assert(before.push(Some(second)).drop_last() == before);
    lemma_families(before);
}

proof fn lemma_families(list: Seq<Option<HostAddress>>)
    ensures
        host_gateway::found_in(list) matches Ok(found) ==> {
            &&& found.ipv4 matches Some(a) ==> a is V4
            &&& found.ipv6 matches Some(a) ==> a is V6
        },
    decreases list.len(),
{
    if list.len() > 0 {
        lemma_families(list.drop_last());
    }
}

/// A second IPv6 address is accepted only where it is the first one again;
/// another one is ambiguous.
pub proof fn second_ipv6_address_must_agree(
    before: Seq<Option<HostAddress>>,
    first: HostAddress,
    second: HostAddress,
)
    requires
        host_gateway::selected(before) == Ok::<Option<HostAddress>, HostGatewayError>(Some(first)),
        first is V6,
        second is V6,
        host_gateway::canonical(second) == second,
        host_gateway::selected(seq![Some(second)]) is Ok,
    ensures
        host_gateway::selected(before.push(Some(second))) == if second == first {
            Ok::<Option<HostAddress>, HostGatewayError>(Some(first))
        } else {
            Err(HostGatewayError::AmbiguousIpv6)
        },
{
    lemma_lone(Some(second));
    assert(before.push(Some(second)).drop_last() == before);
    lemma_families(before);
}

/// Whether a text is one word: not empty, without white space, and without the
/// mark of a comment.
pub open spec fn is_word(s: Seq<char>) -> bool {
    &&& s.len() > 0
    &&& forall|i: int| 0 <= i < s.len() ==> !text::is_white_space(#[trigger] s[i]) && s[i] != '#'
}

proof fn lemma_one_word(s: Seq<char>)
    requires
        is_word(s),
    ensures
        text::words(s) == seq![s],
    decreases s.len(),
{
    if s.len() > 1 {
        let rest = s.drop_last();
        assert forall|i: int| 0 <= i < rest.len() implies !text::is_white_space(#[trigger] rest[i])
            && rest[i] != '#' by {
            assert(rest[i] == s[i]);
        }
        lemma_one_word(rest);
        assert(!text::is_white_space(s[s.len() - 2]));
        assert(!text::is_white_space(s[s.len() - 1]));
        assert(rest.push(s.last()) == s);
        assert(seq![rest].drop_last().push(seq![rest].last().push(s.last())) == seq![s]);
    } else {
        assert(!text::is_white_space(s[0]));
        assert(s.drop_last() == Seq::<char>::empty());
        assert(text::words(s.drop_last()) == Seq::<Seq<char>>::empty());
        assert(seq![s.last()] == s);
        assert(text::words(s) == Seq::<Seq<char>>::empty().push(seq![s.last()]));
    }
}

proof fn lemma_word_behind(s: Seq<char>, word: Seq<char>)
    requires
        s.len() > 0,
        text::is_white_space(s.last()),
        is_word(word),
    ensures
        text::words(s + word) == text::words(s).push(word),
    decreases word.len(),
{
    let all = s + word;
    assert(!text::is_white_space(word[word.len() - 1]));
    if word.len() > 1 {
        let rest = word.drop_last();
        assert forall|i: int| 0 <= i < rest.len() implies !text::is_white_space(#[trigger] rest[i])
            && rest[i] != '#' by {
            assert(rest[i] == word[i]);
        }
        lemma_word_behind(s, rest);
        assert(all.drop_last() == s + rest);
        assert(all[all.len() - 2] == word[word.len() - 2]);
        assert(!text::is_white_space(word[word.len() - 2]));
        let before = text::words(s).push(rest);
        assert(before.drop_last() == text::words(s));
        assert(rest.push(word.last()) == word);
    } else {
        assert(all.drop_last() == s);
        assert(all[all.len() - 2] == s.last());
        assert(seq![all.last()] == word);
    }
}

proof fn lemma_no_comment(s: Seq<char>)
    requires
        forall|i: int| 0 <= i < s.len() ==> #[trigger] s[i] != '#',
    ensures
        text::before_first(s, '#') == s,
{
    text::lemma_find(s, '#');
    assert(s.take(s.len() as int) == s);
}

proof fn lemma_alias_name(name: Seq<char>)
    requires
        text::lowered(name) == "host.openshell.internal"@,
    ensures
        is_word(name),
        text::trim_end(name, CharClass::Dot) == name,
        text::lowered("host.openshell.internal"@) == "host.openshell.internal"@,
{
    reveal_strlit("host.openshell.internal");
    let alias = "host.openshell.internal"@;
    assert(alias.len() == 23);
    assert(text::lowered(name).len() == name.len());
    assert forall|i: int| 0 <= i < name.len() implies !text::is_white_space(#[trigger] name[i])
        && name[i] != '#' && name[i] != '\n' by {
        assert(text::lowered(name)[i] == text::lower(name[i]));
        assert(alias[i] == '.' || ('a' <= alias[i] && alias[i] <= 'z'));
    }
    assert(text::lowered(name)[22] == text::lower(name[22]));
    assert(alias[22] == 'l');
    assert forall|i: int| 0 <= i < 23 implies #[trigger] text::lowered(alias)[i] == alias[i] by {
        assert(alias[i] == '.' || ('a' <= alias[i] && alias[i] <= 'z'));
    }
    assert(text::lowered(alias) =~= alias);
}

proof fn lemma_dots_trimmed(name: Seq<char>, dots: nat)
    requires
        text::trim_end(name, CharClass::Dot) == name,
    ensures
        text::trim_end(name + Seq::new(dots, |i: int| '.'), CharClass::Dot) == name,
    decreases dots,
{
    let s = name + Seq::new(dots, |i: int| '.');
    if dots > 0 {
        lemma_dots_trimmed(name, (dots - 1) as nat);
        assert(s.drop_last() == name + Seq::new((dots - 1) as nat, |i: int| '.'));
        assert(s.last() == '.');
    } else {
        assert(s == name);
    }
}

/// A line of an address, a blank and the alias, in any case and with any number
/// of dots behind it, maps the alias to that address.
pub proof fn alias_line_names_its_address(address: Seq<char>, name: Seq<char>, dots: nat)
    requires
        is_word(address),
        text::lowered(name) == "host.openshell.internal"@,
    ensures
        host_gateway::alias_address(address + seq![' '] + name + Seq::new(dots, |i: int| '.'))
            == Some(address),
{
    let dotted = name + Seq::new(dots, |i: int| '.');
    let line = address + seq![' '] + name + Seq::new(dots, |i: int| '.');
    let start = address + seq![' '];
    lemma_alias_name(name);
    lemma_dots_trimmed(name, dots);
    assert(line == start + dotted);
    assert forall|i: int| 0 <= i < dotted.len() implies !text::is_white_space(#[trigger] dotted[i])
        && dotted[i] != '#' by {
        if i < name.len() {
            assert(dotted[i] == name[i]);
        } else {
            assert(dotted[i] == '.');
        }
    }
    assert forall|i: int| 0 <= i < line.len() implies #[trigger] line[i] != '#' by {
        if i < address.len() {
            assert(line[i] == address[i]);
        } else if i > address.len() {
            assert(line[i] == dotted[i - start.len()]);
        }
    }
    lemma_no_comment(line);
    lemma_one_word(address);
    assert(start.drop_last() == address);
    assert(start.last() == ' ');
    assert(text::words(start) == text::words(address));
    lemma_word_behind(start, dotted);
    let words = seq![address].push(dotted);
    assert(text::words(line) == words);
    assert(host_gateway::is_alias(words[1]));
}

/// What stands behind the mark of a comment names nothing.
pub proof fn comment_names_nothing(line: Seq<char>, comment: Seq<char>)
    ensures
        host_gateway::alias_address(line + seq!['#'] + comment) == host_gateway::alias_address(line),
{
    let all = line + seq!['#'] + comment;
    text::lemma_find(line, '#');
    text::lemma_find(all, '#');
    let at = text::find(line, '#');
    assert(all[line.len() as int] == '#');
    if at < line.len() {
        assert(all[at] == '#');
    }
    let found = text::find(all, '#');
    if found < at {
        assert(line[found] == all[found]);
    }
    if at < found {
        assert(all[at] == '#');
    }
    assert(text::before_first(all, '#') == text::before_first(line, '#'));
}

/// A line that names another host alone maps nothing.
pub proof fn other_host_maps_nothing(address: Seq<char>, name: Seq<char>)
    requires
        is_word(address),
        is_word(name),
        text::lowered(text::trim_end(name, CharClass::Dot)) != "host.openshell.internal"@,
    ensures
        host_gateway::alias_address(address + seq![' '] + name) is None,
{
    let start = address + seq![' '];
    let line = start + name;
    assert forall|i: int| 0 <= i < line.len() implies #[trigger] line[i] != '#' by {
        if i < address.len() {
            assert(line[i] == address[i]);
        } else if i > address.len() {
            assert(line[i] == name[i - start.len()]);
        }
    }
    lemma_no_comment(line);
    lemma_one_word(address);
    assert(start.drop_last() == address);
    assert(start.last() == ' ');
    lemma_word_behind(start, name);
    let words = seq![address].push(name);
    assert(text::words(line) == words);
    assert(words[1] == name);
    reveal_strlit("host.openshell.internal");
    let alias = "host.openshell.internal"@;
    assert forall|i: int| 0 <= i < 23 implies #[trigger] text::lowered(alias)[i] == alias[i] by {
        assert(alias[i] == '.' || ('a' <= alias[i] && alias[i] <= 'z'));
    }
    assert(text::lowered(alias) =~= alias);
}

/// The lines of a hosts file count one by one, in order: two files in a row
/// list the addresses of the one and then those of the other.
pub proof fn lines_are_taken_in_order(a: Seq<Seq<char>>, b: Seq<Seq<char>>)
    ensures
        host_gateway::alias_addresses(a + b) == host_gateway::alias_addresses(a)
            + host_gateway::alias_addresses(b),
        forall|line: Seq<char>|
            #[trigger] host_gateway::alias_addresses(seq![line]) == match host_gateway::alias_address(
                line,
            ) {
                Some(address) => seq![address],
                None => Seq::<Seq<char>>::empty(),
            },
    decreases b.len(),
{
    assert forall|line: Seq<char>|
        #[trigger] host_gateway::alias_addresses(seq![line]) == match host_gateway::alias_address(
            line,
        ) {
            Some(address) => seq![address],
            None => Seq::<Seq<char>>::empty(),
        } by {
        assert(seq![line].drop_last() == Seq::<Seq<char>>::empty());
        assert(host_gateway::alias_addresses(Seq::<Seq<char>>::empty()) == Seq::<Seq<char>>::empty());
    }
    if b.len() > 0 {
        lines_are_taken_in_order(a, b.drop_last());
        assert((a + b).drop_last() == a + b.drop_last());
        assert((a + b).last() == b.last());
    } else {
        assert(a + b == a);
        assert(host_gateway::alias_addresses(b) == Seq::<Seq<char>>::empty());
    }
}

proof fn lemma_lone_line(line: Seq<char>)
    requires
        line.len() > 0,
        line.last() != '\r',
        forall|i: int| 0 <= i < line.len() ==> #[trigger] line[i] != '\n',
    ensures
        text::lines(line + seq!['\n']) == seq![line],
{
    lemma_unsplit(line);
    let s = line + seq!['\n'];
    assert(s.drop_last() == line);
    let parts = seq![line].push(Seq::<char>::empty());
    assert(text::split(s, '\n') == parts);
    assert(parts.drop_last() == seq![line]);
    assert(text::without_return(line) == line);
    assert(parts.drop_last().map_values(|l: Seq<char>| text::without_return(l)) == seq![line]);
}

proof fn lemma_unsplit(line: Seq<char>)
    requires
        forall|i: int| 0 <= i < line.len() ==> #[trigger] line[i] != '\n',
    ensures
        text::split(line, '\n') == seq![line],
    decreases line.len(),
{
    if line.len() > 0 {
        let rest = line.drop_last();
        assert forall|i: int| 0 <= i < rest.len() implies #[trigger] rest[i] != '\n' by {
            assert(rest[i] == line[i]);
        }
        lemma_unsplit(rest);
        assert(line[line.len() - 1] != '\n');
        assert(rest.push(line.last()) == line);
        assert(seq![rest].drop_last().push(seq![rest].last().push(line.last())) == seq![line]);
    } else {
        assert(line == Seq::<char>::empty());
    }
}

/// Without a backend pin, a hosts file of one line that maps the alias to an
/// address resolves to that address, unless it is unsafe.
pub proof fn hosts_file_maps_the_alias(
    contents: String,
    table: Seq<(String, Option<HostAddress>)>,
    word: Seq<char>,
    a: u8,
    b: u8,
    c: u8,
    d: u8,
)
    requires
        is_word(word),
        contents@ == word + seq![' '] + "host.openshell.internal"@ + seq!['\n'],
        host_gateway::denoted(table, word) == Some(HostAddress::V4(a, b, c, d)),
    ensures
        host_gateway::resolved(None, HostsFile::Contents(contents), table) == if a == 0 || a == 127
            || a >= 224 || (a == 169 && b == 254 && c == 169 && d == 254) {
            Err::<Option<HostAddress>, ResolveFault>(
                ResolveFault::Mapping(HostGatewayError::UnsafeAddress),
            )
        } else {
            Ok(Some(HostAddress::V4(a, b, c, d)))
        },
{
    let name = "host.openshell.internal"@;
    reveal_strlit("host.openshell.internal");
    assert forall|i: int| 0 <= i < 23 implies #[trigger] text::lowered(name)[i] == name[i] by {
        assert(name[i] == '.' || ('a' <= name[i] && name[i] <= 'z'));
    }
    assert(text::lowered(name) =~= name);
    let line = word + seq![' '] + name;
    assert(line + Seq::new(0, |i: int| '.') == line);
    alias_line_names_its_address(word, name, 0);
    assert(line.last() == name[22]);
    assert(name[22] == 'l');
    assert forall|i: int| 0 <= i < line.len() implies #[trigger] line[i] != '\n' by {
        if i < word.len() {
            assert(line[i] == word[i]);
        } else if i > word.len() {
            assert(line[i] == name[i - word.len() - 1]);
        }
    }
    lemma_lone_line(line);
    lines_are_taken_in_order(seq![line], Seq::empty());
    assert(host_gateway::alias_addresses(seq![line]) == seq![word]);
    assert(host_gateway::all_denoted(table, seq![word]) == seq![
        Some(HostAddress::V4(a, b, c, d)),
    ]);
    lone_ipv4_address_is_selected_unless_unsafe(a, b, c, d);
}

/// The backend's pin is authoritative, whatever the hosts file holds; without
/// one, a file that is not there maps nothing, and a file that cannot be read
/// is an error with the reason.
pub proof fn pin_is_authoritative(
    address: HostAddress,
    hosts: HostsFile,
    table: Seq<(String, Option<HostAddress>)>,
    reason: String,
)
    ensures
        host_gateway::resolved(Some(address), hosts, table) == Ok::<
            Option<HostAddress>,
            ResolveFault,
        >(Some(address)),
        host_gateway::resolved(None, HostsFile::NotFound, table) == Ok::<
            Option<HostAddress>,
            ResolveFault,
        >(None),
        host_gateway::resolved(None, HostsFile::Failed(reason), table) == Err::<
            Option<HostAddress>,
            ResolveFault,
        >(ResolveFault::Read(reason@)),
{
}

/// A table gives the address of the first entry with a text.
pub proof fn table_gives_the_first_entry(table: Seq<(String, Option<HostAddress>)>, i: int)
    requires
        0 <= i < table.len(),
        forall|k: int| 0 <= k < i ==> (#[trigger] table[k]).0@ != table[i].0@,
    ensures
        host_gateway::denoted(table, table[i].0@) == table[i].1,
    decreases table.len(),
{
    if i > 0 {
        let rest = table.skip(1);
        assert(table[0].0@ != table[i].0@);
        assert forall|k: int| 0 <= k < i - 1 implies (#[trigger] rest[k]).0@ != rest[i - 1].0@ by {
            assert(rest[k] == table[k + 1]);
            assert(rest[i - 1] == table[i]);
        }
        table_gives_the_first_entry(rest, i - 1);
        assert(rest[i - 1] == table[i]);
    }
}

} // verus!
