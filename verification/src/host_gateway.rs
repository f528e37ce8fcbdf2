//! The host alias that the driver supplies, pinned to the trusted supervisor.

use crate::text;
use crate::text::{
    lines_of, part_before, same, same_ignoring_case, trimmed_end, words_of, CharClass,
};
use vstd::prelude::*;

verus! {

/// An IPv4 or IPv6 address.
#[derive(Debug, Clone, Copy, PartialEq, Eq, Structural)]
pub enum HostAddress {
    V4(u8, u8, u8, u8),
    /// The eight groups of the address.
    V6(u16, u16, u16, u16, u16, u16, u16, u16),
}

/// Why no address was selected.
#[derive(Debug, Clone, Copy, PartialEq, Eq, Structural)]
pub enum HostGatewayError {
    InvalidAddress,
    UnsafeAddress,
    AmbiguousIpv4,
    AmbiguousIpv6,
}

/// The diagnostic of a mapping that is not usable.
pub open spec fn mapping_text(error: HostGatewayError) -> Seq<char> {
    match error {
        HostGatewayError::InvalidAddress => "supervisor host-gateway alias has an invalid address"@,
        HostGatewayError::UnsafeAddress => "supervisor host-gateway alias has an unsafe address"@,
        HostGatewayError::AmbiguousIpv4 => {
            "supervisor host-gateway alias has ambiguous IPv4 addresses"@
        },
        HostGatewayError::AmbiguousIpv6 => {
            "supervisor host-gateway alias has ambiguous IPv6 addresses"@
        },
    }
}

impl HostGatewayError {
    /// The diagnostic.
    pub fn message(self) -> (text: &'static str)
        ensures
            text@ == mapping_text(self),
    {
        match self {
            HostGatewayError::InvalidAddress => {
                "supervisor host-gateway alias has an invalid address"
            },
            HostGatewayError::UnsafeAddress => {
                "supervisor host-gateway alias has an unsafe address"
            },
            HostGatewayError::AmbiguousIpv4 => {
                "supervisor host-gateway alias has ambiguous IPv4 addresses"
            },
            HostGatewayError::AmbiguousIpv6 => {
                "supervisor host-gateway alias has ambiguous IPv6 addresses"
            },
        }
    }
}

/// Whether a name is the host alias, in any case and with trailing dots.
pub open spec fn is_alias(name: Seq<char>) -> bool {
    text::lowered(text::trim_end(name, CharClass::Dot)) == text::lowered("host.openshell.internal"@)
}

/// Whether one of the words behind the first is the host alias.
pub open spec fn names_alias(words: Seq<Seq<char>>) -> bool {
    exists|i: int| 1 <= i < words.len() && is_alias(#[trigger] words[i])
}

/// The address text of a line of a hosts file that names the host alias.
pub open spec fn alias_address(line: Seq<char>) -> Option<Seq<char>> {
    let words = text::words(text::before_first(line, '#'));
    if names_alias(words) {
        Some(words[0])
    } else {
        None
    }
}

/// The address texts of the lines that name the host alias, in order.
pub open spec fn alias_addresses(lines: Seq<Seq<char>>) -> Seq<Seq<char>>
    decreases lines.len(),
{
    if lines.len() == 0 {
        seq![]
    } else {
        match alias_address(lines.last()) {
            Some(address) => alias_addresses(lines.drop_last()).push(address),
            None => alias_addresses(lines.drop_last()),
        }
    }
}

fn address_of_line(line: &str) -> (r: Option<String>)
    ensures
        match r {
            Some(address) => alias_address(line@) == Some(address@),
            None => alias_address(line@) is None,
        },
{
    let mut words = words_of(part_before(line, '#').as_str());
    let ghost all = text::words(text::before_first(line@, '#'));
    let mut i: usize = 1;
    while i < words.len()
        invariant
            1 <= i,
            text::texts(words@) == all,
            all == text::words(text::before_first(line@, '#')),
            forall|k: int| 1 <= k < i && k < all.len() ==> !is_alias(#[trigger] all[k]),
        decreases words@.len() - i,
    {
        assert(all[i as int] == words@[i as int]@);
        if same_ignoring_case(
            trimmed_end(words[i].as_str(), CharClass::Dot).as_str(),
            "host.openshell.internal",
        ) {
            assert(is_alias(all[i as int]));
            assert(all[0] == words@[0]@);
            return Some(words.remove(0));
        }
        i += 1;
    }
    None
}

/// Collects the address texts under which a hosts file lists the host alias.
pub fn host_alias_addresses(contents: &str) -> (addresses: Vec<String>)
    ensures
        text::texts(addresses@) == alias_addresses(text::lines(contents@)),
{
    let lines = lines_of(contents);
    let ghost all = text::lines(contents@);
    let mut addresses: Vec<String> = Vec::new();
    let mut i: usize = 0;
    assert(text::texts(addresses@) == alias_addresses(all.take(0)));
    while i < lines.len()
        invariant
            i <= lines@.len(),
            text::texts(lines@) == all,
            text::texts(addresses@) == alias_addresses(all.take(i as int)),
        decreases lines@.len() - i,
    {
        assert(all.take(i + 1).drop_last() == all.take(i as int));
        assert(all.take(i + 1).last() == lines@[i as int]@);
        if let Some(address) = address_of_line(lines[i].as_str()) {
            let ghost before = text::texts(addresses@);
            addresses.push(address);
            assert(text::texts(addresses@) == before.push(address@));
        }
        i += 1;
    }
    assert(all.take(i as int) == all);
    addresses
}

/// An address with an IPv4-mapped IPv6 address taken as its IPv4 target.
pub open spec fn canonical(address: HostAddress) -> HostAddress {
    match address {
        HostAddress::V6(0, 0, 0, 0, 0, 0xffff, high, low) => HostAddress::V4(
            (high / 256) as u8,
            (high % 256) as u8,
            (low / 256) as u8,
            (low % 256) as u8,
        ),
        _ => address,
    }
}

/// Whether an address may not stand for the host: loopback, unspecified,
/// multicast, cloud metadata, or reserved.
pub open spec fn is_unsafe(address: HostAddress) -> bool {
    match address {
        HostAddress::V4(a, b, c, d) => {
            ||| a == 127
            ||| 224 <= a <= 239
            ||| a == 169 && b == 254 && c == 169 && d == 254
            ||| a == 0
            ||| a >= 240
        },
        HostAddress::V6(g0, g1, g2, g3, g4, g5, g6, g7) => {
            ||| g0 == 0 && g1 == 0 && g2 == 0 && g3 == 0 && g4 == 0 && g5 == 0 && g6 == 0 && g7 <= 1
            ||| g0 >= 0xff00
            ||| g0 == 0xfd00 && g1 == 0xec2 && g2 == 0 && g3 == 0 && g4 == 0 && g5 == 0 && g6 == 0
                && g7 == 0x254
        },
    }
}

/// The addresses found so far, one for each family.
#[derive(Debug, Clone, Copy, PartialEq, Eq, Structural)]
pub struct Found {
    pub ipv4: Option<HostAddress>,
    pub ipv6: Option<HostAddress>,
}

/// What one more address adds.
pub open spec fn found_next(before: Found, address: Option<HostAddress>) -> Result<
    Found,
    HostGatewayError,
> {
    match address {
        None => Err(HostGatewayError::InvalidAddress),
        Some(given) => {
            let address = canonical(given);
            if is_unsafe(address) {
                Err(HostGatewayError::UnsafeAddress)
            } else if address is V4 {
                if before.ipv4 is Some && before.ipv4 != Some(address) {
                    Err(HostGatewayError::AmbiguousIpv4)
                } else {
                    Ok(Found { ipv4: Some(address), ..before })
                }
            } else {
                if before.ipv6 is Some && before.ipv6 != Some(address) {
                    Err(HostGatewayError::AmbiguousIpv6)
                } else {
                    Ok(Found { ipv6: Some(address), ..before })
                }
            }
        },
    }
}

/// What a list of addresses yields for each family, or the first fault.
pub open spec fn found_in(list: Seq<Option<HostAddress>>) -> Result<Found, HostGatewayError>
    decreases list.len(),
{
    if list.len() == 0 {
        Ok(Found { ipv4: None, ipv6: None })
    } else {
        match found_in(list.drop_last()) {
            Err(error) => Err(error),
            Ok(before) => found_next(before, list.last()),
        }
    }
}

/// The address that a list selects: the IPv4 address before the IPv6 one.
pub open spec fn selected(list: Seq<Option<HostAddress>>) -> Result<
    Option<HostAddress>,
    HostGatewayError,
> {
    match found_in(list) {
        Err(error) => Err(error),
        Ok(found) => Ok(
            if found.ipv4 is Some {
                found.ipv4
            } else {
                found.ipv6
            },
        ),
    }
}

/// A fault in the first addresses stays the fault of them all.
proof fn lemma_found_prefix(list: Seq<Option<HostAddress>>, n: int)
    requires
        0 <= n <= list.len(),
        found_in(list.take(n)) is Err,
    ensures
        found_in(list) == found_in(list.take(n)),
    decreases list.len(),
{
    if n < list.len() {
        assert(list.drop_last().take(n) == list.take(n));
        lemma_found_prefix(list.drop_last(), n);
    } else {
        assert(list.take(n) == list);
    }
}

fn canonical_address(address: HostAddress) -> (r: HostAddress)
    ensures
        r == canonical(address),
{
    match address {
        HostAddress::V6(g0, g1, g2, g3, g4, g5, high, low) => {
            if g0 == 0 && g1 == 0 && g2 == 0 && g3 == 0 && g4 == 0 && g5 == 0xffff {
                HostAddress::V4(
                    (high / 256) as u8,
                    (high % 256) as u8,
                    (low / 256) as u8,
                    (low % 256) as u8,
                )
            } else {
                address
            }
        },
        HostAddress::V4(..) => address,
    }
}

fn unsafe_address(address: HostAddress) -> (r: bool)
    ensures
        r == is_unsafe(address),
{
    match address {
        HostAddress::V4(a, b, c, d) => a == 127 || (224 <= a && a <= 239) || (a == 169 && b == 254
            && c == 169 && d == 254) || a == 0 || a >= 240,
        HostAddress::V6(g0, g1, g2, g3, g4, g5, g6, g7) => (g0 == 0 && g1 == 0 && g2 == 0 && g3 == 0
            && g4 == 0 && g5 == 0 && g6 == 0 && g7 <= 1) || g0 >= 0xff00 || (g0 == 0xfd00 && g1
            == 0xec2 && g2 == 0 && g3 == 0 && g4 == 0 && g5 == 0 && g6 == 0 && g7 == 0x254),
    }
}

fn add_address(before: Found, address: Option<HostAddress>) -> (r: Result<Found, HostGatewayError>)
    ensures
        r == found_next(before, address),
{
    let address = match address {
        Some(given) => canonical_address(given),
        None => {
            return Err(HostGatewayError::InvalidAddress);
        },
    };
    if unsafe_address(address) {
        return Err(HostGatewayError::UnsafeAddress);
    }
    match address {
        HostAddress::V4(..) => {
            if let Some(previous) = before.ipv4 {
                if previous != address {
                    return Err(HostGatewayError::AmbiguousIpv4);
                }
            }
            Ok(Found { ipv4: Some(address), ipv6: before.ipv6 })
        },
        HostAddress::V6(..) => {
            if let Some(previous) = before.ipv6 {
                if previous != address {
                    return Err(HostGatewayError::AmbiguousIpv6);
                }
            }
            Ok(Found { ipv4: before.ipv4, ipv6: Some(address) })
        },
    }
}

/// Selects the address of the host alias. `addresses` holds, in order, what
/// the texts of [`host_alias_addresses`] denote, and nothing for a text that is
/// no address. Unsafe and ambiguous addresses are refused; IPv4 comes first,
/// whatever the order.
pub fn select_address(addresses: &Vec<Option<HostAddress>>) -> (r: Result<
    Option<HostAddress>,
    HostGatewayError,
>)
    ensures
        r == selected(addresses@),
{
    let mut found = Found { ipv4: None, ipv6: None };
    let mut i: usize = 0;
    assert(found_in(addresses@.take(0)) == Ok::<Found, HostGatewayError>(found));
    while i < addresses.len()
        invariant
            i <= addresses@.len(),
            found_in(addresses@.take(i as int)) == Ok::<Found, HostGatewayError>(found),
        decreases addresses@.len() - i,
    {
        assert(addresses@.take(i + 1).drop_last() == addresses@.take(i as int));
        assert(addresses@.take(i + 1).last() == addresses@[i as int]);
        match add_address(found, addresses[i]) {
            Ok(next) => {
                found = next;
            },
            Err(error) => {
                proof {
                    lemma_found_prefix(addresses@, i + 1);
                }
                return Err(error);
            },
        }
        i += 1;
    }
    assert(addresses@.take(i as int) == addresses@);
    if found.ipv4.is_some() {
        Ok(found.ipv4)
    } else {
        Ok(found.ipv6)
    }
}

/// How the host gateway is resolved.
#[derive(Debug, Clone, Copy, PartialEq, Eq, Structural)]
pub enum Resolution {
    /// The backend pinned the address.
    Pinned(HostAddress),
    /// The supervisor's own hosts file decides.
    ReadHosts,
}

/// Decides how the host gateway is resolved: the backend's explicit address is
/// authoritative, and no local file replaces it.
pub fn resolution(backend_address: Option<HostAddress>) -> (r: Resolution)
    ensures
        r == match backend_address {
            Some(address) => Resolution::Pinned(address),
            None => Resolution::ReadHosts,
        },
{
    match backend_address {
        Some(address) => Resolution::Pinned(address),
        None => Resolution::ReadHosts,
    }
}

/// What came of reading the supervisor's hosts file.
#[derive(Debug)]
pub enum HostsFile {
    /// The contents.
    Contents(String),
    /// There is no such file.
    NotFound,
    /// The file could not be read, for the given reason.
    Failed(String),
}

/// Why the host gateway could not be resolved.
#[derive(Debug, PartialEq, Eq)]
pub enum ResolveError {
    /// The hosts file could not be read, for the given reason.
    Read(String),
    /// The hosts file maps the alias to no usable address.
    Mapping(HostGatewayError),
}

/// What a [`ResolveError`] denotes.
#[verifier::ext_equal]
pub enum ResolveFault {
    Read(Seq<char>),
    Mapping(HostGatewayError),
}

impl View for ResolveError {
    type V = ResolveFault;

    open spec fn view(&self) -> ResolveFault {
        match self {
            ResolveError::Read(detail) => ResolveFault::Read(detail@),
            ResolveError::Mapping(error) => ResolveFault::Mapping(*error),
        }
    }
}

impl ResolveError {
    /// The diagnostic. The reason of a failed read stands beside it.
    pub fn message(&self) -> (text: &'static str)
        ensures
            text@ == match self@ {
                ResolveFault::Read(_) => "read supervisor host-gateway mapping"@,
                ResolveFault::Mapping(error) => mapping_text(error),
            },
    {
        match self {
            ResolveError::Read(_) => "read supervisor host-gateway mapping",
            ResolveError::Mapping(error) => error.message(),
        }
    }
}

/// The addresses that texts denote: each text with its address, or with nothing
/// where it is no address.
pub type AddressTable = Vec<(String, Option<HostAddress>)>;

/// The address that a text denotes by a table. A text that the table does not
/// hold denotes none.
pub open spec fn denoted(
    table: Seq<(String, Option<HostAddress>)>,
    address: Seq<char>,
) -> Option<HostAddress>
    decreases table.len(),
{
    if table.len() == 0 {
        None
    } else if table[0].0@ == address {
        table[0].1
    } else {
        denoted(table.skip(1), address)
    }
}

/// The addresses that a list of texts denotes by a table.
pub open spec fn all_denoted(
    table: Seq<(String, Option<HostAddress>)>,
    addresses: Seq<Seq<char>>,
) -> Seq<Option<HostAddress>> {
    addresses.map_values(|address: Seq<char>| denoted(table, address))
}

fn denoted_address(table: &AddressTable, address: &str) -> (r: Option<HostAddress>)
    ensures
        r == denoted(table@, address@),
{
    let mut i: usize = 0;
    assert(table@.skip(0) == table@);
    while i < table.len()
        invariant
            i <= table@.len(),
            denoted(table@, address@) == denoted(table@.skip(i as int), address@),
        decreases table@.len() - i,
    {
        assert(table@.skip(i as int)[0] == table@[i as int]);
        assert(table@.skip(i as int).skip(1) == table@.skip(i + 1));
        if same(table[i].0.as_str(), address) {
            return table[i].1;
        }
        i += 1;
    }
    None
}

/// What the host gateway resolves to: the backend's pin, or what the hosts file
/// maps the alias to. A file that is not there maps nothing.
pub open spec fn resolved(
    backend_address: Option<HostAddress>,
    hosts: HostsFile,
    table: Seq<(String, Option<HostAddress>)>,
) -> Result<Option<HostAddress>, ResolveFault> {
    match backend_address {
        Some(address) => Ok(Some(address)),
        None => match hosts {
            HostsFile::NotFound => Ok(None),
            HostsFile::Failed(detail) => Err(ResolveFault::Read(detail@)),
            HostsFile::Contents(contents) => match selected(
                all_denoted(table, alias_addresses(text::lines(contents@))),
            ) {
                Ok(address) => Ok(address),
                Err(error) => Err(ResolveFault::Mapping(error)),
            },
        },
    }
}

/// Retains a backend pin or discovers the host gateway in what came of reading
/// the supervisor's hosts file. `table` gives the addresses that the texts of
/// [`host_alias_addresses`] denote. A missing mapping stays unavailable; a
/// mapping that cannot be read or that is unsafe or ambiguous is an error.
pub fn resolve(
    backend_address: Option<HostAddress>,
    hosts: &HostsFile,
    table: &AddressTable,
) -> (r: Result<Option<HostAddress>, ResolveError>)
    ensures
        match r {
            Ok(address) => resolved(backend_address, *hosts, table@) == Ok::<
                Option<HostAddress>,
                ResolveFault,
            >(address),
            Err(error) => resolved(backend_address, *hosts, table@) == Err::<
                Option<HostAddress>,
                ResolveFault,
            >(error@),
        },
{
    if backend_address.is_some() {
        return Ok(backend_address);
    }
    let contents = match hosts {
        HostsFile::NotFound => {
            return Ok(None);
        },
        HostsFile::Failed(detail) => {
            return Err(ResolveError::Read(detail.clone()));
        },
        HostsFile::Contents(contents) => contents,
    };
    let texts = host_alias_addresses(contents.as_str());
    let ghost all = all_denoted(table@, text::texts(texts@));
    let mut addresses: Vec<Option<HostAddress>> = Vec::new();
    let mut i: usize = 0;
    while i < texts.len()
        invariant
            i <= texts@.len(),
            all == all_denoted(table@, text::texts(texts@)),
            addresses@ == all.take(i as int),
        decreases texts@.len() - i,
    {
        assert(text::texts(texts@)[i as int] == texts@[i as int]@);
        addresses.push(denoted_address(table, texts[i].as_str()));
        assert(addresses@ == all.take(i + 1));
        i += 1;
    }
    assert(all.take(i as int) == all);
    match select_address(&addresses) {
        Ok(address) => Ok(address),
        Err(error) => Err(ResolveError::Mapping(error)),
    }
}

/// Whether all entries are safe addresses.
pub open spec fn all_safe(list: Seq<Option<HostAddress>>) -> bool {
    forall|i: int|
        0 <= i < list.len() ==> (#[trigger] list[i] matches Some(given) && !is_unsafe(
            canonical(given),
        ))
}

/// Whether an address stands in a list, up to IPv4 mapping.
pub open spec fn lists(list: Seq<Option<HostAddress>>, address: HostAddress) -> bool {
    exists|i: int| 0 <= i < list.len() && (#[trigger] list[i] matches Some(given) && canonical(given)
        == address)
}

proof fn lemma_found(list: Seq<Option<HostAddress>>)
    ensures
        found_in(list) matches Ok(found) ==> {
            &&& all_safe(list)
            &&& forall|a: HostAddress|
                #[trigger] lists(list, a) <==> (a is V4 && found.ipv4 == Some(a)) || (a is V6
                    && found.ipv6 == Some(a))
            &&& found.ipv4 matches Some(a) ==> a is V4
            &&& found.ipv6 matches Some(a) ==> a is V6
        },
    decreases list.len(),
{
    if list.len() > 0 && found_in(list) is Ok {
        let rest = list.drop_last();
        lemma_found(rest);
        let before = found_in(rest)->Ok_0;
        let found = found_in(list)->Ok_0;
        let last = canonical(list.last()->Some_0);
        assert forall|i: int| 0 <= i < list.len() implies (#[trigger] list[i] matches Some(given)
            && !is_unsafe(canonical(given))) by {
            if i < rest.len() {
                assert(list[i] == rest[i]);
            }
        }
        assert forall|a: HostAddress| #[trigger] lists(list, a) <==> lists(rest, a) || a == last by {
            if lists(rest, a) {
                let i = choose|i: int|
                    0 <= i < rest.len() && (#[trigger] rest[i] matches Some(given) && canonical(
                        given,
                    ) == a);
                assert(list[i] == rest[i]);
            }
            if a == last {
                assert(list[list.len() - 1] == list.last());
            }
            if lists(list, a) {
                let i = choose|i: int|
                    0 <= i < list.len() && (#[trigger] list[i] matches Some(given) && canonical(
                        given,
                    ) == a);
                if i < rest.len() {
                    assert(list[i] == rest[i]);
                }
            }
        }
    }
}

/// Whether a list is accepted: all its entries are addresses, all are safe, and
/// no two of one family differ.
pub open spec fn is_acceptable(list: Seq<Option<HostAddress>>) -> bool {
    &&& !list.contains(None)
    &&& forall|a: HostAddress| #[trigger] lists(list, a) ==> !is_unsafe(a)
    &&& forall|a: HostAddress, b: HostAddress|
        #[trigger] lists(list, a) && #[trigger] lists(list, b) && (a is V4 <==> b is V4) ==> a == b
}

proof fn lemma_acceptable(list: Seq<Option<HostAddress>>)
    ensures
        selected(list) is Ok <==> is_acceptable(list),
    decreases list.len(),
{
    lemma_found(list);
    if found_in(list) is Ok {
        if list.contains(None) {
            let i = choose|i: int| 0 <= i < list.len() && list[i] == None::<HostAddress>;
            assert(list[i] is Some);
        }
        assert forall|a: HostAddress| #[trigger] lists(list, a) implies !is_unsafe(a) by {
            let i = choose|i: int|
                0 <= i < list.len() && (#[trigger] list[i] matches Some(given) && canonical(given)
                    == a);
            assert(list[i] matches Some(given) && !is_unsafe(canonical(given)));
        }
    }
    if is_acceptable(list) && list.len() > 0 {
        let rest = list.drop_last();
        assert forall|a: HostAddress| #[trigger] lists(rest, a) implies lists(list, a) by {
            let i = choose|i: int|
                0 <= i < rest.len() && (#[trigger] rest[i] matches Some(given) && canonical(given)
                    == a);
            assert(list[i] == rest[i]);
        }
        if rest.contains(None) {
            let i = choose|i: int| 0 <= i < rest.len() && rest[i] == None::<HostAddress>;
            assert(list[i] == None::<HostAddress>);
        }
        assert(is_acceptable(rest));
        lemma_acceptable(rest);
        lemma_found(rest);
        assert(list[list.len() - 1] == list.last());
        assert(list.last() is Some);
        let last = canonical(list.last()->Some_0);
        assert(lists(list, last));
        let before = found_in(rest)->Ok_0;
        if let Some(a) = before.ipv4 {
            assert(lists(rest, a));
        }
        if let Some(a) = before.ipv6 {
            assert(lists(rest, a));
        }
    }
}

proof fn lemma_same_acceptance(a: Seq<Option<HostAddress>>, b: Seq<Option<HostAddress>>)
    requires
        a.contains(None) == b.contains(None),
        forall|address: HostAddress| #[trigger] lists(a, address) == lists(b, address),
        is_acceptable(a),
    ensures
        is_acceptable(b),
{
    assert forall|x: HostAddress| #[trigger] lists(b, x) implies !is_unsafe(x) by {
        assert(lists(a, x));
    }
    assert forall|x: HostAddress, y: HostAddress|
        #[trigger] lists(b, x) && #[trigger] lists(b, y) && (x is V4 <==> y is V4) implies x
        == y by {
        assert(lists(a, x) && lists(a, y));
    }
}

/// What is selected does not depend on the order of the lines, nor on how often
/// they stand there: of two lists of the same addresses either both are
/// accepted and select the same address, or both are refused.
pub proof fn selection_ignores_order(a: Seq<Option<HostAddress>>, b: Seq<Option<HostAddress>>)
    requires
        a.contains(None) == b.contains(None),
        forall|address: HostAddress| #[trigger] lists(a, address) == lists(b, address),
    ensures
        selected(a) is Ok <==> selected(b) is Ok,
        selected(a) is Ok ==> selected(a) == selected(b),
{
    lemma_acceptable(a);
    lemma_acceptable(b);
    if is_acceptable(a) {
        lemma_same_acceptance(a, b);
    }
    if is_acceptable(b) {
        assert forall|address: HostAddress| #[trigger] lists(b, address) == lists(a, address) by {
            assert(lists(a, address) == lists(b, address));
        }
        lemma_same_acceptance(b, a);
    }
    if selected(a) is Ok {
        lemma_found(a);
        lemma_found(b);
        let x = found_in(a)->Ok_0;
        let y = found_in(b)->Ok_0;
        if let Some(address) = x.ipv4 {
            assert(lists(a, address));
            assert(lists(b, address));
        }
        if let Some(address) = y.ipv4 {
            assert(lists(b, address));
            assert(lists(a, address));
        }
        if let Some(address) = x.ipv6 {
            assert(lists(a, address));
            assert(lists(b, address));
        }
        if let Some(address) = y.ipv6 {
            assert(lists(b, address));
            assert(lists(a, address));
        }
    }
}

/// A selected address is listed and safe, no other address of its family is
/// listed, and an IPv6 address is selected only where no IPv4 address is
/// listed.
pub proof fn selection_is_safe_and_unambiguous(list: Seq<Option<HostAddress>>)
    ensures
        selected(list) matches Ok(Some(address)) ==> {
            &&& lists(list, address)
            &&& !is_unsafe(address)
            &&& forall|other: HostAddress|
                #[trigger] lists(list, other) && (other is V4 <==> address is V4) ==> other
                    == address
            &&& address is V6 ==> forall|other: HostAddress| #[trigger] lists(list, other) ==> !(
            other is V4)
        },
        selected(list) matches Ok(None) ==> list.len() == 0,
{
    lemma_found(list);
    if let Ok(Some(address)) = selected(list) {
        assert(lists(list, address));
        let i = choose|i: int|
            0 <= i < list.len() && (#[trigger] list[i] matches Some(given) && canonical(given)
                == address);
        assert(list[i] matches Some(given) && !is_unsafe(canonical(given)));
    }
    if selected(list) matches Ok(None) {
        if list.len() > 0 {
            let first = canonical(list[0]->Some_0);
            assert(list[0] is Some);
            assert(lists(list, first));
        }
    }
}

} // verus!
