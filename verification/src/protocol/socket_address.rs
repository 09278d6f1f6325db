//! Socket addresses and their texts.

use vstd::prelude::*;

use crate::protocol::ipv6;
use crate::protocol::ipv6::SocketAddressV6;
use crate::text;

verus! {

/// An IPv4 socket address.
#[derive(Debug, Clone, Copy, PartialEq, Eq, Structural)]
pub struct SocketAddressV4 {
    pub a: u8,
    pub b: u8,
    pub c: u8,
    pub d: u8,
    pub port: u16,
}

/// A socket address.
#[derive(Debug, Clone, Copy, PartialEq, Eq, Structural)]
pub enum SocketAddress {
    V4(SocketAddressV4),
    V6(SocketAddressV6),
}

/// The text of the host of an IPv4 address.
pub open spec fn host_text(a: u8, b: u8, c: u8, d: u8) -> Seq<char> {
    text::decimal(a as nat) + "."@ + text::decimal(b as nat) + "."@ + text::decimal(c as nat) + "."@
        + text::decimal(d as nat)
}

/// The text of an IPv4 socket address.
pub open spec fn v4_text(address: SocketAddressV4) -> Seq<char> {
    host_text(address.a, address.b, address.c, address.d) + ":"@ + text::decimal(
        address.port as nat,
    )
}

/// The text of a socket address.
pub open spec fn address_text(address: SocketAddress) -> Seq<char> {
    match address {
        SocketAddress::V4(address) => v4_text(address),
        SocketAddress::V6(address) => ipv6::v6_text(address),
    }
}

/// The characters are decimal digits.
pub open spec fn all_digits(s: Seq<char>) -> bool {
    forall|i: int| 0 <= i < s.len() ==> '0' <= #[trigger] s[i] <= '9'
}

/// The number that decimal digits stand for.
pub open spec fn number_of(s: Seq<char>) -> nat
    decreases s.len(),
{
    if s.len() == 0 {
        0
    } else {
        (10 * number_of(s.drop_last()) + (s.last() as u32 - '0' as u32)) as nat
    }
}

/// A number below 256 in at most three digits, without a leading zero.
pub open spec fn is_octet(s: Seq<char>) -> bool {
    &&& 0 < s.len() <= 3
    &&& all_digits(s)
    &&& s.len() > 1 ==> s[0] != '0'
    &&& number_of(s) <= 255
}

/// A port number.
pub open spec fn is_port(s: Seq<char>) -> bool {
    &&& 0 < s.len()
    &&& all_digits(s)
    &&& number_of(s) <= 65535
}

/// The parts of `s` between the separators `c`.
pub open spec fn parts(s: Seq<char>, c: char) -> Seq<Seq<char>>
    decreases s.len(),
{
    let at = text::first_char(s, c);
    if 0 <= at < s.len() {
        seq![s.take(at)] + parts(s.skip(at + 1), c)
    } else {
        seq![s]
    }
}

/// The host that a text stands for: four octets with dots between them.
pub open spec fn parsed_host(s: Seq<char>) -> Option<(u8, u8, u8, u8)> {
    let octets = parts(s, '.');
    if octets.len() == 4 && is_octet(octets[0]) && is_octet(octets[1]) && is_octet(octets[2])
        && is_octet(octets[3]) {
        Some(
            (
                number_of(octets[0]) as u8,
                number_of(octets[1]) as u8,
                number_of(octets[2]) as u8,
                number_of(octets[3]) as u8,
            ),
        )
    } else {
        None
    }
}

/// The IPv4 socket address that a text stands for: a host, a colon and a port.
pub open spec fn parsed_v4(s: Seq<char>) -> Option<SocketAddressV4> {
    let halves = parts(s, ':');
    match parsed_host(halves[0]) {
        Some((a, b, c, d)) => if halves.len() == 2 && is_port(halves[1]) {
            Some(SocketAddressV4 { a, b, c, d, port: number_of(halves[1]) as u16 })
        } else {
            None
        },
        None => None,
    }
}

/// The socket address that a text stands for.
pub open spec fn parsed(s: Seq<char>) -> Option<SocketAddress> {
    match parsed_v4(s) {
        Some(address) => Some(SocketAddress::V4(address)),
        None => match ipv6::parsed_v6(s) {
            Some(address) => Some(SocketAddress::V6(address)),
            None => None,
        },
    }
}

/// Splits `s` at the separators `c`.
pub fn split(s: &str, c: char) -> (r: Vec<String>)
    ensures
        r.deep_view() == parts(s@, c),
        r@.len() > 0,
{
    let chars = text::chars_of(s);
    let total: usize = chars.len();
    let mut r: Vec<String> = Vec::new();
    let mut start: usize = 0;
    assert(s@.skip(0) =~= s@);
    assert(r.deep_view() + parts(s@, c) =~= parts(s@, c));
    for i in 0..total
        invariant
            chars@ == s@,
            total == chars@.len(),
            start <= i <= total,
            forall|k: int| start <= k < i ==> #[trigger] s@[k] != c,
            r.deep_view() + parts(s@.skip(start as int), c) == parts(s@, c),
    {
        if chars[i] == c {
            let ghost rest = s@.skip(start as int);
            let ghost before = r.deep_view();
            let part = text::string_of(&chars, start, i);
            proof {
                assert forall|k: int| 0 <= k < i - start implies rest[k] != c by {
                    assert(rest[k] == s@[start + k]);
                }
                text::lemma_first_char_unique(rest, c, i - start);
                assert(part@ =~= rest.take(i - start));
                assert(rest.skip(i - start + 1) =~= s@.skip(i + 1));
            }
            r.push(part);
            assert(r.deep_view() =~= before.push(part@));
            assert(r.deep_view() + parts(s@.skip(i + 1), c) =~= before + parts(rest, c));
            start = i + 1;
        }
    }
    let ghost rest = s@.skip(start as int);
    let ghost before = r.deep_view();
    let part = text::string_of(&chars, start, total);
    proof {
        assert forall|k: int| 0 <= k < rest.len() implies rest[k] != c by {
            assert(rest[k] == s@[start + k]);
        }
        text::lemma_first_char_unique(rest, c, rest.len() as int);
        assert(part@ =~= rest);
    }
    r.push(part);
    assert(r.deep_view() =~= before + parts(rest, c));
    r
}

/// Digits stand for at least the number that their beginning stands for.
proof fn lemma_number_grows(s: Seq<char>, i: int)
    requires
        all_digits(s),
        0 <= i <= s.len(),
    ensures
        number_of(s.take(i)) <= number_of(s),
    decreases s.len() - i,
{
    if i < s.len() {
        let longer = s.take(i + 1);
        assert(longer.drop_last() =~= s.take(i));
        assert(longer.last() == s[i]);
        lemma_number_grows(s, i + 1);
    } else {
        assert(s.take(i) =~= s);
    }
}

/// Reads a decimal number of at most `limit`.
pub fn read_number(s: &str, limit: u64) -> (r: Option<u64>)
    requires
        limit <= u32::MAX,
    ensures
        match r {
            Some(n) => s@.len() > 0 && all_digits(s@) && number_of(s@) == n && n <= limit,
            None => s@.len() == 0 || !all_digits(s@) || number_of(s@) > limit,
        },
{
    let chars = text::chars_of(s);
    let total: usize = chars.len();
    if total == 0 {
        return None;
    }
    let mut n: u64 = 0;
    for i in 0..total
        invariant
            chars@ == s@,
            total == chars@.len(),
            n <= limit <= u32::MAX,
            n == number_of(s@.take(i as int)),
            forall|k: int| 0 <= k < i ==> '0' <= #[trigger] s@[k] <= '9',
    {
        let c = chars[i];
        if c < '0' || c > '9' {
            assert(!all_digits(s@)) by {
                assert(!('0' <= s@[i as int] <= '9'));
            }
            return None;
        }
        let ghost longer = s@.take(i + 1);
        assert(longer.drop_last() =~= s@.take(i as int));
        assert(longer.last() == c);
        n = 10 * n + (c as u64 - '0' as u64);
        assert(n == number_of(longer));
        if n > limit {
            proof {
                if all_digits(s@) {
                    lemma_number_grows(s@, i + 1);
                }
            }
            return None;
        }
    }
    assert(s@.take(total as int) =~= s@);
    Some(n)
}

/// Reads an octet.
fn read_octet(s: &str) -> (r: Option<u8>)
    ensures
        match r {
            Some(n) => is_octet(s@) && n == number_of(s@),
            None => !is_octet(s@),
        },
{
    let chars = text::chars_of(s);
    if chars.len() > 3 || (chars.len() > 1 && chars[0] == '0') {
        return None;
    }
    match read_number(s, 255) {
        Some(n) => Some(n as u8),
        None => None,
    }
}

/// Reads the host of an IPv4 address.
pub fn read_host(s: &str) -> (r: Option<(u8, u8, u8, u8)>)
    ensures
        r == parsed_host(s@),
{
    let octets = split(s, '.');
    if octets.len() != 4 {
        return None;
    }
    assert(octets.deep_view()[0] == octets@[0]@);
    assert(octets.deep_view()[1] == octets@[1]@);
    assert(octets.deep_view()[2] == octets@[2]@);
    assert(octets.deep_view()[3] == octets@[3]@);
    match (
        read_octet(&octets[0]),
        read_octet(&octets[1]),
        read_octet(&octets[2]),
        read_octet(&octets[3]),
    ) {
        (Some(a), Some(b), Some(c), Some(d)) => Some((a, b, c, d)),
        _ => None,
    }
}

/// Reads an IPv4 socket address.
fn read_v4(s: &str) -> (r: Option<SocketAddressV4>)
    ensures
        r == parsed_v4(s@),
{
    let halves = split(s, ':');
    assert(halves.deep_view()[0] == halves@[0]@);
    let (a, b, c, d) = match read_host(&halves[0]) {
        Some(host) => host,
        None => {
            return None;
        },
    };
    if halves.len() != 2 {
        return None;
    }
    assert(halves.deep_view()[1] == halves@[1]@);
    match read_number(&halves[1], 65535) {
        Some(port) => Some(SocketAddressV4 { a, b, c, d, port: port as u16 }),
        None => None,
    }
}

/// Reads a socket address.
pub fn parse_socket_address(s: &str) -> (r: Option<SocketAddress>)
    ensures
        r == parsed(s@),
{
    match read_v4(s) {
        Some(address) => Some(SocketAddress::V4(address)),
        None => match ipv6::read_v6(s) {
            Some(address) => Some(SocketAddress::V6(address)),
            None => None,
        },
    }
}

/// Returns the text of the host of an IPv4 address.
pub fn format_host(a: u8, b: u8, c: u8, d: u8) -> (r: String)
    ensures
        r@ == host_text(a, b, c, d),
{
    let mut r = text::format_u64(a as u64);
    r.push_str(".");
    r.push_str(&text::format_u64(b as u64));
    r.push_str(".");
    r.push_str(&text::format_u64(c as u64));
    r.push_str(".");
    r.push_str(&text::format_u64(d as u64));
    r
}

impl SocketAddress {
    /// Returns the text of the address.
    pub fn to_text(&self) -> (r: String)
        ensures
            r@ == address_text(*self),
    {
        match self {
            SocketAddress::V4(address) => {
                let mut r = format_host(address.a, address.b, address.c, address.d);
                r.push_str(":");
                r.push_str(&text::format_u64(address.port as u64));
                r
            },
            SocketAddress::V6(address) => address.to_text(),
        }
    }
}

/// A decimal number is read back.
pub proof fn lemma_decimal(n: nat)
    ensures
        all_digits(text::decimal(n)),
        text::decimal(n).len() > 0,
        number_of(text::decimal(n)) == n,
        text::decimal(n).len() > 1 ==> text::decimal(n)[0] != '0',
        n < 10 ==> text::decimal(n).len() == 1,
        n >= 10 ==> text::decimal(n).len() == text::decimal(n / 10).len() + 1,
    decreases n,
{
    let s = text::decimal(n);
    if n < 10 {
        assert(s.drop_last() =~= Seq::empty());
        assert(number_of(s.drop_last()) == 0);
    } else {
        lemma_decimal(n / 10);
        let front = text::decimal(n / 10);
        assert(s.drop_last() =~= front);
        assert forall|i: int| 0 <= i < s.len() implies '0' <= #[trigger] s[i] <= '9' by {
            if i < front.len() {
                assert(s[i] == front[i]);
            }
        }
        assert(s[0] == front[0]);
        if front.len() == 1 {
            assert(front.drop_last() =~= Seq::empty());
            assert(number_of(front.drop_last()) == 0);
            assert(front.last() == front[0]);
            assert(number_of(front) == front[0] as u32 - '0' as u32);
        }
    }
}

/// The number before a separator is the first part.
pub proof fn lemma_first_part(first: Seq<char>, c: char, rest: Seq<char>)
    requires
        !first.contains(c),
    ensures
        parts(first + seq![c] + rest, c) == seq![first] + parts(rest, c),
{
    let s = first + seq![c] + rest;
    let n = first.len() as int;
    assert forall|k: int| 0 <= k < n implies s[k] != c by {
        assert(s[k] == first[k]);
        assert(first.contains(first[k]));
    }
    assert(s[n] == c);
    text::lemma_first_char_unique(s, c, n);
    assert(s.take(n) =~= first);
    assert(s.skip(n + 1) =~= rest);
}

/// A text without the separator is its only part.
pub proof fn lemma_only_part(s: Seq<char>, c: char)
    requires
        !s.contains(c),
    ensures
        parts(s, c) == seq![s],
{
    assert forall|k: int| 0 <= k < s.len() implies s[k] != c by {
        assert(s.contains(s[k]));
    }
    text::lemma_first_char_unique(s, c, s.len() as int);
}

/// The text of an IPv4 socket address stands for the address.
pub proof fn law_v4_text_is_read_back(address: SocketAddressV4)
    ensures
        parsed_v4(v4_text(address)) == Some(address),
        v4_text(address).len() > 0,
        '0' <= v4_text(address)[0] <= '9',
{
    let a = text::decimal(address.a as nat);
    let b = text::decimal(address.b as nat);
    let c = text::decimal(address.c as nat);
    let d = text::decimal(address.d as nat);
    let port = text::decimal(address.port as nat);
    reveal_strlit(".");
    reveal_strlit(":");
    lemma_decimal(address.a as nat);
    lemma_decimal(address.b as nat);
    lemma_decimal(address.c as nat);
    lemma_decimal(address.d as nat);
    lemma_decimal(address.port as nat);
    lemma_octet_len(address.a);
    lemma_octet_len(address.b);
    lemma_octet_len(address.c);
    lemma_octet_len(address.d);
    let dot = seq!['.'];
    let host = a + dot + (b + dot + (c + dot + d));
    let whole = v4_text(address);
    assert(whole =~= host + seq![':'] + port);
    assert forall|i: int| 0 <= i < host.len() implies host[i] != ':' by {}
    lemma_first_part(host, ':', port);
    lemma_only_part(port, ':');
    assert(parts(whole, ':') =~= seq![host, port]);
    lemma_first_part(a, '.', b + dot + (c + dot + d));
    lemma_first_part(b, '.', c + dot + d);
    lemma_first_part(c, '.', d);
    lemma_only_part(d, '.');
    assert(parts(host, '.') =~= seq![a, b, c, d]);
    assert(parsed_v4(whole) == Some(address));
    assert(whole[0] == a[0]);
    assert('0' <= a[0] <= '9');
}

/// An octet has at most three digits.
proof fn lemma_octet_len(n: u8)
    ensures
        text::decimal(n as nat).len() <= 3,
{
    lemma_decimal(n as nat);
    if n >= 10 {
        lemma_decimal((n / 10) as nat);
        if n >= 100 {
            lemma_decimal((n / 100) as nat);
            assert((n as nat) / 10 / 10 == n as nat / 100);
        }
    }
}

/// Decimal digits without a leading zero are the decimal form of their number.
pub proof fn lemma_canonical(s: Seq<char>)
    requires
        s.len() > 0,
        all_digits(s),
        s.len() > 1 ==> s[0] != '0',
    ensures
        text::decimal(number_of(s)) == s,
        s.len() > 1 ==> number_of(s) >= 10,
    decreases s.len(),
{
    let rest = s.drop_last();
    assert('0' <= s[s.len() - 1] <= '9');
    if s.len() == 1 {
        assert(rest =~= Seq::empty());
        assert(number_of(rest) == 0);
        assert(text::decimal(number_of(s)) =~= s);
    } else {
        assert forall|i: int| 0 <= i < rest.len() implies '0' <= #[trigger] rest[i] <= '9' by {
            assert(rest[i] == s[i]);
        }
        lemma_canonical(rest);
        assert(rest[0] == s[0]);
        let n = number_of(rest);
        let d = (s.last() as u32 - '0' as u32) as nat;
        assert(number_of(s) == 10 * n + d);
        if rest.len() == 1 {
            assert(rest.drop_last() =~= Seq::empty());
            assert(number_of(rest.drop_last()) == 0);
            assert(rest.last() == rest[0]);
            assert('0' <= rest[0] <= '9');
        }
        assert(n >= 1);
        assert((10 * n + d) / 10 == n);
        assert((10 * n + d) % 10 == d);
        assert(text::decimal(number_of(s)) =~= rest.push(text::digit(d)));
        assert(rest.push(s.last()) =~= s);
    }
}

/// What separators divide is put together again with them in between.
proof fn lemma_parts_of(s: Seq<char>, c: char)
    ensures
        parts(s, c).len() > 0,
        parts(s, c).len() == 1 ==> s == parts(s, c)[0],
        parts(s, c).len() > 1 ==> exists|rest: Seq<char>|
            s == parts(s, c)[0] + seq![c] + rest && #[trigger] parts(rest, c) == parts(s, c).skip(1),
    decreases s.len(),
{
    let at = text::first_char(s, c);
    text::lemma_first_char(s, c);
    if 0 <= at < s.len() {
        let rest = s.skip(at + 1);
        lemma_parts_of(rest, c);
        assert(parts(s, c).skip(1) =~= parts(rest, c));
        assert(s =~= s.take(at) + seq![c] + rest);
    }
}

/// An IPv4 socket address is read only from its own text: four numbers without leading zeros,
/// with dots between them, a colon and the digits of the port.
pub proof fn law_v4_is_read_from_its_text(s: Seq<char>)
    ensures
        parsed_v4(s) matches Some(address) ==> exists|port: Seq<char>|
            s == host_text(address.a, address.b, address.c, address.d) + ":"@ + port && all_digits(
                port,
            ) && port.len() > 0 && #[trigger] number_of(port) == address.port,
{
    reveal_strlit(":");
    reveal_strlit(".");
    if let Some(address) = parsed_v4(s) {
        let halves = parts(s, ':');
        lemma_parts_of(s, ':');
        let port = choose|rest: Seq<char>|
            s == halves[0] + seq![':'] + rest && #[trigger] parts(rest, ':') == halves.skip(1);
        lemma_parts_of(port, ':');
        assert(parts(port, ':').len() == 1);
        assert(port == halves[1]);
        let host = halves[0];
        let octets = parts(host, '.');
        lemma_parts_of(host, '.');
        let tail = choose|rest: Seq<char>|
            host == octets[0] + seq!['.'] + rest && #[trigger] parts(rest, '.') == octets.skip(1);
        lemma_parts_of(tail, '.');
        let more = choose|rest: Seq<char>|
            tail == octets.skip(1)[0] + seq!['.'] + rest && #[trigger] parts(rest, '.')
                == octets.skip(1).skip(1);
        lemma_parts_of(more, '.');
        let last = choose|rest: Seq<char>|
            more == octets.skip(1).skip(1)[0] + seq!['.'] + rest && #[trigger] parts(rest, '.')
                == octets.skip(1).skip(1).skip(1);
        lemma_parts_of(last, '.');
        assert(last == octets[3]);
        lemma_canonical(octets[0]);
        lemma_canonical(octets[1]);
        lemma_canonical(octets[2]);
        lemma_canonical(octets[3]);
        assert(host =~= host_text(address.a, address.b, address.c, address.d));
        assert(s =~= host_text(address.a, address.b, address.c, address.d) + ":"@ + port);
        assert(number_of(port) == address.port);
    }
}

} // verus!
