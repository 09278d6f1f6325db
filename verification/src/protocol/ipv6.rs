//! IPv6 socket addresses and their texts.

use vstd::prelude::*;

use crate::protocol::socket_address;
use crate::text;

verus! {

/// An IPv6 socket address: eight groups of sixteen bits, a scope and a port.
#[derive(Debug, Clone, Copy, PartialEq, Eq, Structural)]
pub struct SocketAddressV6 {
    pub a: u16,
    pub b: u16,
    pub c: u16,
    pub d: u16,
    pub e: u16,
    pub f: u16,
    pub g: u16,
    pub h: u16,
    pub scope_id: u32,
    pub port: u16,
}

/// The character is a hexadecimal digit.
pub open spec fn is_hex(c: char) -> bool {
    '0' <= c <= '9' || 'a' <= c <= 'f' || 'A' <= c <= 'F'
}

/// The number that a hexadecimal digit stands for.
pub open spec fn hex_digit(c: char) -> nat {
    if c <= '9' {
        (c as u32 - '0' as u32) as nat
    } else if c <= 'F' {
        (c as u32 - 'A' as u32 + 10) as nat
    } else {
        (c as u32 - 'a' as u32 + 10) as nat
    }
}

/// The number that hexadecimal digits stand for.
pub open spec fn hex_number(s: Seq<char>) -> nat
    decreases s.len(),
{
    if s.len() == 0 {
        0
    } else {
        16 * hex_number(s.drop_last()) + hex_digit(s.last())
    }
}

/// A group: one to four hexadecimal digits.
pub open spec fn is_group(s: Seq<char>) -> bool {
    &&& 0 < s.len() <= 4
    &&& forall|i: int| 0 <= i < s.len() ==> is_hex(#[trigger] s[i])
}

/// The groups that `pieces` stand for. The last piece may be the host of an IPv4 address,
/// which fills two groups, where `embeds` allows it.
pub open spec fn groups_of(pieces: Seq<Seq<char>>, embeds: bool) -> Option<Seq<u16>>
    decreases pieces.len(),
{
    if pieces.len() == 0 {
        Some(Seq::empty())
    } else if is_group(pieces[0]) {
        match groups_of(pieces.skip(1), embeds) {
            Some(rest) => Some(seq![hex_number(pieces[0]) as u16] + rest),
            None => None,
        }
    } else if pieces.len() == 1 && embeds {
        match socket_address::parsed_host(pieces[0]) {
            Some((a, b, c, d)) => Some(seq![(a * 256 + b) as u16, (c * 256 + d) as u16]),
            None => None,
        }
    } else {
        None
    }
}

/// The groups of a text with colons between them; an empty text has none.
pub open spec fn listed_groups(s: Seq<char>, embeds: bool) -> Option<Seq<u16>> {
    if s.len() == 0 {
        Some(Seq::empty())
    } else {
        groups_of(socket_address::parts(s, ':'), embeds)
    }
}

/// Where the first two colons in a row begin, or the length of the text.
pub open spec fn first_gap(s: Seq<char>) -> int
    decreases s.len(),
{
    if s.len() == 0 || (s.len() >= 2 && s[0] == ':' && s[1] == ':') {
        0
    } else {
        1 + first_gap(s.skip(1))
    }
}

/// `n` groups of zeros.
pub open spec fn zeros(n: int) -> Seq<u16> {
    Seq::new(n as nat, |i: int| 0u16)
}

/// The eight groups that the text of an IPv6 address stands for. Two colons in a row stand
/// for one or more groups of zeros.
pub open spec fn parsed_groups(s: Seq<char>) -> Option<Seq<u16>> {
    let at = first_gap(s);
    if at < s.len() {
        match (listed_groups(s.take(at), false), listed_groups(s.skip(at + 2), true)) {
            (Some(head), Some(tail)) => if head.len() + tail.len() < 8 {
                Some(head + zeros(8 - head.len() - tail.len()) + tail)
            } else {
                None
            },
            _ => None,
        }
    } else {
        match listed_groups(s, true) {
            Some(groups) => if groups.len() == 8 {
                Some(groups)
            } else {
                None
            },
            None => None,
        }
    }
}

/// A scope: a number of thirty-two bits.
pub open spec fn is_scope(s: Seq<char>) -> bool {
    &&& 0 < s.len()
    &&& socket_address::all_digits(s)
    &&& socket_address::number_of(s) <= u32::MAX
}

/// What stands before the first `c` in `s` and what behind it; nothing stands behind where
/// `s` holds none.
pub open spec fn cut_at(s: Seq<char>, c: char) -> (Seq<char>, Option<Seq<char>>) {
    let at = text::first_char(s, c);
    if at < s.len() {
        (s.take(at), Some(s.skip(at + 1)))
    } else {
        (s, None)
    }
}

/// The scope of an address, given the text of one; an address without a scope has scope zero.
pub open spec fn parsed_scope(scope: Option<Seq<char>>) -> Option<u32> {
    match scope {
        None => Some(0),
        Some(scope) => if is_scope(scope) {
            Some(socket_address::number_of(scope) as u32)
        } else {
            None
        },
    }
}

/// The address of the given groups, scope and port.
pub open spec fn with_groups(groups: Seq<u16>, scope_id: u32, port: u16) -> SocketAddressV6 {
    SocketAddressV6 {
        a: groups[0],
        b: groups[1],
        c: groups[2],
        d: groups[3],
        e: groups[4],
        f: groups[5],
        g: groups[6],
        h: groups[7],
        scope_id,
        port,
    }
}

/// The IPv6 socket address that a text stands for: an IPv6 address in square brackets, with
/// a scope behind a percent sign or without one, a colon and a port.
pub open spec fn parsed_v6(s: Seq<char>) -> Option<SocketAddressV6> {
    if s.len() == 0 || s[0] != '[' {
        None
    } else {
        let (inside, behind) = cut_at(s.skip(1), ']');
        let (address, scope) = cut_at(inside, '%');
        match (behind, parsed_groups(address), parsed_scope(scope)) {
            (Some(behind), Some(groups), Some(scope_id)) => if behind.len() > 0 && behind[0] == ':'
                && socket_address::is_port(behind.skip(1)) {
                Some(
                    with_groups(groups, scope_id, socket_address::number_of(behind.skip(1)) as u16),
                )
            } else {
                None
            },
            _ => None,
        }
    }
}

/// The groups of an address.
pub open spec fn address_groups(address: SocketAddressV6) -> Seq<u16> {
    seq![
        address.a,
        address.b,
        address.c,
        address.d,
        address.e,
        address.f,
        address.g,
        address.h,
    ]
}

/// A hexadecimal digit.
pub open spec fn hex_char(d: nat) -> char {
    if d < 10 {
        (48 + d) as u8 as char
    } else {
        (87 + d) as u8 as char
    }
}

/// The hexadecimal form of a number.
pub open spec fn hex(n: nat) -> Seq<char>
    decreases n,
{
    if n < 16 {
        seq![hex_char(n)]
    } else {
        hex(n / 16).push(hex_char(n % 16))
    }
}

/// Groups in hexadecimal form with colons between them.
pub open spec fn listed(groups: Seq<u16>) -> Seq<char>
    decreases groups.len(),
{
    if groups.len() == 0 {
        Seq::empty()
    } else if groups.len() == 1 {
        hex(groups[0] as nat)
    } else {
        listed(groups.drop_last()) + ":"@ + hex(groups.last() as nat)
    }
}

/// How many groups from `i` on are zero in a row.
pub open spec fn zero_run(groups: Seq<u16>, i: int) -> int
    decreases groups.len() - i,
{
    if 0 <= i < groups.len() && groups[i] == 0 {
        1 + zero_run(groups, i + 1)
    } else {
        0
    }
}

/// Where the longest run of zeros from `i` on begins; of runs of one length the first counts.
pub open spec fn longest_run(groups: Seq<u16>, i: int) -> int
    decreases groups.len() - i,
{
    if 0 <= i < groups.len() {
        let later = longest_run(groups, i + 1);
        if zero_run(groups, i) >= zero_run(groups, later) {
            i
        } else {
            later
        }
    } else {
        groups.len() as int
    }
}

/// The groups hold an IPv4 address in their last two.
pub open spec fn is_mapped(groups: Seq<u16>) -> bool {
    groups[0] == 0 && groups[1] == 0 && groups[2] == 0 && groups[3] == 0 && groups[4] == 0
        && groups[5] == 0xffff
}

/// The text of eight groups: the longest run of two or more zeros is written as two colons,
/// and a mapped IPv4 address with dots.
pub open spec fn groups_text(groups: Seq<u16>) -> Seq<char> {
    let start = longest_run(groups, 0);
    let run = zero_run(groups, start);
    if is_mapped(groups) {
        "::ffff:"@ + socket_address::host_text(
            (groups[6] / 256) as u8,
            (groups[6] % 256) as u8,
            (groups[7] / 256) as u8,
            (groups[7] % 256) as u8,
        )
    } else if run > 1 {
        listed(groups.take(start)) + "::"@ + listed(groups.skip(start + run))
    } else {
        listed(groups)
    }
}

/// The text of an IPv6 socket address; scope zero is not written.
pub open spec fn v6_text(address: SocketAddressV6) -> Seq<char> {
    "["@ + groups_text(address_groups(address)) + (if address.scope_id == 0 {
        Seq::empty()
    } else {
        "%"@ + text::decimal(address.scope_id as nat)
    }) + "]:"@ + text::decimal(address.port as nat)
}

/// Reads a group.
fn read_group(s: &str) -> (r: Option<u16>)
    ensures
        match r {
            Some(n) => is_group(s@) && n == hex_number(s@),
            None => !is_group(s@),
        },
{
    let chars = text::chars_of(s);
    let total: usize = chars.len();
    if total == 0 || total > 4 {
        return None;
    }
    let mut n: u32 = 0;
    let mut limit: u32 = 1;
    for i in 0..total
        invariant
            chars@ == s@,
            total == chars@.len(),
            total <= 4,
            n == hex_number(s@.take(i as int)),
            n < limit,
            i == 0 ==> limit == 1,
            i == 1 ==> limit == 16,
            i == 2 ==> limit == 256,
            i == 3 ==> limit == 4096,
            i == 4 ==> limit == 65536,
            forall|k: int| 0 <= k < i ==> is_hex(#[trigger] s@[k]),
    {
        let c = chars[i];
        let digit: u32 = if '0' <= c && c <= '9' {
            c as u32 - '0' as u32
        } else if 'a' <= c && c <= 'f' {
            c as u32 - 'a' as u32 + 10
        } else if 'A' <= c && c <= 'F' {
            c as u32 - 'A' as u32 + 10
        } else {
            assert(!is_hex(s@[i as int]));
            return None;
        };
        let ghost longer = s@.take(i + 1);
        assert(longer.drop_last() =~= s@.take(i as int));
        assert(longer.last() == c);
        n = 16 * n + digit;
        limit = 16 * limit;
    }
    assert(s@.take(total as int) =~= s@);
    Some(n as u16)
}

/// Reads the groups that `pieces` stand for.
fn read_groups(pieces: &Vec<String>, embeds: bool) -> (r: Option<Vec<u16>>)
    ensures
        match r {
            Some(groups) => groups_of(pieces.deep_view(), embeds) == Some(groups@),
            None => groups_of(pieces.deep_view(), embeds) is None,
        },
{
    let ghost model = pieces.deep_view();
    let total: usize = pieces.len();
    let mut groups: Vec<u16> = Vec::new();
    assert(model.skip(0) =~= model);
    assert(forall|rest: Seq<u16>| #[trigger] (groups@ + rest) =~= rest);
    for i in 0..total
        invariant
            model == pieces.deep_view(),
            total == pieces@.len(),
            groups_of(model, embeds) == match groups_of(model.skip(i as int), embeds) {
                Some(rest) => Some(groups@ + rest),
                None => None,
            },
    {
        let ghost before = groups@;
        let ghost left = model.skip(i as int);
        assert(left[0] == pieces@[i as int]@);
        assert(left.skip(1) =~= model.skip(i + 1));
        match read_group(&pieces[i]) {
            Some(group) => {
                groups.push(group);
                assert(forall|rest: Seq<u16>| #[trigger]
                    (groups@ + rest) =~= before + (seq![group] + rest));
            },
            None => {
                if i + 1 != total || !embeds {
                    return None;
                }
                return match socket_address::read_host(&pieces[i]) {
                    Some((a, b, c, d)) => {
                        groups.push(a as u16 * 256 + b as u16);
                        groups.push(c as u16 * 256 + d as u16);
                        assert(groups@ =~= before + groups_of(left, embeds)->0);
                        Some(groups)
                    },
                    None => None,
                };
            },
        }
    }
    assert(model.skip(total as int) =~= Seq::empty());
    assert(groups@ + Seq::<u16>::empty() =~= groups@);
    Some(groups)
}

/// Reads the groups of a text with colons between them.
fn read_listed_groups(s: &str, embeds: bool) -> (r: Option<Vec<u16>>)
    ensures
        match r {
            Some(groups) => listed_groups(s@, embeds) == Some(groups@),
            None => listed_groups(s@, embeds) is None,
        },
{
    if s.is_empty() {
        let groups: Vec<u16> = Vec::new();
        assert(groups@ =~= Seq::empty());
        Some(groups)
    } else {
        read_groups(&socket_address::split(s, ':'), embeds)
    }
}

/// Finds where the first two colons in a row begin.
fn find_gap(chars: &Vec<char>) -> (at: usize)
    ensures
        at == first_gap(chars@),
        at <= chars@.len(),
        at < chars@.len() ==> at + 2 <= chars@.len(),
{
    let total: usize = chars.len();
    let mut at: usize = 0;
    assert(chars@.skip(0) =~= chars@);
    while at < total && !(total - at >= 2 && chars[at] == ':' && chars[at + 1] == ':')
        invariant
            total == chars@.len(),
            at <= total,
            first_gap(chars@) == at + first_gap(chars@.skip(at as int)),
        decreases total - at,
    {
        let ghost left = chars@.skip(at as int);
        assert(left[0] == chars@[at as int]);
        assert(left.len() >= 2 ==> left[1] == chars@[at + 1]);
        assert(left.skip(1) =~= chars@.skip(at + 1));
        at = at + 1;
    }
    proof {
        let left = chars@.skip(at as int);
        if at < total {
            assert(left[0] == chars@[at as int]);
            assert(left[1] == chars@[at + 1]);
        }
    }
    at
}

/// Reads the eight groups of an IPv6 address.
fn read_address(s: &str) -> (r: Option<Vec<u16>>)
    ensures
        match r {
            Some(groups) => parsed_groups(s@) == Some(groups@) && groups@.len() == 8,
            None => parsed_groups(s@) is None,
        },
{
    let chars = text::chars_of(s);
    let at = find_gap(&chars);
    if at < chars.len() {
        let before = text::string_of(&chars, 0, at);
        let behind = text::string_of(&chars, at + 2, chars.len());
        assert(before@ =~= s@.take(at as int));
        assert(behind@ =~= s@.skip(at + 2));
        match (read_listed_groups(&before, false), read_listed_groups(&behind, true)) {
            (Some(head), Some(tail)) => {
                if head.len() >= 8 || tail.len() >= 8 || head.len() + tail.len() >= 8 {
                    return None;
                }
                let ghost first = head@;
                let mut groups = head;
                let gap: usize = 8 - groups.len() - tail.len();
                for i in 0..gap
                    invariant
                        groups@ == first + zeros(i as int),
                {
                    groups.push(0);
                    assert(groups@ =~= first + zeros(i + 1));
                }
                let mut tail = tail;
                groups.append(&mut tail);
                Some(groups)
            },
            _ => None,
        }
    } else {
        match read_listed_groups(s, true) {
            Some(groups) => if groups.len() == 8 {
                Some(groups)
            } else {
                None
            },
            None => None,
        }
    }
}

/// Cuts a text at the first `c`.
fn cut(s: &str, c: char) -> (r: (String, Option<String>))
    ensures
        (r.0@, r.1.deep_view()) == cut_at(s@, c),
{
    proof {
        text::lemma_first_char(s@, c);
    }
    match text::split_once(s, c) {
        Some((before, behind)) => (before, Some(behind)),
        None => (s.to_owned(), None),
    }
}

/// Reads an IPv6 socket address.
pub fn read_v6(s: &str) -> (r: Option<SocketAddressV6>)
    ensures
        r == parsed_v6(s@),
{
    let chars = text::chars_of(s);
    if chars.len() == 0 || chars[0] != '[' {
        return None;
    }
    let rest = text::string_of(&chars, 1, chars.len());
    assert(rest@ =~= s@.skip(1));
    let (inside, behind) = cut(&rest, ']');
    let (address, scope) = cut(&inside, '%');
    let groups = match read_address(&address) {
        Some(groups) => groups,
        None => {
            return None;
        },
    };
    let scope_id: u32 = match scope {
        None => 0,
        Some(scope) => match socket_address::read_number(&scope, u32::MAX as u64) {
            Some(n) => n as u32,
            None => {
                return None;
            },
        },
    };
    let behind = match behind {
        Some(behind) => text::chars_of(&behind),
        None => {
            return None;
        },
    };
    if behind.len() == 0 || behind[0] != ':' {
        return None;
    }
    let port = text::string_of(&behind, 1, behind.len());
    assert(port@ =~= behind@.skip(1));
    match socket_address::read_number(&port, 65535) {
        Some(port) => Some(
            SocketAddressV6 {
                a: groups[0],
                b: groups[1],
                c: groups[2],
                d: groups[3],
                e: groups[4],
                f: groups[5],
                g: groups[6],
                h: groups[7],
                scope_id,
                port: port as u16,
            },
        ),
        None => None,
    }
}

/// Formats a number in hexadecimal form.
fn format_hex(n: u16) -> (r: String)
    ensures
        r@ == hex(n as nat),
    decreases n,
{
    let d: u8 = (n % 16) as u8;
    let last: char = if d < 10 {
        (48u8 + d) as char
    } else {
        (87u8 + d) as char
    };
    let mut r = if n < 16 {
        String::new()
    } else {
        format_hex(n / 16)
    };
    r.push(last);
    assert(r@ =~= hex(n as nat));
    r
}

/// Lists the groups from `from` up to `to` in hexadecimal form.
fn format_listed(groups: &Vec<u16>, from: usize, to: usize) -> (r: String)
    requires
        from <= to <= groups@.len(),
    ensures
        r@ == listed(groups@.subrange(from as int, to as int)),
{
    let mut r = String::new();
    assert(r@ =~= listed(groups@.subrange(from as int, from as int)));
    for i in from..to
        invariant
            from <= i <= to <= groups@.len(),
            r@ == listed(groups@.subrange(from as int, i as int)),
    {
        let ghost longer = groups@.subrange(from as int, i + 1);
        assert(longer.drop_last() =~= groups@.subrange(from as int, i as int));
        assert(longer.last() == groups@[i as int]);
        if i > from {
            r.push_str(":");
        }
        r.push_str(&format_hex(groups[i]));
        assert(r@ =~= listed(longer));
    }
    r
}

/// Finds the longest run of zeros: where it begins and how long it is.
fn find_run(groups: &Vec<u16>) -> (r: (usize, usize))
    ensures
        r.0 == longest_run(groups@, 0),
        r.1 == zero_run(groups@, r.0 as int),
        r.0 + r.1 <= groups@.len(),
{
    let total: usize = groups.len();
    let mut start: usize = total;
    let mut longest: usize = 0;
    let mut run: usize = 0;
    let mut i: usize = total;
    while i > 0
        invariant
            total == groups@.len(),
            i <= total,
            run == zero_run(groups@, i as int),
            i + run <= total,
            start == longest_run(groups@, i as int),
            longest == zero_run(groups@, start as int),
            start + longest <= total,
        decreases i,
    {
        i = i - 1;
        if groups[i] == 0 {
            run = run + 1;
        } else {
            run = 0;
        }
        if run >= longest {
            start = i;
            longest = run;
        }
    }
    (start, longest)
}

impl SocketAddressV6 {
    /// Returns the text of the address.
    pub fn to_text(&self) -> (r: String)
        ensures
            r@ == v6_text(*self),
    {
        let groups: Vec<u16> = vec![
            self.a,
            self.b,
            self.c,
            self.d,
            self.e,
            self.f,
            self.g,
            self.h,
        ];
        assert(groups@ =~= address_groups(*self));
        let mut r = String::from_str("[");
        r.push_str(&format_groups(&groups));
        if self.scope_id != 0 {
            r.push_str("%");
            r.push_str(&text::format_u64(self.scope_id as u64));
        }
        r.push_str("]:");
        r.push_str(&text::format_u64(self.port as u64));
        assert(r@ =~= v6_text(*self));
        r
    }
}

/// Returns the text of eight groups.
fn format_groups(groups: &Vec<u16>) -> (r: String)
    requires
        groups@.len() == 8,
    ensures
        r@ == groups_text(groups@),
{
    if groups[0] == 0 && groups[1] == 0 && groups[2] == 0 && groups[3] == 0 && groups[4] == 0
        && groups[5] == 0xffff {
        return text::concat(
            "::ffff:",
            &socket_address::format_host(
                (groups[6] / 256) as u8,
                (groups[6] % 256) as u8,
                (groups[7] / 256) as u8,
                (groups[7] % 256) as u8,
            ),
        );
    }
    let (start, run) = find_run(groups);
    if run > 1 {
        let head = format_listed(groups, 0, start);
        let tail = format_listed(groups, start + run, groups.len());
        assert(groups@.take(start as int) =~= groups@.subrange(0, start as int));
        assert(groups@.skip(start + run) =~= groups@.subrange(start + run, 8));
        text::concat3(&head, "::", &tail)
    } else {
        assert(groups@.subrange(0, 8) =~= groups@);
        format_listed(groups, 0, groups.len())
    }
}

/// The hexadecimal form of a number is a group that stands for it.
proof fn lemma_hex(n: nat)
    ensures
        hex(n).len() > 0,
        hex_number(hex(n)) == n,
        forall|i: int| 0 <= i < hex(n).len() ==> is_hex(#[trigger] hex(n)[i]),
        n < 16 ==> hex(n).len() == 1,
        n >= 16 ==> hex(n).len() == hex(n / 16).len() + 1,
    decreases n,
{
    let s = hex(n);
    let d = n % 16;
    assert(is_hex(hex_char(d)) && hex_digit(hex_char(d)) == d);
    if n < 16 {
        assert(s.drop_last() =~= Seq::empty());
        assert(hex_number(s.drop_last()) == 0);
    } else {
        lemma_hex(n / 16);
        assert(s.drop_last() =~= hex(n / 16));
        assert forall|i: int| 0 <= i < s.len() implies is_hex(#[trigger] s[i]) by {
            if i < s.len() - 1 {
                assert(s[i] == hex(n / 16)[i]);
            }
        }
    }
}

proof fn lemma_group(n: u16)
    ensures
        is_group(hex(n as nat)),
        hex_number(hex(n as nat)) == n,
{
    lemma_hex(n as nat);
    if n >= 16 {
        lemma_hex((n / 16) as nat);
        if n >= 256 {
            lemma_hex((n / 256) as nat);
            assert((n as nat) / 16 / 16 == n as nat / 256);
            if n >= 4096 {
                lemma_hex((n / 4096) as nat);
                assert((n as nat) / 256 / 16 == n as nat / 4096);
            }
        }
    }
}

/// Groups with colons between them: the pieces between the colons are the groups, and no two
/// colons stand in a row.
proof fn lemma_listed(groups: Seq<u16>)
    requires
        groups.len() > 0,
    ensures
        ({
            let s = listed(groups);
            &&& s.len() > 0
            &&& is_hex(s[0])
            &&& is_hex(s.last())
            &&& forall|i: int| 0 <= i < s.len() ==> is_hex(#[trigger] s[i]) || s[i] == ':'
            &&& forall|i: int| 0 <= i < s.len() - 1 ==> !(#[trigger] s[i] == ':' && s[i + 1] == ':')
            &&& socket_address::parts(s, ':') == hexes(groups)
        }),
    decreases groups.len(),
{
    reveal_strlit(":");
    let s = listed(groups);
    let last = hex(groups.last() as nat);
    lemma_group(groups.last());
    assert(!last.contains(':')) by {
        assert forall|i: int| 0 <= i < last.len() implies last[i] != ':' by {
            assert(is_hex(last[i]));
        }
    }
    assert(is_hex(last[0]) && is_hex(last[last.len() - 1]));
    if groups.len() == 1 {
        assert(s == last);
        assert(hexes(groups) =~= seq![last]);
        socket_address::lemma_only_part(s, ':');
    } else {
        let front = groups.drop_last();
        lemma_listed(front);
        let before = listed(front);
        assert(s =~= before + seq![':'] + last);
        assert(hexes(groups) =~= hexes(front).push(last));
        assert forall|i: int| 0 <= i < s.len() implies is_hex(#[trigger] s[i]) || s[i] == ':' by {
            if i < before.len() {
                assert(s[i] == before[i]);
            } else if i > before.len() {
                assert(s[i] == last[i - before.len() - 1]);
            }
        }
        assert forall|i: int| 0 <= i < s.len() - 1 implies !(#[trigger] s[i] == ':' && s[i + 1]
            == ':') by {
            if i < before.len() - 1 {
                assert(s[i] == before[i] && s[i + 1] == before[i + 1]);
            } else if i == before.len() - 1 {
                assert(s[i] == before.last());
            } else {
                assert(s[i + 1] == last[i - before.len()]);
            }
        }
        lemma_parts_then(front, last);
        socket_address::lemma_only_part(last, ':');
        assert(hexes(front) + seq![last] =~= hexes(groups));
    }
}

/// Groups in hexadecimal form.
spec fn hexes(groups: Seq<u16>) -> Seq<Seq<char>> {
    groups.map_values(|group: u16| hex(group as nat))
}

proof fn lemma_parts_then(groups: Seq<u16>, rest: Seq<char>)
    requires
        groups.len() > 0,
    ensures
        socket_address::parts(listed(groups) + seq![':'] + rest, ':') == hexes(groups)
            + socket_address::parts(rest, ':'),
    decreases groups.len(),
{
    reveal_strlit(":");
    let last = hex(groups.last() as nat);
    lemma_group(groups.last());
    assert(!last.contains(':')) by {
        assert forall|i: int| 0 <= i < last.len() implies last[i] != ':' by {
            assert(is_hex(last[i]));
        }
    }
    socket_address::lemma_first_part(last, ':', rest);
    if groups.len() == 1 {
        assert(hexes(groups) =~= seq![last]);
    } else {
        let front = groups.drop_last();
        lemma_parts_then(front, last + seq![':'] + rest);
        assert(listed(groups) + seq![':'] + rest =~= listed(front) + seq![':'] + (last + seq![':']
            + rest));
        assert(hexes(groups) =~= hexes(front).push(last));
        assert(hexes(front) + (seq![last] + socket_address::parts(rest, ':')) =~= hexes(groups)
            + socket_address::parts(rest, ':'));
    }
}

proof fn lemma_groups_of(groups: Seq<u16>, embeds: bool)
    ensures
        groups_of(hexes(groups), embeds) == Some(groups),
    decreases groups.len(),
{
    let pieces = hexes(groups);
    if groups.len() > 0 {
        let rest = groups.skip(1);
        lemma_groups_of(rest, embeds);
        lemma_group(groups[0]);
        assert(pieces.skip(1) =~= hexes(rest));
        assert(seq![groups[0]] + rest =~= groups);
    } else {
        assert(groups =~= Seq::empty());
    }
}

proof fn lemma_no_gap(s: Seq<char>)
    requires
        forall|i: int| 0 <= i < s.len() - 1 ==> !(#[trigger] s[i] == ':' && s[i + 1] == ':'),
    ensures
        first_gap(s) == s.len(),
    decreases s.len(),
{
    if s.len() > 0 {
        if s.len() >= 2 {
            assert(!(s[0] == ':' && s[1] == ':'));
        }
        let rest = s.skip(1);
        assert forall|i: int| 0 <= i < rest.len() - 1 implies !(#[trigger] rest[i] == ':' && rest[i
            + 1] == ':') by {
            assert(rest[i] == s[i + 1]);
            assert(rest[i + 1] == s[i + 2]);
        }
        lemma_no_gap(rest);
    }
}

/// An IPv6 socket address is read from its full text: all eight groups in hexadecimal form
/// with colons between them, in square brackets, a colon and the port.
pub proof fn law_v6_is_read_from_its_full_text(groups: Seq<u16>, port: u16)
    requires
        groups.len() == 8,
    ensures
        parsed_v6("["@ + listed(groups) + "]:"@ + text::decimal(port as nat)) == Some(
            with_groups(groups, 0, port),
        ),
{
    reveal_strlit("[");
    reveal_strlit("]:");
    let inner = listed(groups);
    let digits = text::decimal(port as nat);
    let whole = "["@ + inner + "]:"@ + digits;
    lemma_listed(groups);
    lemma_no_gap(inner);
    lemma_groups_of(groups, true);
    assert(whole[0] == '[');
    let rest = whole.skip(1);
    let n = inner.len() as int;
    assert forall|k: int| 0 <= k < n implies rest[k] == inner[k] && rest[k] != ']' && rest[k]
        != '%' by {
        assert(rest[k] == inner[k]);
        assert(is_hex(inner[k]) || inner[k] == ':');
    }
    assert(rest[n] == ']');
    text::lemma_first_char_unique(rest, ']', n);
    assert(rest.take(n) =~= inner);
    let behind = rest.skip(n + 1);
    assert(behind =~= seq![':'] + digits);
    assert(behind.skip(1) =~= digits);
    text::lemma_first_char_unique(inner, '%', n);
    socket_address::lemma_decimal(port as nat);
}

} // verus!
