//! Text primitives: searching, trimming, splitting and number formatting over
//! the characters of a string.

use vstd::prelude::*;

verus! {

/// Appends a character.
pub assume_specification[ std::string::String::push ](s: &mut std::string::String, c: char)
    ensures
        final(s)@ == old(s)@.push(c),
;

/// Appends a string slice.
pub assume_specification[ std::string::String::push_str ](s: &mut std::string::String, other: &str)
    ensures
        final(s)@ == old(s)@ + other@,
;

/// Number of bytes of the UTF-8 encoding of `s`.
pub open spec fn byte_len(s: Seq<char>) -> nat {
    vstd::utf8::encode_utf8(s).len()
}

/// Number of bytes of the UTF-8 encoding of `c`.
pub open spec fn char_width(c: char) -> nat {
    let u = c as u32;
    if u < 0x80 {
        1
    } else if u < 0x800 {
        2
    } else if u < 0x10000 {
        3
    } else {
        4
    }
}

/// Number of bytes of the UTF-8 encoding of `c`.
pub fn width_of(c: char) -> (r: u8)
    ensures
        r == char_width(c),
{
    let u: u32 = c as u32;
    if u < 0x80 {
        1
    } else if u < 0x800 {
        2
    } else if u < 0x10000 {
        3
    } else {
        4
    }
}

/// The encoding of a text is as long as those of its characters together.
pub proof fn lemma_byte_len(s: Seq<char>)
    ensures
        s.len() == 0 ==> byte_len(s) == 0,
        s.len() > 0 ==> byte_len(s) == char_width(s[0]) + byte_len(s.skip(1)),
{
    if s.len() > 0 {
        assert(s.skip(1) =~= s.drop_first());
        vstd::utf8::char_is_scalar(s[0]);
    }
}

/// The encoding of a joined text is as long as those of its parts together.
pub proof fn lemma_byte_len_add(a: Seq<char>, b: Seq<char>)
    ensures
        byte_len(a + b) == byte_len(a) + byte_len(b),
    decreases a.len(),
{
    lemma_byte_len(a);
    lemma_byte_len(a + b);
    if a.len() == 0 {
        assert(a + b =~= b);
    } else {
        assert((a + b).skip(1) =~= a.skip(1) + b);
        lemma_byte_len_add(a.skip(1), b);
    }
}

/// The number of characters of `s` whose encoding takes exactly `bytes` bytes, when a
/// character ends there.
pub open spec fn char_offset(s: Seq<char>, bytes: nat) -> Option<int>
    decreases s.len(),
{
    if bytes == 0 {
        Some(0)
    } else if s.len() == 0 || char_width(s[0]) > bytes {
        None
    } else {
        match char_offset(s.skip(1), (bytes - char_width(s[0])) as nat) {
            Some(k) => Some(k + 1),
            None => None,
        }
    }
}

/// Finds how many characters of `chars` take exactly `bytes` bytes.
pub fn offset_of(chars: &Vec<char>, bytes: u128) -> (r: Option<usize>)
    ensures
        match r {
            Some(k) => char_offset(chars@, bytes as nat) == Some(k as int) && k <= chars@.len(),
            None => char_offset(chars@, bytes as nat) is None,
        },
{
    let mut rest: u128 = bytes;
    let mut k: usize = 0;
    assert(chars@.skip(0) =~= chars@);
    while k < chars.len() && rest > 0
        invariant
            k <= chars@.len(),
            match char_offset(chars@.skip(k as int), rest as nat) {
                Some(more) => char_offset(chars@, bytes as nat) == Some(k + more),
                None => char_offset(chars@, bytes as nat) is None,
            },
        decreases chars@.len() - k,
    {
        let width: u8 = width_of(chars[k]);
        assert(chars@.skip(k as int).skip(1) =~= chars@.skip(k + 1));
        if width as u128 > rest {
            return None;
        }
        rest = rest - width as u128;
        k += 1;
    }
    if rest == 0 {
        Some(k)
    } else {
        None
    }
}

/// The characters of `s`.
pub fn chars_of(s: &str) -> (chars: Vec<char>)
    ensures
        chars@ == s@,
{
    let mut chars: Vec<char> = Vec::new();
    for c in it: s.chars()
        invariant
            chars@ == s@.take(it.index()),
            it.seq() == s@,
    {
        chars.push(c);
    }
    chars
}

/// The string made of `chars[from..to]`.
pub fn string_of(chars: &Vec<char>, from: usize, to: usize) -> (s: String)
    requires
        from <= to <= chars@.len(),
    ensures
        s@ == chars@.subrange(from as int, to as int),
{
    let mut s = String::new();
    for i in from..to
        invariant
            from <= i <= to <= chars@.len(),
            s@ == chars@.subrange(from as int, i as int),
    {
        s.push(chars[i]);
    }
    s
}

/// Number of UTF-8 bytes of `s`.
pub fn utf8_len(s: &str) -> (n: usize)
    ensures
        n == byte_len(s@),
{
    s.as_bytes().len()
}

/// Whether the two texts hold the same characters.
pub fn same(a: &str, b: &str) -> (r: bool)
    ensures
        r == (a@ == b@),
{
    let x = chars_of(a);
    let y = chars_of(b);
    if x.len() != y.len() {
        return false;
    }
    for i in 0..x.len()
        invariant
            x@.len() == y@.len(),
            x@ == a@,
            y@ == b@,
            forall|j: int| 0 <= j < i ==> x@[j] == y@[j],
    {
        if x[i] != y[i] {
            return false;
        }
    }
    assert(x@ =~= y@);
    true
}

/// `t` occurs in `s` at character offset `i`.
pub open spec fn occurs_at(s: Seq<char>, t: Seq<char>, i: int) -> bool {
    0 <= i && i + t.len() <= s.len() && s.subrange(i, i + t.len()) == t
}

/// `t` occurs somewhere in `s`.
pub open spec fn contains_text(s: Seq<char>, t: Seq<char>) -> bool {
    exists|i: int| occurs_at(s, t, i)
}

/// Whether `chars` holds `pattern` at offset `at`.
fn matches_at(chars: &Vec<char>, pattern: &Vec<char>, at: usize) -> (r: bool)
    requires
        at <= chars@.len(),
    ensures
        r == occurs_at(chars@, pattern@, at as int),
{
    let total: usize = chars.len();
    if pattern.len() > total - at {
        return false;
    }
    for j in 0..pattern.len()
        invariant
            total == chars@.len(),
            at + pattern@.len() <= total,
            forall|k: int| 0 <= k < j ==> chars@[at + k] == pattern@[k],
    {
        if chars[at + j] != pattern[j] {
            assert(chars@.subrange(at as int, at + pattern@.len())[j as int] != pattern@[j as int]);
            return false;
        }
    }
    assert(chars@.subrange(at as int, at + pattern@.len()) =~= pattern@);
    true
}

/// Whether `pattern` occurs in `s`.
pub fn contains(s: &str, pattern: &str) -> (r: bool)
    ensures
        r == contains_text(s@, pattern@),
{
    let chars = chars_of(s);
    let wanted = chars_of(pattern);
    if wanted.len() > chars.len() {
        return false;
    }
    let last: usize = chars.len() - wanted.len();
    for i in 0..last
        invariant
            chars@ == s@,
            wanted@ == pattern@,
            last + wanted@.len() == chars@.len(),
            forall|k: int| 0 <= k < i ==> !occurs_at(s@, pattern@, k),
    {
        if matches_at(&chars, &wanted, i) {
            return true;
        }
    }
    matches_at(&chars, &wanted, last)
}

/// Whether `s` holds the character `c`.
pub fn contains_char(s: &str, c: char) -> (r: bool)
    ensures
        r == s@.contains(c),
{
    let chars = chars_of(s);
    for i in 0..chars.len()
        invariant
            chars@ == s@,
            forall|k: int| 0 <= k < i ==> s@[k] != c,
    {
        if chars[i] == c {
            assert(s@[i as int] == c);
            return true;
        }
    }
    false
}

/// Whether `s` begins with `prefix`.
pub fn starts_with(s: &str, prefix: &str) -> (r: bool)
    ensures
        r == occurs_at(s@, prefix@, 0),
{
    matches_at(&chars_of(s), &chars_of(prefix), 0)
}

/// What follows `prefix` in `s`, when `s` begins with it.
pub fn strip_prefix(s: &str, prefix: &str) -> (r: Option<String>)
    ensures
        match r {
            Some(rest) => occurs_at(s@, prefix@, 0) && s@ == prefix@ + rest@,
            None => !occurs_at(s@, prefix@, 0),
        },
{
    let chars = chars_of(s);
    let wanted = chars_of(prefix);
    if matches_at(&chars, &wanted, 0) {
        let rest = string_of(&chars, wanted.len(), chars.len());
        assert(s@ =~= prefix@ + rest@);
        Some(rest)
    } else {
        None
    }
}

/// The Unicode `White_Space` property.
pub open spec fn is_space(c: char) -> bool {
    let u = c as u32;
    ||| 0x9 <= u <= 0xd
    ||| u == 0x20
    ||| u == 0x85
    ||| u == 0xa0
    ||| u == 0x1680
    ||| 0x2000 <= u <= 0x200a
    ||| u == 0x2028
    ||| u == 0x2029
    ||| u == 0x202f
    ||| u == 0x205f
    ||| u == 0x3000
}

/// Whether `c` is white space.
pub fn is_white_space(c: char) -> (r: bool)
    ensures
        r == is_space(c),
{
    let u: u32 = c as u32;
    (0x9 <= u && u <= 0xd) || u == 0x20 || u == 0x85 || u == 0xa0 || u == 0x1680 || (0x2000 <= u
        && u <= 0x200a) || u == 0x2028 || u == 0x2029 || u == 0x202f || u == 0x205f || u == 0x3000
}

/// `s` without its leading white space.
pub open spec fn trimmed_start(s: Seq<char>) -> Seq<char>
    decreases s.len(),
{
    if s.len() > 0 && is_space(s[0]) {
        trimmed_start(s.skip(1))
    } else {
        s
    }
}

/// `s` without its trailing white space.
pub open spec fn trimmed_end(s: Seq<char>) -> Seq<char>
    decreases s.len(),
{
    if s.len() > 0 && is_space(s.last()) {
        trimmed_end(s.drop_last())
    } else {
        s
    }
}

/// `s` without leading and trailing white space.
pub open spec fn trimmed(s: Seq<char>) -> Seq<char> {
    trimmed_end(trimmed_start(s))
}

/// Drops leading white space.
pub fn trim_start(s: &str) -> (r: String)
    ensures
        r@ == trimmed_start(s@),
{
    let chars = chars_of(s);
    let mut from: usize = 0;
    assert(s@.skip(0) =~= s@);
    while from < chars.len() && is_white_space(chars[from])
        invariant
            from <= chars@.len(),
            chars@ == s@,
            trimmed_start(s@) == trimmed_start(s@.skip(from as int)),
        decreases chars@.len() - from,
    {
        assert(s@.skip(from as int).skip(1) =~= s@.skip(from + 1));
        from += 1;
    }
    let r = string_of(&chars, from, chars.len());
    assert(r@ =~= s@.skip(from as int));
    r
}

/// Drops trailing white space.
pub fn trim_end(s: &str) -> (r: String)
    ensures
        r@ == trimmed_end(s@),
{
    let chars = chars_of(s);
    let mut to: usize = chars.len();
    assert(s@.take(s@.len() as int) =~= s@);
    while to > 0 && is_white_space(chars[to - 1])
        invariant
            to <= chars@.len(),
            chars@ == s@,
            trimmed_end(s@) == trimmed_end(s@.take(to as int)),
        decreases to,
    {
        assert(s@.take(to as int).drop_last() =~= s@.take(to - 1));
        to -= 1;
    }
    let r = string_of(&chars, 0, to);
    assert(r@ =~= s@.take(to as int));
    r
}

/// Drops leading and trailing white space.
pub fn trim(s: &str) -> (r: String)
    ensures
        r@ == trimmed(s@),
{
    let start = trim_start(s);
    trim_end(&start)
}

/// `s` without its leading occurrences of `c`.
pub open spec fn trimmed_start_char(s: Seq<char>, c: char) -> Seq<char>
    decreases s.len(),
{
    if s.len() > 0 && s[0] == c {
        trimmed_start_char(s.skip(1), c)
    } else {
        s
    }
}

/// Drops leading occurrences of `c`.
pub fn trim_start_char(s: &str, c: char) -> (r: String)
    ensures
        r@ == trimmed_start_char(s@, c),
{
    let chars = chars_of(s);
    let mut from: usize = 0;
    assert(s@.skip(0) =~= s@);
    while from < chars.len() && chars[from] == c
        invariant
            from <= chars@.len(),
            chars@ == s@,
            trimmed_start_char(s@, c) == trimmed_start_char(s@.skip(from as int), c),
        decreases chars@.len() - from,
    {
        assert(s@.skip(from as int).skip(1) =~= s@.skip(from + 1));
        from += 1;
    }
    let r = string_of(&chars, from, chars.len());
    assert(r@ =~= s@.skip(from as int));
    r
}

/// `s` without its trailing line-break characters.
pub open spec fn trimmed_line_end(s: Seq<char>) -> Seq<char>
    decreases s.len(),
{
    if s.len() > 0 && (s.last() == '\r' || s.last() == '\n') {
        trimmed_line_end(s.drop_last())
    } else {
        s
    }
}

/// Drops every trailing carriage return and line feed.
pub fn trim_line_end(s: &str) -> (r: String)
    ensures
        r@ == trimmed_line_end(s@),
{
    let chars = chars_of(s);
    let mut to: usize = chars.len();
    assert(s@.take(s@.len() as int) =~= s@);
    while to > 0 && (chars[to - 1] == '\r' || chars[to - 1] == '\n')
        invariant
            to <= chars@.len(),
            chars@ == s@,
            trimmed_line_end(s@) == trimmed_line_end(s@.take(to as int)),
        decreases to,
    {
        assert(s@.take(to as int).drop_last() =~= s@.take(to - 1));
        to -= 1;
    }
    let r = string_of(&chars, 0, to);
    assert(r@ =~= s@.take(to as int));
    r
}

/// Offset of the first `c` in `s`, or the length of `s` when there is none.
pub open spec fn first_char(s: Seq<char>, c: char) -> int
    decreases s.len(),
{
    if s.len() == 0 || s[0] == c {
        0
    } else {
        1 + first_char(s.skip(1), c)
    }
}

pub proof fn lemma_first_char(s: Seq<char>, c: char)
    ensures
        0 <= first_char(s, c) <= s.len(),
        first_char(s, c) < s.len() ==> s[first_char(s, c)] == c,
        forall|k: int| 0 <= k < first_char(s, c) ==> s[k] != c,
    decreases s.len(),
{
    if s.len() > 0 && s[0] != c {
        lemma_first_char(s.skip(1), c);
        assert forall|k: int| 0 <= k < first_char(s, c) implies s[k] != c by {
            if k > 0 {
                assert(s[k] == s.skip(1)[k - 1]);
            }
        }
    }
}

pub proof fn lemma_first_char_unique(s: Seq<char>, c: char, at: int)
    requires
        0 <= at <= s.len(),
        at < s.len() ==> s[at] == c,
        forall|k: int| 0 <= k < at ==> s[k] != c,
    ensures
        first_char(s, c) == at,
{
    lemma_first_char(s, c);
}

/// Offset of the first `c` at or after `from`, or the length.
fn find_char(chars: &Vec<char>, from: usize, c: char) -> (at: usize)
    requires
        from <= chars@.len(),
    ensures
        from <= at <= chars@.len(),
        at - from == first_char(chars@.skip(from as int), c),
{
    let mut at: usize = from;
    while at < chars.len() && chars[at] != c
        invariant
            from <= at <= chars@.len(),
            forall|k: int| from <= k < at ==> chars@[k] != c,
        decreases chars@.len() - at,
    {
        at += 1;
    }
    proof {
        lemma_first_char_unique(chars@.skip(from as int), c, at - from);
    }
    at
}

/// `line` without one trailing carriage return.
pub open spec fn without_cr(line: Seq<char>) -> Seq<char> {
    if line.len() > 0 && line.last() == '\r' {
        line.drop_last()
    } else {
        line
    }
}

/// The lines of `s`: each ends at a line feed, of which it loses the line feed and a
/// carriage return before it; text after the last line feed is one more line.
pub open spec fn lines_of(s: Seq<char>) -> Seq<Seq<char>>
    decreases s.len(),
{
    if s.len() == 0 {
        Seq::empty()
    } else {
        let at = first_char(s, '\n');
        if 0 <= at < s.len() {
            seq![without_cr(s.take(at))] + lines_of(s.skip(at + 1))
        } else {
            seq![s]
        }
    }
}

/// Splits `s` into its lines.
pub fn lines(s: &str) -> (r: Vec<String>)
    ensures
        r.deep_view() == lines_of(s@),
{
    let chars = chars_of(s);
    let mut r: Vec<String> = Vec::new();
    let mut pos: usize = 0;
    assert(s@.skip(0) =~= s@);
    assert(r.deep_view() =~= Seq::empty());
    assert(r.deep_view() + lines_of(s@.skip(0)) =~= lines_of(s@));
    while pos < chars.len()
        invariant
            pos <= chars@.len(),
            chars@ == s@,
            r.deep_view() + lines_of(s@.skip(pos as int)) == lines_of(s@),
        decreases chars@.len() - pos,
    {
        let at = find_char(&chars, pos, '\n');
        let ghost rest = s@.skip(pos as int);
        let ghost before = r.deep_view();
        if at < chars.len() {
            let mut end: usize = at;
            if end > pos && chars[end - 1] == '\r' {
                end -= 1;
            }
            let line = string_of(&chars, pos, end);
            proof {
                assert(rest.take(at - pos) =~= s@.subrange(pos as int, at as int));
                assert(line@ =~= without_cr(rest.take(at - pos)));
                assert(rest.skip(at - pos + 1) =~= s@.skip(at + 1));
            }
            r.push(line);
            assert(r.deep_view() =~= before.push(line@));
            assert(r.deep_view() + lines_of(s@.skip(at + 1)) =~= before + lines_of(rest));
            pos = at + 1;
        } else {
            let line = string_of(&chars, pos, chars.len());
            assert(line@ =~= rest);
            r.push(line);
            assert(r.deep_view() =~= before.push(line@));
            assert(s@.skip(at as int) =~= Seq::empty());
            assert(r.deep_view() + lines_of(s@.skip(at as int)) =~= before + lines_of(rest));
            pos = at;
        }
    }
    assert(s@.skip(pos as int) =~= Seq::empty());
    assert(r.deep_view() =~= lines_of(s@));
    r
}

/// The text before and the text after the first `c`, when there is one.
pub fn split_once(s: &str, c: char) -> (r: Option<(String, String)>)
    ensures
        match r {
            Some((before, after)) => first_char(s@, c) < s@.len() && before@ == s@.take(
                first_char(s@, c),
            ) && after@ == s@.skip(first_char(s@, c) + 1),
            None => first_char(s@, c) == s@.len(),
        },
{
    let chars = chars_of(s);
    let at = find_char(&chars, 0, c);
    assert(s@.skip(0) =~= s@);
    if at < chars.len() {
        let before = string_of(&chars, 0, at);
        let after = string_of(&chars, at + 1, chars.len());
        assert(before@ =~= s@.take(at as int));
        assert(after@ =~= s@.skip(at + 1));
        Some((before, after))
    } else {
        None
    }
}

/// Length of the longest prefix of `s` without white space.
pub open spec fn word_len(s: Seq<char>) -> nat
    decreases s.len(),
{
    if s.len() == 0 || is_space(s[0]) {
        0
    } else {
        1 + word_len(s.skip(1))
    }
}

/// The word that `s` begins with: what stands before its first white space, if anything
/// does.
pub open spec fn leading_word(s: Seq<char>) -> Option<Seq<char>> {
    if word_len(s) == 0 {
        None
    } else {
        Some(s.take(word_len(s) as int))
    }
}

pub proof fn lemma_word_len(s: Seq<char>)
    ensures
        word_len(s) <= s.len(),
        word_len(s) < s.len() ==> is_space(s[word_len(s) as int]),
        forall|k: int| 0 <= k < word_len(s) ==> !is_space(s[k]),
    decreases s.len(),
{
    if s.len() > 0 && !is_space(s[0]) {
        lemma_word_len(s.skip(1));
        assert forall|k: int| 0 <= k < word_len(s) implies !is_space(s[k]) by {
            if k > 0 {
                assert(s[k] == s.skip(1)[k - 1]);
            }
        }
    }
}

/// Returns the word that `s` begins with.
pub fn first_word(s: &str) -> (r: Option<String>)
    ensures
        match r {
            Some(word) => leading_word(s@) == Some(word@),
            None => leading_word(s@) is None,
        },
{
    let chars = chars_of(s);
    let mut to: usize = 0;
    while to < chars.len() && !is_white_space(chars[to])
        invariant
            to <= chars@.len(),
            forall|k: int| 0 <= k < to ==> !is_space(chars@[k]),
        decreases chars@.len() - to,
    {
        to += 1;
    }
    proof {
        lemma_word_len(chars@);
    }
    if to == 0 {
        return None;
    }
    let word = string_of(&chars, 0, to);
    assert(word@ =~= s@.take(to as int));
    Some(word)
}

/// ASCII letters folded to lower case, every other character kept.
pub open spec fn ascii_lower_char(c: char) -> char {
    if 'A' <= c <= 'Z' {
        ((c as u32) + 32) as char
    } else {
        c
    }
}

/// `s` with its ASCII letters in lower case.
pub open spec fn ascii_lower(s: Seq<char>) -> Seq<char> {
    s.map_values(|c: char| ascii_lower_char(c))
}

/// Folds ASCII letters to lower case.
pub fn to_ascii_lower(s: &str) -> (r: String)
    ensures
        r@ == ascii_lower(s@),
{
    let chars = chars_of(s);
    let mut r = String::new();
    for i in 0..chars.len()
        invariant
            chars@ == s@,
            r@ == ascii_lower(s@).take(i as int),
    {
        let c: char = chars[i];
        let low: char = if 'A' <= c && c <= 'Z' {
            ((c as u8) + 32) as char
        } else {
            c
        };
        r.push(low);
        assert(ascii_lower(s@).take(i + 1) =~= ascii_lower(s@).take(i as int).push(low));
    }
    assert(ascii_lower(s@).take(s@.len() as int) =~= ascii_lower(s@));
    r
}

/// The character of a decimal digit.
pub open spec fn digit(d: nat) -> char {
    ((48 + d) as u8) as char
}

/// The decimal digits of `n`.
pub open spec fn decimal(n: nat) -> Seq<char>
    decreases n,
{
    if n < 10 {
        seq![digit(n)]
    } else {
        decimal(n / 10).push(digit(n % 10))
    }
}

/// Formats `n` in decimal.
pub fn format_u64(n: u64) -> (r: String)
    ensures
        r@ == decimal(n as nat),
    decreases n,
{
    let last: char = (48u8 + (n % 10) as u8) as char;
    if n < 10 {
        let mut r = String::new();
        r.push(last);
        assert(r@ =~= decimal(n as nat));
        r
    } else {
        let mut r = format_u64(n / 10);
        r.push(last);
        r
    }
}

/// The decimal form of an integer, with a sign when it is negative.
pub open spec fn signed_decimal(n: int) -> Seq<char> {
    if n < 0 {
        seq!['-'] + decimal((-n) as nat)
    } else {
        decimal(n as nat)
    }
}

/// Formats `n` in decimal.
pub fn format_i64(n: i64) -> (r: String)
    ensures
        r@ == signed_decimal(n as int),
{
    if n < 0 {
        let magnitude: u64 = ((-(n + 1)) as u64) + 1;
        let digits = format_u64(magnitude);
        let mut r = String::new();
        r.push('-');
        r.push_str(&digits);
        assert(r@ =~= signed_decimal(n as int));
        r
    } else {
        format_u64(n as u64)
    }
}

/// The decimal form of `n` padded with zeros to three digits.
pub open spec fn decimal3(n: nat) -> Seq<char> {
    seq![digit(n / 100), digit(n / 10 % 10), digit(n % 10)]
}

/// Formats a number below 1000 with three digits.
pub fn format_three_digits(n: u32) -> (r: String)
    requires
        n < 1000,
    ensures
        r@ == decimal3(n as nat),
{
    let mut r = String::new();
    r.push((48u8 + (n / 100) as u8) as char);
    r.push((48u8 + (n / 10 % 10) as u8) as char);
    r.push((48u8 + (n % 10) as u8) as char);
    assert(r@ =~= decimal3(n as nat));
    r
}

/// Joins two texts.
pub fn concat(a: &str, b: &str) -> (r: String)
    ensures
        r@ == a@ + b@,
{
    let mut r = a.to_owned();
    r.push_str(b);
    r
}

/// Joins three texts.
pub fn concat3(a: &str, b: &str, c: &str) -> (r: String)
    ensures
        r@ == a@ + b@ + c@,
{
    let mut r = concat(a, b);
    r.push_str(c);
    r
}

/// Position of `a` before or at `b` in the order by code points.
pub open spec fn text_le(a: Seq<char>, b: Seq<char>) -> bool
    decreases a.len(),
{
    if a.len() == 0 {
        true
    } else if b.len() == 0 {
        false
    } else if a[0] != b[0] {
        a[0] < b[0]
    } else {
        text_le(a.skip(1), b.skip(1))
    }
}

pub proof fn lemma_text_le_total(a: Seq<char>, b: Seq<char>)
    ensures
        text_le(a, b) || text_le(b, a),
    decreases a.len(),
{
    if a.len() > 0 && b.len() > 0 && a[0] == b[0] {
        lemma_text_le_total(a.skip(1), b.skip(1));
    }
}

pub proof fn lemma_text_le_antisymmetric(a: Seq<char>, b: Seq<char>)
    requires
        text_le(a, b),
        text_le(b, a),
    ensures
        a == b,
    decreases a.len(),
{
    if a.len() > 0 && b.len() > 0 {
        lemma_text_le_antisymmetric(a.skip(1), b.skip(1));
        assert forall|i: int| 0 <= i < a.len() implies a[i] == b[i] by {
            if i > 0 {
                assert(a[i] == a.skip(1)[i - 1]);
                assert(b[i] == b.skip(1)[i - 1]);
            }
        }
        assert(a.len() == a.skip(1).len() + 1);
        assert(b.len() == b.skip(1).len() + 1);
    }
    assert(a =~= b);
}

pub proof fn lemma_text_le_transitive(a: Seq<char>, b: Seq<char>, c: Seq<char>)
    requires
        text_le(a, b),
        text_le(b, c),
    ensures
        text_le(a, c),
    decreases a.len(),
{
    if a.len() > 0 && a[0] == b[0] && b[0] == c[0] {
        lemma_text_le_transitive(a.skip(1), b.skip(1), c.skip(1));
    }
}

/// Whether `a` comes before or at `b` in the order by code points.
pub fn not_after(a: &str, b: &str) -> (r: bool)
    ensures
        r == text_le(a@, b@),
{
    let x = chars_of(a);
    let y = chars_of(b);
    let mut i: usize = 0;
    assert(a@.skip(0) =~= a@);
    assert(b@.skip(0) =~= b@);
    while i < x.len() && i < y.len() && x[i] == y[i]
        invariant
            i <= x@.len(),
            i <= y@.len(),
            x@ == a@,
            y@ == b@,
            text_le(a@, b@) == text_le(a@.skip(i as int), b@.skip(i as int)),
        decreases x@.len() - i,
    {
        assert(a@.skip(i as int).skip(1) =~= a@.skip(i + 1));
        assert(b@.skip(i as int).skip(1) =~= b@.skip(i + 1));
        i += 1;
    }
    if i == x.len() {
        true
    } else if i == y.len() {
        false
    } else {
        x[i] < y[i]
    }
}

} // verus!
