//! What holds of trimmed texts and of the lines of a text.

use vstd::prelude::*;

use crate::text;

verus! {

/// The text is all white space.
pub open spec fn is_blank(s: Seq<char>) -> bool {
    forall|i: int| 0 <= i < s.len() ==> text::is_space(#[trigger] s[i])
}

/// The text neither begins nor ends with white space.
pub open spec fn is_trim(s: Seq<char>) -> bool {
    s.len() > 0 ==> !text::is_space(s[0]) && !text::is_space(s.last())
}

/// Trimming takes away exactly the white space around a text.
pub proof fn law_trimming_takes_the_white_space_around(
    lead: Seq<char>,
    s: Seq<char>,
    tail: Seq<char>,
)
    requires
        is_blank(lead),
        is_trim(s),
        is_blank(tail),
    ensures
        text::trimmed(lead + s + tail) == s,
{
    if s.len() == 0 {
        let whole = lead + s + tail;
        assert(is_blank(whole));
        lemma_blank(whole);
    } else {
        lemma_trimmed_start(lead, s + tail);
        assert(lead + s + tail =~= lead + (s + tail));
        lemma_trimmed_end(s, tail);
    }
}

/// What trimming takes away was white space, and nothing is left to trim.
pub proof fn law_trimming_leaves_nothing_to_trim(t: Seq<char>) -> (r: (Seq<char>, Seq<char>))
    ensures
        is_blank(r.0),
        is_blank(r.1),
        t == r.0 + text::trimmed(t) + r.1,
        is_trim(text::trimmed(t)),
{
    let start = text::trimmed_start(t);
    let lead = lemma_lead(t);
    let tail = lemma_tail(start);
    assert(t =~= lead + text::trimmed(t) + tail);
    (lead, tail)
}

proof fn lemma_blank(s: Seq<char>)
    requires
        is_blank(s),
    ensures
        text::trimmed_start(s) == Seq::<char>::empty(),
        text::trimmed(s) == Seq::<char>::empty(),
    decreases s.len(),
{
    if s.len() > 0 {
        assert(text::is_space(s[0]));
        let rest = s.skip(1);
        assert forall|i: int| 0 <= i < rest.len() implies text::is_space(#[trigger] rest[i]) by {
            assert(rest[i] == s[i + 1]);
        }
        lemma_blank(rest);
    } else {
        assert(s =~= Seq::empty());
    }
}

/// Leading white space is taken away up to the first other character.
pub proof fn lemma_trimmed_start(lead: Seq<char>, s: Seq<char>)
    requires
        is_blank(lead),
        s.len() > 0,
        !text::is_space(s[0]),
    ensures
        text::trimmed_start(lead + s) == s,
    decreases lead.len(),
{
    let whole = lead + s;
    if lead.len() > 0 {
        assert(whole[0] == lead[0]);
        let rest = lead.skip(1);
        assert forall|i: int| 0 <= i < rest.len() implies text::is_space(#[trigger] rest[i]) by {
            assert(rest[i] == lead[i + 1]);
        }
        lemma_trimmed_start(rest, s);
        assert(whole.skip(1) =~= rest + s);
    } else {
        assert(whole =~= s);
    }
}

proof fn lemma_trimmed_end(s: Seq<char>, tail: Seq<char>)
    requires
        is_blank(tail),
        s.len() > 0,
        !text::is_space(s.last()),
    ensures
        text::trimmed_end(s + tail) == s,
    decreases tail.len(),
{
    let whole = s + tail;
    if tail.len() > 0 {
        assert(whole.last() == tail[tail.len() - 1]);
        let rest = tail.drop_last();
        assert forall|i: int| 0 <= i < rest.len() implies text::is_space(#[trigger] rest[i]) by {
            assert(rest[i] == tail[i]);
        }
        lemma_trimmed_end(s, rest);
        assert(whole.drop_last() =~= s + rest);
    } else {
        assert(whole =~= s);
    }
}

proof fn lemma_lead(t: Seq<char>) -> (lead: Seq<char>)
    ensures
        is_blank(lead),
        t == lead + text::trimmed_start(t),
        text::trimmed_start(t).len() > 0 ==> !text::is_space(text::trimmed_start(t)[0]),
    decreases t.len(),
{
    if t.len() > 0 && text::is_space(t[0]) {
        let rest = lemma_lead(t.skip(1));
        let lead = seq![t[0]] + rest;
        assert forall|i: int| 0 <= i < lead.len() implies text::is_space(#[trigger] lead[i]) by {
            if i > 0 {
                assert(lead[i] == rest[i - 1]);
            }
        }
        assert(t =~= seq![t[0]] + t.skip(1));
        assert(seq![t[0]] + (rest + text::trimmed_start(t)) =~= lead + text::trimmed_start(t));
        lead
    } else {
        assert(t =~= Seq::<char>::empty() + t);
        Seq::empty()
    }
}

proof fn lemma_tail(t: Seq<char>) -> (tail: Seq<char>)
    ensures
        is_blank(tail),
        t == text::trimmed_end(t) + tail,
        text::trimmed_end(t).len() > 0 ==> !text::is_space(text::trimmed_end(t).last())
            && text::trimmed_end(t)[0] == t[0],
    decreases t.len(),
{
    if t.len() > 0 && text::is_space(t.last()) {
        let rest = lemma_tail(t.drop_last());
        let tail = rest.push(t.last());
        assert forall|i: int| 0 <= i < tail.len() implies text::is_space(#[trigger] tail[i]) by {
            if i < rest.len() {
                assert(tail[i] == rest[i]);
            }
        }
        assert(t =~= t.drop_last().push(t.last()));
        assert((text::trimmed_end(t) + rest).push(t.last()) =~= text::trimmed_end(t) + tail);
        tail
    } else {
        assert(t =~= t + Seq::<char>::empty());
        Seq::empty()
    }
}

/// A text that begins with a line and its line feed has that line first, without the carriage
/// return that may stand before the line feed, and then the lines of what follows. Text
/// without a line feed is one line; an empty text has none.
pub proof fn law_lines_end_at_line_feeds(line: Seq<char>, rest: Seq<char>)
    requires
        !line.contains('\n'),
    ensures
        text::lines_of(line.push('\n') + rest) == seq![
            if line.len() > 0 && line.last() == '\r' {
                line.drop_last()
            } else {
                line
            },
        ] + text::lines_of(rest),
        line.len() > 0 ==> text::lines_of(line) == seq![line],
        text::lines_of(Seq::empty()) == Seq::<Seq<char>>::empty(),
{
    let whole = line.push('\n') + rest;
    let n = line.len() as int;
    assert(whole[n] == '\n');
    assert forall|k: int| 0 <= k < n implies whole[k] != '\n' by {
        assert(whole[k] == line[k]);
        assert(line.contains(line[k]));
    }
    text::lemma_first_char_unique(whole, '\n', n);
    assert(whole.take(n) =~= line);
    assert(whole.skip(n + 1) =~= rest);
    assert forall|k: int| 0 <= k < n implies line[k] != '\n' by {
        assert(line.contains(line[k]));
    }
    text::lemma_first_char_unique(line, '\n', n);
}

/// The offset of the characters of `a` in a text that begins with them is their number.
pub proof fn lemma_char_offset(a: Seq<char>, b: Seq<char>)
    ensures
        text::char_offset(a + b, text::byte_len(a)) == Some(a.len() as int),
    decreases a.len(),
{
    text::lemma_byte_len(a);
    if a.len() > 0 {
        let s = a + b;
        lemma_char_offset(a.skip(1), b);
        assert(s.skip(1) =~= a.skip(1) + b);
        assert(s[0] == a[0]);
    }
}

/// ASCII letters are folded to lower case one by one; every other character stays.
pub proof fn law_lower_case_folds_ascii_letters(s: Seq<char>)
    ensures
        ({
            let lower = text::ascii_lower(s);
            &&& lower.len() == s.len()
            &&& forall|i: int|
                0 <= i < s.len() ==> lower[i] == if 'A' <= #[trigger] s[i] && s[i] <= 'Z' {
                    ((s[i] as u32) + 32) as char
                } else {
                    s[i]
                }
        }),
{
}

/// A text comes before or at another exactly when it is the beginning of the other, or when at
/// the first place where they differ it has the smaller character.
pub proof fn law_texts_are_ordered_by_characters(a: Seq<char>, b: Seq<char>)
    ensures
        text::text_le(a, b) <==> a.is_prefix_of(b) || exists|i: int|
            0 <= i < a.len() && i < b.len() && #[trigger] a.take(i) == b.take(i) && a[i] < b[i],
    decreases a.len(),
{
    if a.len() > 0 && b.len() > 0 && a[0] == b[0] {
        let x = a.skip(1);
        let y = b.skip(1);
        law_texts_are_ordered_by_characters(x, y);
        if x.is_prefix_of(y) {
            assert(a =~= b.subrange(0, a.len() as int)) by {
                assert forall|k: int| 0 <= k < a.len() implies a[k] == b[k] by {
                    if k > 0 {
                        assert(x[k - 1] == y.subrange(0, x.len() as int)[k - 1]);
                    }
                }
            }
        }
        if a.is_prefix_of(b) {
            assert(x =~= y.subrange(0, x.len() as int)) by {
                assert forall|k: int| 0 <= k < x.len() implies x[k] == y[k] by {
                    assert(a[k + 1] == b.subrange(0, a.len() as int)[k + 1]);
                }
            }
        }
        if exists|i: int|
            0 <= i < x.len() && i < y.len() && #[trigger] x.take(i) == y.take(i) && x[i] < y[i] {
            let i = choose|i: int|
                0 <= i < x.len() && i < y.len() && #[trigger] x.take(i) == y.take(i) && x[i] < y[i];
            assert(a.take(i + 1) =~= b.take(i + 1)) by {
                assert forall|k: int| 0 <= k < i + 1 implies a[k] == b[k] by {
                    if k > 0 {
                        assert(x.take(i)[k - 1] == y.take(i)[k - 1]);
                    }
                }
            }
            assert(a[i + 1] < b[i + 1]);
        }
        if exists|i: int|
            0 <= i < a.len() && i < b.len() && #[trigger] a.take(i) == b.take(i) && a[i] < b[i] {
            let i = choose|i: int|
                0 <= i < a.len() && i < b.len() && #[trigger] a.take(i) == b.take(i) && a[i] < b[i];
            assert(x.take(i - 1) =~= y.take(i - 1)) by {
                assert forall|k: int| 0 <= k < i - 1 implies x[k] == y[k] by {
                    assert(a.take(i)[k + 1] == b.take(i)[k + 1]);
                }
            }
            assert(x[i - 1] < y[i - 1]);
        }
    } else if a.len() == 0 {
        assert(a =~= b.subrange(0, 0));
    } else if b.len() > 0 {
        if a[0] < b[0] {
            assert(a.take(0) =~= b.take(0));
        }
        if a.is_prefix_of(b) {
            assert(a[0] == b.subrange(0, a.len() as int)[0]);
        }
        if exists|i: int|
            0 <= i < a.len() && i < b.len() && #[trigger] a.take(i) == b.take(i) && a[i] < b[i] {
            let i = choose|i: int|
                0 <= i < a.len() && i < b.len() && #[trigger] a.take(i) == b.take(i) && a[i] < b[i];
            if i > 0 {
                assert(a.take(i)[0] == b.take(i)[0]);
            }
        }
    }
}

/// White space is what Unicode calls so: the tabulation and line characters, the space, and
/// the other separators.
pub proof fn law_white_space_characters(c: char)
    ensures
        text::is_space(c) <==> {
            let u = c as u32;
            ||| u == 0x20
            ||| 0x9 <= u <= 0xd
            ||| u == 0x85
            ||| u == 0xa0
            ||| u == 0x1680
            ||| 0x2000 <= u <= 0x200a
            ||| u == 0x2028
            ||| u == 0x2029
            ||| u == 0x202f
            ||| u == 0x205f
            ||| u == 0x3000
        },
{
}

/// The line ends behind a text are taken away, and nothing else.
pub proof fn law_line_ends_are_taken_away(s: Seq<char>, ends: Seq<char>)
    requires
        s.len() > 0 ==> s.last() != '\n' && s.last() != '\r',
        forall|i: int| 0 <= i < ends.len() ==> #[trigger] ends[i] == '\n' || ends[i] == '\r',
    ensures
        text::trimmed_line_end(s + ends) == s,
    decreases ends.len(),
{
    let whole = s + ends;
    if ends.len() > 0 {
        assert(whole.last() == ends[ends.len() - 1]);
        let rest = ends.drop_last();
        assert forall|i: int| 0 <= i < rest.len() implies #[trigger] rest[i] == '\n' || rest[i]
            == '\r' by {
            assert(rest[i] == ends[i]);
        }
        law_line_ends_are_taken_away(s, rest);
        assert(whole.drop_last() =~= s + rest);
    } else {
        assert(whole =~= s);
    }
}

/// Three digits stand for a number below a thousand.
pub proof fn law_three_digits_stand_for_the_number(n: nat)
    requires
        n < 1000,
    ensures
        ({
            let digits = text::decimal3(n);
            &&& digits.len() == 3
            &&& forall|i: int| 0 <= i < 3 ==> '0' <= #[trigger] digits[i] <= '9'
            &&& 100 * (digits[0] as u32 - '0' as u32) + 10 * (digits[1] as u32 - '0' as u32) + (
            digits[2] as u32 - '0' as u32) == n
        }),
{
    let a = n / 100;
    let b = n / 10 % 10;
    let c = n % 10;
    assert(n == 100 * a + 10 * b + c);
}

} // verus!
