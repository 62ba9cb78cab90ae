//! What the operations on text come to, said without the way they go.

use vstd::prelude::*;

use crate::text;

verus! {

/// One text comes before another exactly where, after the longest start that
/// they share, it has ended and the other has not, or has the smaller
/// character.
pub proof fn lemma_before_meaning(a: Seq<char>, b: Seq<char>)
    ensures
        text::before(a, b) <==> exists|n: int|
            0 <= n <= a.len() && n < b.len() && #[trigger] a.take(n) == b.take(n) && (n == a.len()
                || a[n] < b[n]),
    decreases a.len(),
{
    if text::before(a, b) {
        if a.len() == 0 {
            assert(a.take(0) =~= b.take(0));
        } else if a[0] == b[0] {
            let c = a.drop_first();
            let d = b.drop_first();
            lemma_before_meaning(c, d);
            let n = choose|n: int|
                0 <= n <= c.len() && n < d.len() && #[trigger] c.take(n) == d.take(n) && (n
                    == c.len() || c[n] < d[n]);
            assert(a.take(n + 1) =~= seq![a[0]] + c.take(n));
            assert(b.take(n + 1) =~= seq![b[0]] + d.take(n));
            assert(a.take(n + 1) == b.take(n + 1));
        } else {
            assert(a.take(0) =~= b.take(0));
        }
    }
    if exists|n: int|
        0 <= n <= a.len() && n < b.len() && #[trigger] a.take(n) == b.take(n) && (n == a.len()
            || a[n] < b[n]) {
        let n = choose|n: int|
            0 <= n <= a.len() && n < b.len() && #[trigger] a.take(n) == b.take(n) && (n == a.len()
                || a[n] < b[n]);
        if a.len() > 0 && n > 0 {
            assert(a.take(n)[0] == b.take(n)[0]);
            let c = a.drop_first();
            let d = b.drop_first();
            assert(c.take(n - 1) =~= a.take(n).drop_first());
            assert(d.take(n - 1) =~= b.take(n).drop_first());
            lemma_before_meaning(c, d);
            assert(c.take(n - 1) == d.take(n - 1));
        }
    }
}

/// Every character of the text is white space.
pub open spec fn blank(s: Seq<char>) -> bool {
    forall|i: int| 0 <= i < s.len() ==> text::white_space(#[trigger] s[i])
}

proof fn lemma_front(s: Seq<char>) -> (n: int)
    ensures
        0 <= n <= s.len(),
        blank(s.take(n)),
        text::trimmed_front(s) == s.skip(n),
        n < s.len() ==> !text::white_space(s[n]),
    decreases s.len(),
{
    if s.len() > 0 && text::white_space(s.first()) {
        let m = lemma_front(s.drop_first());
        assert(s.drop_first().skip(m) =~= s.skip(m + 1));
        assert forall|i: int| 0 <= i < m + 1 implies text::white_space(
            #[trigger] s.take(m + 1)[i],
        ) by {
            if i > 0 {
                assert(s.take(m + 1)[i] == s.drop_first().take(m)[i - 1]);
            }
        }
        m + 1
    } else {
        assert(s.skip(0) =~= s);
        0
    }
}

proof fn lemma_back(s: Seq<char>) -> (n: int)
    ensures
        0 <= n <= s.len(),
        blank(s.skip(n)),
        text::trimmed_back(s) == s.take(n),
        n > 0 ==> !text::white_space(s[n - 1]),
    decreases s.len(),
{
    if s.len() > 0 && text::white_space(s.last()) {
        let m = lemma_back(s.drop_last());
        assert(s.drop_last().take(m) =~= s.take(m));
        assert forall|i: int| 0 <= i < s.skip(m).len() implies text::white_space(
            #[trigger] s.skip(m)[i],
        ) by {
            if m + i < s.len() - 1 {
                assert(s.skip(m)[i] == s.drop_last().skip(m)[i]);
            }
        }
        m
    } else {
        assert(s.take(s.len() as int) =~= s);
        s.len() as int
    }
}

/// Trimming takes away white space at both ends and nothing else, and leaves
/// none there.
pub proof fn lemma_trimmed_meaning(s: Seq<char>) -> (ends: (int, int))
    ensures
        0 <= ends.0 <= ends.1 <= s.len(),
        text::trimmed(s) == s.subrange(ends.0, ends.1),
        blank(s.take(ends.0)),
        blank(s.skip(ends.1)),
        text::trimmed(s).len() > 0 ==> !text::white_space(text::trimmed(s).first())
            && !text::white_space(text::trimmed(s).last()),
{
    let lo = lemma_front(s);
    let rest = s.skip(lo);
    let n = lemma_back(rest);
    assert(rest.take(n) =~= s.subrange(lo, lo + n));
    assert(rest.skip(n) =~= s.skip(lo + n));
    if n > 0 {
        assert(rest.take(n).first() == s[lo]);
        assert(rest.take(n).last() == rest[n - 1]);
    }
    (lo, lo + n)
}

/// A text that neither begins nor ends with white space is left as it is.
pub proof fn lemma_trimmed_stays(s: Seq<char>)
    requires
        s.len() > 0 ==> !text::white_space(s.first()) && !text::white_space(s.last()),
    ensures
        text::trimmed(s) == s,
{
}

/// The white space among the first characters of Unicode is the space and the
/// five that begin with the tab; letters and digits are none.
pub proof fn lemma_ascii_white_space(c: char)
    requires
        (c as u32) < 128,
    ensures
        text::white_space(c) <==> c as u32 == 32 || (9 <= c as u32 <= 13),
{
}

/// The white space outside ASCII, by its code points.
pub proof fn lemma_other_white_space(c: char)
    requires
        (c as u32) >= 128,
    ensures
        text::white_space(c) <==> {
            ||| c as u32 == 0x85 || c as u32 == 0xa0 || c as u32 == 0x1680
            ||| 0x2000 <= c as u32 <= 0x200a
            ||| c as u32 == 0x2028 || c as u32 == 0x2029 || c as u32 == 0x202f
            ||| c as u32 == 0x205f || c as u32 == 0x3000
        },
{
}

/// Lowering changes the capital letters of ASCII to the small ones, 32 further
/// on, and leaves every other character.
pub proof fn lemma_lowered_meaning(s: Seq<char>, i: int)
    requires
        0 <= i < s.len(),
    ensures
        text::lowered(s).len() == s.len(),
        65 <= s[i] as u32 <= 90 ==> text::lowered(s)[i] as u32 == s[i] as u32 + 32,
        !(65 <= s[i] as u32 <= 90) ==> text::lowered(s)[i] == s[i],
{
}

/// A text begins with another exactly where something can be put behind the
/// other to give the text.
pub proof fn lemma_begins_meaning(s: Seq<char>, prefix: Seq<char>)
    ensures
        text::begins(s, prefix) <==> exists|rest: Seq<char>| s == #[trigger] (prefix + rest),
{
    if text::begins(s, prefix) {
        assert(s =~= prefix + s.skip(prefix.len() as int));
    }
    if exists|rest: Seq<char>| s == #[trigger] (prefix + rest) {
        let rest = choose|rest: Seq<char>| s == #[trigger] (prefix + rest);
        assert((prefix + rest).take(prefix.len() as int) =~= prefix);
    }
}

/// The pattern stands in the text at that place.
pub open spec fn stands_at(s: Seq<char>, pattern: Seq<char>, i: int) -> bool {
    0 <= i && i + pattern.len() <= s.len() && s.subrange(i, i + pattern.len()) == pattern
}

/// The pattern stands in the text at that place and nowhere before.
pub open spec fn first_stands_at(s: Seq<char>, pattern: Seq<char>, i: int) -> bool {
    stands_at(s, pattern, i) && forall|j: int| 0 <= j < i ==> !#[trigger] stands_at(s, pattern, j)
}

proof fn lemma_shifted(s: Seq<char>, pattern: Seq<char>, j: int)
    requires
        s.len() > 0,
        j >= 0,
    ensures
        stands_at(s.drop_first(), pattern, j) == stands_at(s, pattern, j + 1),
{
    if j + pattern.len() <= s.drop_first().len() {
        assert(s.drop_first().subrange(j, j + pattern.len()) =~= s.subrange(
            j + 1,
            j + 1 + pattern.len(),
        ));
    }
}

/// A pattern that stands nowhere occurs no time, and nothing is replaced.
pub proof fn lemma_absent(s: Seq<char>, pattern: Seq<char>, with: Seq<char>)
    requires
        forall|j: int| !#[trigger] stands_at(s, pattern, j),
    ensures
        text::occurrences(s, pattern) == 0,
        text::replaced(s, pattern, with) == s,
    decreases s.len(),
{
    if pattern.len() > 0 && s.len() >= pattern.len() {
        assert(!stands_at(s, pattern, 0));
        assert(s.take(pattern.len() as int) =~= s.subrange(0, pattern.len() as int));
        assert forall|j: int| !#[trigger] stands_at(s.drop_first(), pattern, j) by {
            if j >= 0 {
                lemma_shifted(s, pattern, j);
                assert(!stands_at(s, pattern, j + 1));
            }
        }
        lemma_absent(s.drop_first(), pattern, with);
        assert(seq![s.first()] + s.drop_first() =~= s);
    }
}

/// The first place where a pattern stands counts once, and gives way to what
/// it is replaced by; what is before stays, and what is behind goes on alike.
pub proof fn lemma_first_occurrence(s: Seq<char>, pattern: Seq<char>, with: Seq<char>, i: int)
    requires
        pattern.len() > 0,
        first_stands_at(s, pattern, i),
    ensures
        text::occurrences(s, pattern) == 1 + text::occurrences(
            s.skip(i + pattern.len()),
            pattern,
        ),
        text::replaced(s, pattern, with) == s.take(i) + with + text::replaced(
            s.skip(i + pattern.len()),
            pattern,
            with,
        ),
    decreases i,
{
    let n = pattern.len() as int;
    let rest = s.skip(i + n);
    assert(s.take(n) =~= s.subrange(0, n));
    if i == 0 {
        assert(s.take(0) + with + text::replaced(rest, pattern, with) =~= with + text::replaced(
            rest,
            pattern,
            with,
        ));
    } else {
        assert(!stands_at(s, pattern, 0));
        let t = s.drop_first();
        lemma_shifted(s, pattern, i - 1);
        assert forall|j: int| 0 <= j < i - 1 implies !#[trigger] stands_at(t, pattern, j) by {
            lemma_shifted(s, pattern, j);
            assert(!stands_at(s, pattern, j + 1));
        }
        lemma_first_occurrence(t, pattern, with, i - 1);
        assert(t.skip(i - 1 + n) =~= rest);
        let tail = text::replaced(rest, pattern, with);
        assert(seq![s.first()] + (t.take(i - 1) + with + tail) =~= s.take(i) + with + tail);
    }
}

/// The number that decimal digits stand for.
pub open spec fn number_of(digits: Seq<char>) -> int
    decreases digits.len(),
{
    if digits.len() == 0 {
        0
    } else {
        10 * number_of(digits.drop_last()) + (digits.last() as int - 48)
    }
}

/// A number in decimal is made of digits, does not begin with a zero unless it
/// is one, and stands for that number.
pub proof fn lemma_decimal_meaning(n: nat)
    ensures
        number_of(text::decimal(n)) == n,
        text::decimal(n).len() > 0,
        forall|i: int|
            0 <= i < text::decimal(n).len() ==> 48 <= (#[trigger] text::decimal(n)[i]) as int <= 57,
        n > 0 ==> text::decimal(n)[0] != '0',
    decreases n,
{
    reveal_with_fuel(number_of, 2);
    let d = text::decimal(n);
    if n < 10 {
        assert(d.drop_last() =~= Seq::<char>::empty());
    } else {
        let front = text::decimal(n / 10);
        lemma_decimal_meaning(n / 10);
        assert(d.drop_last() =~= front);
        assert(d.last() as int == 48 + n % 10);
        assert(d[0] == front[0]);
    }
}

/// The bytes that a text is said to take are those of its UTF-8 form.
pub proof fn lemma_bytes_are_utf8(s: Seq<char>)
    ensures
        text::bytes(s) == vstd::utf8::encode_utf8(s).len(),
    decreases s.len(),
{
    if s.len() > 0 {
        lemma_bytes_first(s);
        lemma_bytes_are_utf8(s.drop_first());
        lemma_width(s[0]);
    }
}

proof fn lemma_width(c: char)
    ensures
        vstd::utf8::encode_scalar(c as u32).len() == text::width(c),
{
}

proof fn lemma_bytes_first(s: Seq<char>)
    requires
        s.len() > 0,
    ensures
        text::bytes(s) == text::width(s[0]) + text::bytes(s.drop_first()),
    decreases s.len(),
{
    reveal_with_fuel(text::bytes, 2);
    if s.len() > 1 {
        lemma_bytes_first(s.drop_last());
        assert(s.drop_last().drop_first() =~= s.drop_first().drop_last());
    } else {
        assert(s.drop_last() =~= Seq::<char>::empty());
        assert(s.drop_first() =~= Seq::<char>::empty());
    }
}

/// A text cut after a number of bytes is a start of it that takes that many.
pub proof fn lemma_head_meaning(s: Seq<char>, count: nat)
    ensures
        match text::head(s, count) {
            Some(h) => exists|n: int| 0 <= n <= s.len() && h == #[trigger] s.take(n)
                && vstd::utf8::encode_utf8(h).len() == count,
            None => forall|n: int|
                0 <= n <= s.len() ==> vstd::utf8::encode_utf8(#[trigger] s.take(n)).len() != count,
        },
{
    if exists|n: int| text::splits_at(s, count, n) {
        let n = choose|n: int| text::splits_at(s, count, n);
        lemma_bytes_are_utf8(s.take(n));
    } else {
        assert forall|n: int| 0 <= n <= s.len() implies vstd::utf8::encode_utf8(
            #[trigger] s.take(n),
        ).len() != count by {
            lemma_bytes_are_utf8(s.take(n));
            assert(!text::splits_at(s, count, n));
        }
    }
}

} // verus!
