//! Text as sequences of characters: the few string operations the rest of the
//! library is built from, each with an exact meaning over `Seq<char>`.

use vstd::prelude::*;

verus! {

/// `String::push` appends the given character to the end of the string.
pub assume_specification[ String::push ](s: &mut String, c: char)
    ensures
        final(s)@ == old(s)@.push(c),
;

/// The characters of a borrowed string, where there is one.
pub open spec fn read(s: Option<&str>) -> Option<Seq<char>> {
    match s {
        Some(t) => Some(t@),
        None => None,
    }
}

/// The characters of a string, where there is one.
pub open spec fn held(s: Option<String>) -> Option<Seq<char>> {
    match s {
        Some(t) => Some(t@),
        None => None,
    }
}

/// The characters of each string of a list.
pub open spec fn texts(list: Seq<String>) -> Seq<Seq<char>> {
    Seq::new(list.len(), |i: int| list[i]@)
}

/// The characters of a string, in order.
pub fn to_chars(s: &str) -> (chars: Vec<char>)
    ensures
        chars@ == s@,
{
    let mut chars: Vec<char> = Vec::new();
    for c in it: s.chars()
        invariant
            chars@ == it.seq().take(it.index()),
            it.seq() == s@,
    {
        chars.push(c);
    }
    chars
}

/// `a` comes before `b` in the order of code points, compared from the front;
/// a proper prefix comes before what it is a prefix of.
pub open spec fn before(a: Seq<char>, b: Seq<char>) -> bool
    decreases a.len(),
{
    if b.len() == 0 {
        false
    } else if a.len() == 0 {
        true
    } else if a[0] == b[0] {
        before(a.drop_first(), b.drop_first())
    } else {
        a[0] < b[0]
    }
}

/// Of two texts that differ, exactly one comes before the other.
pub proof fn lemma_before_total(a: Seq<char>, b: Seq<char>)
    ensures
        a == b ==> !before(a, b),
        before(a, b) ==> !before(b, a),
        a != b ==> before(a, b) || before(b, a),
    decreases a.len(),
{
    if a.len() > 0 && b.len() > 0 {
        lemma_before_total(a.drop_first(), b.drop_first());
        if a[0] == b[0] && a.drop_first() == b.drop_first() {
            assert(a =~= seq![a[0]] + a.drop_first());
            assert(b =~= seq![b[0]] + b.drop_first());
        }
    } else if a.len() == b.len() {
        assert(a =~= b);
    }
}

/// What comes before a text comes before all that this text comes before.
pub proof fn lemma_before_transitive(a: Seq<char>, b: Seq<char>, c: Seq<char>)
    requires
        before(a, b),
        before(b, c),
    ensures
        before(a, c),
    decreases a.len(),
{
    if a.len() > 0 && a[0] == b[0] && b[0] == c[0] {
        lemma_before_transitive(a.drop_first(), b.drop_first(), c.drop_first());
    }
}

/// Whether two strings hold the same characters.
pub fn same(a: &str, b: &str) -> (equal: bool)
    ensures
        equal == (a@ == b@),
{
    let mut left = a.chars();
    let mut right = b.chars();
    let ghost mut n: int = 0;
    loop
        invariant
            0 <= n <= a@.len(),
            n <= b@.len(),
            vstd::std_specs::iter::IteratorSpec::remaining(&left) == a@.skip(n),
            vstd::std_specs::iter::IteratorSpec::remaining(&right) == b@.skip(n),
            a@.take(n) == b@.take(n),
        decreases a@.len() - n,
    {
        let x = left.next();
        let y = right.next();
        match (x, y) {
            (Some(c), Some(d)) => {
                if c != d {
                    assert(a@[n] == c && b@[n] == d);
                    return false;
                }
                proof {
                    assert(a@.take(n + 1) =~= a@.take(n).push(c));
                    assert(b@.take(n + 1) =~= b@.take(n).push(d));
                    assert(a@.skip(n).drop_first() =~= a@.skip(n + 1));
                    assert(b@.skip(n).drop_first() =~= b@.skip(n + 1));
                    n = n + 1;
                }
            },
            (None, None) => {
                assert(a@.take(n) =~= a@);
                assert(b@.take(n) =~= b@);
                return true;
            },
            _ => {
                return false;
            },
        }
    }
}

/// Whether `a` comes before `b` in the order of code points.
pub fn precedes(a: &str, b: &str) -> (earlier: bool)
    ensures
        earlier == before(a@, b@),
{
    let mut left = a.chars();
    let mut right = b.chars();
    let ghost mut n: int = 0;
    assert(a@.skip(0) =~= a@);
    assert(b@.skip(0) =~= b@);
    loop
        invariant
            0 <= n <= a@.len(),
            n <= b@.len(),
            vstd::std_specs::iter::IteratorSpec::remaining(&left) == a@.skip(n),
            vstd::std_specs::iter::IteratorSpec::remaining(&right) == b@.skip(n),
            before(a@, b@) == before(a@.skip(n), b@.skip(n)),
        decreases a@.len() - n,
    {
        let x = left.next();
        let y = right.next();
        match (x, y) {
            (Some(c), Some(d)) => {
                if c != d {
                    return c < d;
                }
                proof {
                    assert(a@.skip(n).drop_first() =~= a@.skip(n + 1));
                    assert(b@.skip(n).drop_first() =~= b@.skip(n + 1));
                    n = n + 1;
                }
            },
            (None, Some(_)) => {
                return true;
            },
            _ => {
                return false;
            },
        }
    }
}

/// The characters with the Unicode property `White_Space`.
pub open spec fn white_space(c: char) -> bool {
    ||| '\u{9}' <= c <= '\u{d}'
    ||| c == ' '
    ||| c == '\u{85}'
    ||| c == '\u{a0}'
    ||| c == '\u{1680}'
    ||| '\u{2000}' <= c <= '\u{200a}'
    ||| c == '\u{2028}'
    ||| c == '\u{2029}'
    ||| c == '\u{202f}'
    ||| c == '\u{205f}'
    ||| c == '\u{3000}'
}

fn is_white_space(c: char) -> (white: bool)
    ensures
        white == white_space(c),
{
    ('\u{9}' <= c && c <= '\u{d}') || c == ' ' || c == '\u{85}' || c == '\u{a0}' || c == '\u{1680}' || (
    '\u{2000}' <= c && c <= '\u{200a}') || c == '\u{2028}' || c == '\u{2029}' || c == '\u{202f}' || c
        == '\u{205f}' || c == '\u{3000}'
}

/// What is left of `s` without the white space in front.
pub open spec fn trimmed_front(s: Seq<char>) -> Seq<char>
    decreases s.len(),
{
    if s.len() > 0 && white_space(s.first()) {
        trimmed_front(s.drop_first())
    } else {
        s
    }
}

/// What is left of `s` without the white space at the end.
pub open spec fn trimmed_back(s: Seq<char>) -> Seq<char>
    decreases s.len(),
{
    if s.len() > 0 && white_space(s.last()) {
        trimmed_back(s.drop_last())
    } else {
        s
    }
}

/// What is left of `s` without the white space at both ends.
pub open spec fn trimmed(s: Seq<char>) -> Seq<char> {
    trimmed_back(trimmed_front(s))
}

/// The string without the white space at both ends.
pub fn trim(s: &str) -> (r: String)
    ensures
        r@ == trimmed(s@),
{
    let chars = to_chars(s);
    let mut lo: usize = 0;
    assert(s@.skip(0) =~= s@);
    while lo < chars.len() && is_white_space(chars[lo])
        invariant
            lo <= chars.len(),
            chars@ == s@,
            trimmed_front(s@) == trimmed_front(s@.skip(lo as int)),
        decreases chars.len() - lo,
    {
        assert(s@.skip(lo as int).drop_first() =~= s@.skip(lo + 1));
        lo += 1;
    }
    let ghost front = s@.skip(lo as int);
    let mut hi: usize = chars.len();
    assert(s@.subrange(lo as int, hi as int) =~= front);
    while lo < hi && is_white_space(chars[hi - 1])
        invariant
            lo <= hi <= chars.len(),
            chars@ == s@,
            trimmed_back(front) == trimmed_back(s@.subrange(lo as int, hi as int)),
        decreases hi - lo,
    {
        assert(s@.subrange(lo as int, hi as int).drop_last() =~= s@.subrange(
            lo as int,
            hi - 1,
        ));
        hi -= 1;
    }
    let mut r = String::new();
    let mut i: usize = lo;
    while i < hi
        invariant
            lo <= i <= hi <= chars.len(),
            chars@ == s@,
            r@ == s@.subrange(lo as int, i as int),
        decreases hi - i,
    {
        r.push(chars[i]);
        assert(s@.subrange(lo as int, i + 1) =~= s@.subrange(lo as int, i as int).push(s@[i as int]));
        i += 1;
    }
    r
}

/// The letters `A` to `Z` become `a` to `z`, every other character stays.
pub open spec fn lower(c: char) -> char {
    if 'A' <= c <= 'Z' {
        ((c as u32) + 32) as char
    } else {
        c
    }
}

/// Every character of `s`, lowered.
pub open spec fn lowered(s: Seq<char>) -> Seq<char> {
    s.map_values(|c: char| lower(c))
}

/// The string with the letters `A` to `Z` lowered.
pub fn to_lower(s: &str) -> (r: String)
    ensures
        r@ == lowered(s@),
{
    let mut r = String::new();
    for c in it: s.chars()
        invariant
            it.seq() == s@,
            r@ == lowered(s@.take(it.index())),
    {
        let d: char = if 'A' <= c && c <= 'Z' {
            ((c as u8) + 32) as char
        } else {
            c
        };
        assert(s@.take(it.index() + 1) =~= s@.take(it.index()).push(c));
        r.push(d);
        assert(lowered(s@.take(it.index() + 1)) =~= lowered(s@.take(it.index())).push(d));
    }
    assert(s@.take(s@.len() as int) =~= s@);
    r
}

/// `s` begins with `prefix`.
pub open spec fn begins(s: Seq<char>, prefix: Seq<char>) -> bool {
    prefix.len() <= s.len() && s.take(prefix.len() as int) == prefix
}

/// Whether the characters from `at` on begin with `prefix`.
fn begins_at(s: &Vec<char>, at: usize, prefix: &Vec<char>) -> (r: bool)
    requires
        at <= s.len(),
    ensures
        r == begins(s@.skip(at as int), prefix@),
{
    if s.len() - at < prefix.len() {
        return false;
    }
    let mut i: usize = 0;
    while i < prefix.len()
        invariant
            i <= prefix.len(),
            at <= s.len(),
            prefix.len() <= s.len() - at,
            forall|j: int| 0 <= j < i ==> s@[at + j] == prefix@[j],
        decreases prefix.len() - i,
    {
        if s[at + i] != prefix[i] {
            assert(s@.skip(at as int).take(prefix@.len() as int)[i as int] != prefix@[i as int]);
            return false;
        }
        i += 1;
    }
    assert(s@.skip(at as int).take(prefix@.len() as int) =~= prefix@);
    true
}

/// Whether the string begins with `prefix`.
pub fn starts_with(s: &str, prefix: &str) -> (r: bool)
    ensures
        r == begins(s@, prefix@),
{
    assert(s@.skip(0) =~= s@);
    begins_at(&to_chars(s), 0, &to_chars(prefix))
}

/// How often `pattern` occurs in `s`, counted from the front without overlap.
pub open spec fn occurrences(s: Seq<char>, pattern: Seq<char>) -> nat
    decreases s.len(),
{
    if pattern.len() == 0 || s.len() < pattern.len() {
        0
    } else if begins(s, pattern) {
        1 + occurrences(s.skip(pattern.len() as int), pattern)
    } else {
        occurrences(s.drop_first(), pattern)
    }
}

/// The number of times `pattern` occurs in the string, counted from the front
/// without overlap.
pub fn count(s: &str, pattern: &str) -> (n: usize)
    requires
        pattern@.len() > 0,
    ensures
        n == occurrences(s@, pattern@),
{
    let chars = to_chars(s);
    let wanted = to_chars(pattern);
    let mut n: usize = 0;
    let mut i: usize = 0;
    assert(s@.skip(0) =~= s@);
    while i < chars.len() && wanted.len() <= chars.len() - i
        invariant
            chars@ == s@,
            wanted@ == pattern@,
            wanted.len() > 0,
            n <= i <= chars.len(),
            occurrences(s@, pattern@) == n + occurrences(s@.skip(i as int), pattern@),
        decreases chars.len() - i,
    {
        if begins_at(&chars, i, &wanted) {
            assert(s@.skip(i as int).skip(wanted@.len() as int) =~= s@.skip(i + wanted@.len()));
            n += 1;
            i += wanted.len();
        } else {
            assert(s@.skip(i as int).drop_first() =~= s@.skip(i + 1));
            i += 1;
        }
    }
    n
}

/// `s` with every occurrence of `pattern`, taken from the front without
/// overlap, replaced by `with`.
pub open spec fn replaced(s: Seq<char>, pattern: Seq<char>, with: Seq<char>) -> Seq<char>
    decreases s.len(),
{
    if pattern.len() == 0 || s.len() < pattern.len() {
        s
    } else if begins(s, pattern) {
        with + replaced(s.skip(pattern.len() as int), pattern, with)
    } else {
        seq![s.first()] + replaced(s.drop_first(), pattern, with)
    }
}

/// The string with every occurrence of `pattern` replaced by `with`.
pub fn replace(s: &str, pattern: &str, with: &str) -> (r: String)
    requires
        pattern@.len() > 0,
    ensures
        r@ == replaced(s@, pattern@, with@),
{
    let chars = to_chars(s);
    let wanted = to_chars(pattern);
    let mut r = String::new();
    let mut i: usize = 0;
    assert(s@.skip(0) =~= s@);
    while i < chars.len() && wanted.len() <= chars.len() - i
        invariant
            chars@ == s@,
            wanted@ == pattern@,
            wanted.len() > 0,
            i <= chars.len(),
            replaced(s@, pattern@, with@) == r@ + replaced(s@.skip(i as int), pattern@, with@),
        decreases chars.len() - i,
    {
        if begins_at(&chars, i, &wanted) {
            assert(s@.skip(i as int).skip(wanted@.len() as int) =~= s@.skip(i + wanted@.len()));
            let ghost rest = replaced(s@.skip(i + wanted@.len()), pattern@, with@);
            assert((r@ + with@) + rest =~= r@ + (with@ + rest));
            r.append(with);
            i += wanted.len();
        } else {
            assert(s@.skip(i as int).drop_first() =~= s@.skip(i + 1));
            let ghost rest = replaced(s@.skip(i + 1), pattern@, with@);
            assert(r@.push(s@[i as int]) + rest =~= r@ + (seq![s@[i as int]] + rest));
            r.push(chars[i]);
            i += 1;
        }
    }
    let ghost tail = s@.skip(i as int);
    let ghost head = r@;
    while i < chars.len()
        invariant
            chars@ == s@,
            i <= chars.len(),
            head + tail == r@ + s@.skip(i as int),
        decreases chars.len() - i,
    {
        assert(r@ + s@.skip(i as int) =~= r@.push(s@[i as int]) + s@.skip(i + 1));
        r.push(chars[i]);
        i += 1;
    }
    assert(r@ + s@.skip(i as int) =~= r@);
    r
}

/// A text in which the pattern does not occur stays as it is.
pub proof fn lemma_nothing_replaced(s: Seq<char>, pattern: Seq<char>, with: Seq<char>)
    requires
        occurrences(s, pattern) == 0,
    ensures
        replaced(s, pattern, with) == s,
    decreases s.len(),
{
    if pattern.len() > 0 && s.len() >= pattern.len() {
        lemma_nothing_replaced(s.drop_first(), pattern, with);
        assert(seq![s.first()] + s.drop_first() =~= s);
    }
}

/// `s` is `before`, then `middle`, then `after`.
pub open spec fn made_of(s: Seq<char>, before: Seq<char>, middle: Seq<char>, after: Seq<char>) -> bool {
    s == before + middle + after
}

/// Where the pattern occurs once, only this occurrence changes.
pub proof fn lemma_one_replaced(s: Seq<char>, pattern: Seq<char>, with: Seq<char>) -> (parts: (
    Seq<char>,
    Seq<char>,
))
    requires
        occurrences(s, pattern) == 1,
    ensures
        made_of(s, parts.0, pattern, parts.1),
        made_of(replaced(s, pattern, with), parts.0, with, parts.1),
    decreases s.len(),
{
    if begins(s, pattern) {
        let rest = s.skip(pattern.len() as int);
        lemma_nothing_replaced(rest, pattern, with);
        assert(s =~= Seq::<char>::empty() + pattern + rest);
        assert(with + rest =~= Seq::<char>::empty() + with + rest);
        (Seq::empty(), rest)
    } else {
        let (before, after) = lemma_one_replaced(s.drop_first(), pattern, with);
        let front = seq![s.first()] + before;
        assert(s =~= seq![s.first()] + s.drop_first());
        assert(seq![s.first()] + (before + pattern + after) =~= front + pattern + after);
        assert(seq![s.first()] + (before + with + after) =~= front + with + after);
        (front, after)
    }
}

/// The character for a digit below ten.
pub open spec fn digit(d: nat) -> char {
    (48 + d) as char
}

/// `n` written in decimal, without leading zeros.
pub open spec fn decimal(n: nat) -> Seq<char>
    decreases n,
{
    if n < 10 {
        seq![digit(n)]
    } else {
        decimal(n / 10).push(digit(n % 10))
    }
}

/// The decimal digits of a number.
pub fn to_decimal(n: u64) -> (r: String)
    ensures
        r@ == decimal(n as nat),
    decreases n,
{
    let last: char = (48 + (n % 10) as u8) as char;
    let mut r = if n < 10 {
        String::new()
    } else {
        to_decimal(n / 10)
    };
    r.push(last);
    r
}

/// Two texts, one after the other.
pub fn join2(a: &str, b: &str) -> (r: String)
    ensures
        r@ == a@ + b@,
{
    let mut r = a.to_owned();
    r.append(b);
    r
}

/// Three texts, one after the other.
pub fn join3(a: &str, b: &str, c: &str) -> (r: String)
    ensures
        r@ == a@ + b@ + c@,
{
    let mut r = join2(a, b);
    r.append(c);
    r
}

/// Four texts, one after the other.
pub fn join4(a: &str, b: &str, c: &str, d: &str) -> (r: String)
    ensures
        r@ == a@ + b@ + c@ + d@,
{
    let mut r = join3(a, b, c);
    r.append(d);
    r
}

/// Five texts, one after the other.
pub fn join5(a: &str, b: &str, c: &str, d: &str, e: &str) -> (r: String)
    ensures
        r@ == a@ + b@ + c@ + d@ + e@,
{
    let mut r = join4(a, b, c, d);
    r.append(e);
    r
}

/// How many bytes a character takes in UTF-8.
pub open spec fn width(c: char) -> nat {
    if c <= '\u{7f}' {
        1
    } else if c <= '\u{7ff}' {
        2
    } else if c <= '\u{ffff}' {
        3
    } else {
        4
    }
}

/// How many bytes a text takes in UTF-8.
pub open spec fn bytes(s: Seq<char>) -> nat
    decreases s.len(),
{
    if s.len() == 0 {
        0
    } else {
        bytes(s.drop_last()) + width(s.last())
    }
}

/// A prefix takes no more bytes than the whole.
proof fn lemma_bytes_prefix(s: Seq<char>, n: int)
    requires
        0 <= n <= s.len(),
    ensures
        bytes(s.take(n)) <= bytes(s),
        n < s.len() ==> bytes(s.take(n)) < bytes(s),
    decreases s.len() - n,
{
    if n < s.len() {
        lemma_bytes_prefix(s, n + 1);
        assert(s.take(n + 1).drop_last() =~= s.take(n));
    } else {
        assert(s.take(n) =~= s);
    }
}

/// Two prefixes of the same number of bytes are the same.
proof fn lemma_prefix_unique(s: Seq<char>, m: int, n: int)
    requires
        0 <= m <= s.len(),
        0 <= n <= s.len(),
        bytes(s.take(m)) == bytes(s.take(n)),
    ensures
        m == n,
{
    if m < n {
        lemma_bytes_prefix(s.take(n), m);
        assert(s.take(n).take(m) =~= s.take(m));
    } else if n < m {
        lemma_bytes_prefix(s.take(m), n);
        assert(s.take(m).take(n) =~= s.take(n));
    }
}

/// `n` characters of the text take exactly that many bytes.
pub open spec fn splits_at(s: Seq<char>, count: nat, n: int) -> bool {
    0 <= n <= s.len() && bytes(s.take(n)) == count
}

/// The prefix of the text that takes exactly that many bytes, `None` where
/// there is none because a character stands across the cut.
pub open spec fn head(s: Seq<char>, count: nat) -> Option<Seq<char>> {
    if exists|n: int| splits_at(s, count, n) {
        Some(s.take(choose|n: int| splits_at(s, count, n)))
    } else {
        None
    }
}

/// A text cut after a number of bytes.
pub enum Cut {
    /// The text is shorter than that.
    Short,
    /// The part before the cut.
    Clean(String),
    /// A character stands across the cut.
    Torn,
}

/// The text cut after that many bytes of UTF-8.
pub fn cut(s: &str, count: usize) -> (r: Cut)
    ensures
        match r {
            Cut::Short => bytes(s@) < count,
            Cut::Clean(t) => bytes(s@) >= count && head(s@, count as nat) == Some(t@),
            Cut::Torn => bytes(s@) >= count && head(s@, count as nat) is None,
        },
{
    let mut t = String::new();
    let mut left: usize = count;
    for c in it: s.chars()
        invariant
            it.seq() == s@,
            t@ == s@.take(it.index()),
            left <= count,
            bytes(s@.take(it.index())) == count - left,
    {
        let ghost i = it.index();
        proof {
            lemma_bytes_prefix(s@, i);
            lemma_bytes_prefix(s@, i + 1);
            assert(s@.take(i + 1).drop_last() =~= s@.take(i));
            assert(s@.take(i + 1) =~= s@.take(i).push(c));
        }
        if left == 0 {
            proof {
                assert(splits_at(s@, count as nat, i));
                let n = choose|n: int| splits_at(s@, count as nat, n);
                lemma_prefix_unique(s@, n, i);
            }
            return Cut::Clean(t);
        }
        let w: usize = if c <= '\u{7f}' {
            1
        } else if c <= '\u{7ff}' {
            2
        } else if c <= '\u{ffff}' {
            3
        } else {
            4
        };
        if w > left {
            proof {
                assert forall|n: int| !splits_at(s@, count as nat, n) by {
                    if splits_at(s@, count as nat, n) {
                        if n <= i {
                            lemma_bytes_prefix(s@.take(i), n);
                            assert(s@.take(i).take(n) =~= s@.take(n));
                        } else {
                            lemma_bytes_prefix(s@.take(n), i + 1);
                            assert(s@.take(n).take(i + 1) =~= s@.take(i + 1));
                        }
                    }
                }
            }
            return Cut::Torn;
        }
        left -= w;
        t.push(c);
    }
    proof {
        assert(s@.take(s@.len() as int) =~= s@);
    }
    if left == 0 {
        proof {
            let n = s@.len() as int;
            assert(splits_at(s@, count as nat, n));
            let m = choose|n: int| splits_at(s@, count as nat, n);
            lemma_prefix_unique(s@, m, n);
        }
        Cut::Clean(t)
    } else {
        Cut::Short
    }
}

} // verus!
