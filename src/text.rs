//! Character-level grammar shared by the message parser and the stores:
//! searching, splitting into lines and tokens, joining, case-insensitive
//! comparison, whitespace trimming and decimal numbers.

use vstd::prelude::*;
use vstd::std_specs::iter::IteratorSpec;

verus! {

/// ASCII lower-casing of one character; other characters are unchanged.
pub open spec fn lower(c: char) -> char {
    if 'A' <= c && c <= 'Z' {
        (((c as u8) + 32) as u8) as char
    } else {
        c
    }
}

/// Two texts are equal when ASCII letters are compared without case.
pub open spec fn eq_ignore_case(a: Seq<char>, b: Seq<char>) -> bool {
    &&& a.len() == b.len()
    &&& forall|i: int| 0 <= i < a.len() ==> lower(#[trigger] a[i]) == lower(b[i])
}

/// `s` holds no `c`.
pub open spec fn lacks(s: Seq<char>, c: char) -> bool {
    forall|i: int| 0 <= i < s.len() ==> #[trigger] s[i] != c
}

/// Position of the first `c` in `s`, or -1 when there is none.
pub open spec fn index_of(s: Seq<char>, c: char) -> int
    decreases s.len(),
{
    if s.len() == 0 {
        -1
    } else if s[0] == c {
        0
    } else {
        let r = index_of(s.drop_first(), c);
        if r < 0 {
            -1
        } else {
            r + 1
        }
    }
}

/// The pieces of `s` between occurrences of `c` (empty pieces included).
pub open spec fn split(s: Seq<char>, c: char) -> Seq<Seq<char>>
    decreases s.len(),
{
    let i = index_of(s, c);
    if i < 0 || i >= s.len() {
        seq![s]
    } else {
        seq![s.take(i)] + split(s.skip(i + 1), c)
    }
}

/// A line without its trailing carriage return, if it has one.
pub open spec fn strip_cr(l: Seq<char>) -> Seq<char> {
    if l.len() > 0 && l.last() == '\r' {
        l.drop_last()
    } else {
        l
    }
}

/// The lines of a text: pieces between line feeds, each without a trailing
/// carriage return; a final line feed ends the last line and opens no new one.
pub open spec fn lines(s: Seq<char>) -> Seq<Seq<char>>
    decreases s.len(),
{
    if s.len() == 0 {
        seq![]
    } else {
        let i = index_of(s, '\n');
        if i < 0 || i >= s.len() {
            seq![strip_cr(s)]
        } else {
            seq![strip_cr(s.take(i))] + lines(s.skip(i + 1))
        }
    }
}

/// The pieces of `ls` with `sep` between each two of them.
pub open spec fn join(ls: Seq<Seq<char>>, sep: char) -> Seq<char>
    decreases ls.len(),
{
    if ls.len() == 0 {
        seq![]
    } else if ls.len() == 1 {
        ls[0]
    } else {
        ls[0] + seq![sep] + join(ls.drop_first(), sep)
    }
}

/// Unicode white space, as `char::is_whitespace` defines it.
pub open spec fn is_space(c: char) -> bool {
    ||| ('\u{9}' <= c && c <= '\u{d}')
    ||| c == ' '
    ||| c == '\u{85}'
    ||| c == '\u{a0}'
    ||| c == '\u{1680}'
    ||| ('\u{2000}' <= c && c <= '\u{200a}')
    ||| c == '\u{2028}'
    ||| c == '\u{2029}'
    ||| c == '\u{202f}'
    ||| c == '\u{205f}'
    ||| c == '\u{3000}'
}

/// `s` without its leading white space.
pub open spec fn trim_start(s: Seq<char>) -> Seq<char>
    decreases s.len(),
{
    if s.len() > 0 && is_space(s[0]) {
        trim_start(s.drop_first())
    } else {
        s
    }
}

/// `s` without its trailing white space.
pub open spec fn trim_end(s: Seq<char>) -> Seq<char>
    decreases s.len(),
{
    if s.len() > 0 && is_space(s.last()) {
        trim_end(s.drop_last())
    } else {
        s
    }
}

/// `s` without leading or trailing white space.
pub open spec fn trim(s: Seq<char>) -> Seq<char> {
    trim_end(trim_start(s))
}

pub open spec fn starts_with(s: Seq<char>, p: Seq<char>) -> bool {
    p.len() <= s.len() && s.take(p.len() as int) == p
}

pub open spec fn is_digit(c: char) -> bool {
    '0' <= c && c <= '9'
}

pub open spec fn all_digits(s: Seq<char>) -> bool {
    forall|i: int| 0 <= i < s.len() ==> is_digit(#[trigger] s[i])
}

pub open spec fn digit_char(d: nat) -> char {
    ((d + 48) as u8) as char
}

pub open spec fn digit_value(c: char) -> nat {
    ((c as u8) - 48) as nat
}

/// The value of a run of decimal digits.
pub open spec fn digits_value(s: Seq<char>) -> nat
    decreases s.len(),
{
    if s.len() == 0 {
        0
    } else {
        digits_value(s.drop_last()) * 10 + digit_value(s.last())
    }
}

/// The decimal form of `n`, without sign or leading zeros.
pub open spec fn decimal(n: nat) -> Seq<char>
    decreases n,
{
    if n < 10 {
        seq![digit_char(n)]
    } else {
        decimal(n / 10).push(digit_char(n % 10))
    }
}

/// What `u16::from_str` accepts: an optional `+`, then at least one decimal
/// digit, the value fitting in 16 bits.
pub open spec fn parse_u16(s: Seq<char>) -> Option<u16> {
    let d = if s.len() > 0 && s[0] == '+' {
        s.drop_first()
    } else {
        s
    };
    if d.len() > 0 && all_digits(d) && digits_value(d) <= 65535 {
        Some(digits_value(d) as u16)
    } else {
        None
    }
}

pub proof fn lemma_index_of(s: Seq<char>, c: char)
    ensures
        -1 <= index_of(s, c) < s.len(),
        index_of(s, c) >= 0 ==> s[index_of(s, c)] == c,
        forall|j: int|
            0 <= j < s.len() && (index_of(s, c) < 0 || j < index_of(s, c)) ==> #[trigger] s[j]
                != c,
    decreases s.len(),
{
    if s.len() > 0 && s[0] != c {
        lemma_index_of(s.drop_first(), c);
        assert forall|j: int|
            0 <= j < s.len() && (index_of(s, c) < 0 || j < index_of(s, c)) implies #[trigger] s[j]
            != c by {
            if j > 0 {
                assert(s[j] == s.drop_first()[j - 1]);
            }
        }
    }
}

/// The first `c` of `s` stands at `k`.
pub proof fn lemma_index_of_at(s: Seq<char>, c: char, k: int)
    requires
        0 <= k < s.len(),
        s[k] == c,
        lacks(s.take(k), c),
    ensures
        index_of(s, c) == k,
{
    lemma_index_of(s, c);
    let r = index_of(s, c);
    if r < 0 || r > k {
        assert(s[k] != c);
    } else if r < k {
        assert(s.take(k)[r] == s[r]);
    }
}

/// `s` holds no `c`.
pub proof fn lemma_index_of_none(s: Seq<char>, c: char)
    requires
        lacks(s, c),
    ensures
        index_of(s, c) == -1,
{
    lemma_index_of(s, c);
    if index_of(s, c) >= 0 {
        assert(s[index_of(s, c)] != c);
    }
}

/// Two texts that both equal a third, letter case aside, equal each other.
pub proof fn lemma_eq_ignore_case_shared(a: Seq<char>, b: Seq<char>, c: Seq<char>)
    requires
        eq_ignore_case(a, b),
        eq_ignore_case(a, c),
    ensures
        eq_ignore_case(b, c),
        eq_ignore_case(c, b),
{
    assert forall|i: int| 0 <= i < b.len() implies lower(#[trigger] b[i]) == lower(c[i]) by {
        assert(lower(a[i]) == lower(b[i]));
        assert(lower(a[i]) == lower(c[i]));
    }
    assert forall|i: int| 0 <= i < c.len() implies lower(#[trigger] c[i]) == lower(b[i]) by {
        assert(lower(a[i]) == lower(b[i]));
        assert(lower(a[i]) == lower(c[i]));
    }
}

/// Position of the first item of `s` that satisfies `p`, or -1 when none does.
pub open spec fn first_index<A>(s: Seq<A>, p: spec_fn(A) -> bool) -> int
    decreases s.len(),
{
    if s.len() == 0 {
        -1
    } else if p(s[0]) {
        0
    } else {
        let r = first_index(s.drop_first(), p);
        if r < 0 {
            -1
        } else {
            r + 1
        }
    }
}

pub proof fn lemma_first_index<A>(s: Seq<A>, p: spec_fn(A) -> bool)
    ensures
        -1 <= first_index(s, p) < s.len(),
        first_index(s, p) >= 0 ==> p(s[first_index(s, p)]),
        forall|j: int|
            0 <= j < s.len() && (first_index(s, p) < 0 || j < first_index(s, p)) ==> !p(
                #[trigger] s[j],
            ),
    decreases s.len(),
{
    if s.len() > 0 && !p(s[0]) {
        lemma_first_index(s.drop_first(), p);
        assert forall|j: int|
            0 <= j < s.len() && (first_index(s, p) < 0 || j < first_index(s, p)) implies !p(
            #[trigger] s[j],
        ) by {
            if j > 0 {
                assert(s[j] == s.drop_first()[j - 1]);
            }
        }
    }
}

/// The first item of `s` that satisfies `p` stands at `k`.
pub proof fn lemma_first_index_at<A>(s: Seq<A>, p: spec_fn(A) -> bool, k: int)
    requires
        0 <= k < s.len(),
        p(s[k]),
        forall|j: int| 0 <= j < k ==> !p(#[trigger] s[j]),
    ensures
        first_index(s, p) == k,
{
    lemma_first_index(s, p);
}

/// No item of `s` satisfies `p`.
pub proof fn lemma_first_index_none<A>(s: Seq<A>, p: spec_fn(A) -> bool)
    requires
        forall|j: int| 0 <= j < s.len() ==> !p(#[trigger] s[j]),
    ensures
        first_index(s, p) == -1,
{
    lemma_first_index(s, p);
}

/// Splitting a piece free of `c`, then `c`, then the rest.
pub proof fn lemma_split_cons(a: Seq<char>, c: char, b: Seq<char>)
    requires
        lacks(a, c),
    ensures
        split(a + seq![c] + b, c) == seq![a] + split(b, c),
{
    let s = a + seq![c] + b;
    assert(s.take(a.len() as int) =~= a);
    assert(s[a.len() as int] == c);
    lemma_index_of_at(s, c, a.len() as int);
    assert(s.skip(a.len() as int + 1) =~= b);
}

pub proof fn lemma_split_single(a: Seq<char>, c: char)
    requires
        lacks(a, c),
    ensures
        split(a, c) == seq![a],
{
    lemma_index_of_none(a, c);
}

/// A terminated line, then the rest of the text.
pub proof fn lemma_lines_cons(a: Seq<char>, b: Seq<char>)
    requires
        lacks(a, '\n'),
    ensures
        lines(a + seq!['\n'] + b) == seq![strip_cr(a)] + lines(b),
{
    let s = a + seq!['\n'] + b;
    assert(s.take(a.len() as int) =~= a);
    assert(s[a.len() as int] == '\n');
    lemma_index_of_at(s, '\n', a.len() as int);
    assert(s.skip(a.len() as int + 1) =~= b);
}

pub proof fn lemma_lines_nonempty(s: Seq<char>)
    requires
        s.len() > 0,
    ensures
        lines(s).len() >= 1,
    decreases s.len(),
{
    let i = index_of(s, '\n');
    if !(i < 0 || i >= s.len()) {
        assert(lines(s) == seq![strip_cr(s.take(i))] + lines(s.skip(i + 1)));
    }
}

/// Joining the lines of a text gives the text back, when it holds no
/// carriage return and does not end in a line feed.
pub proof fn lemma_join_lines(s: Seq<char>)
    requires
        lacks(s, '\r'),
        s.len() > 0 ==> s.last() != '\n',
    ensures
        join(lines(s), '\n') == s,
    decreases s.len(),
{
    if s.len() > 0 {
        lemma_index_of(s, '\n');
        let i = index_of(s, '\n');
        if i < 0 || i >= s.len() {
            assert(join(lines(s), '\n') == strip_cr(s));
        } else {
            let head = s.take(i);
            let rest = s.skip(i + 1);
            assert(i < s.len() - 1);
            assert(lacks(rest, '\r')) by {
                assert forall|j: int| 0 <= j < rest.len() implies #[trigger] rest[j] != '\r' by {
                    assert(rest[j] == s[j + i + 1]);
                }
            }
            assert(rest.last() == s.last());
            lemma_join_lines(rest);
            lemma_lines_nonempty(rest);
            assert(head.len() > 0 ==> head.last() == s[i - 1]);
            assert(strip_cr(head) == head);
            let ls = lines(s);
            assert(ls.drop_first() =~= lines(rest));
            assert(s =~= head + seq!['\n'] + rest);
        }
    }
}

pub proof fn lemma_join_push(ls: Seq<Seq<char>>, x: Seq<char>, sep: char)
    ensures
        join(ls.push(x), sep) == if ls.len() == 0 {
            x
        } else {
            join(ls, sep) + seq![sep] + x
        },
    decreases ls.len(),
{
    if ls.len() == 1 {
        assert(ls.push(x).drop_first() =~= seq![x]);
        assert(join(seq![x], sep) == x);
    } else if ls.len() > 1 {
        lemma_join_push(ls.drop_first(), x, sep);
        assert(ls.push(x).drop_first() =~= ls.drop_first().push(x));
        assert(join(ls.push(x), sep) =~= join(ls, sep) + seq![sep] + x);
    }
}

pub proof fn lemma_trim_start_none(s: Seq<char>)
    requires
        s.len() > 0 ==> !is_space(s[0]),
    ensures
        trim_start(s) == s,
{
}

pub proof fn lemma_digits_value_prefix(s: Seq<char>, k: int)
    requires
        0 <= k <= s.len(),
    ensures
        digits_value(s.take(k)) <= digits_value(s),
    decreases s.len() - k,
{
    if k < s.len() {
        lemma_digits_value_prefix(s, k + 1);
        let t = s.take(k + 1);
        assert(t.drop_last() =~= s.take(k));
    } else {
        assert(s.take(k) =~= s);
    }
}

pub proof fn lemma_decimal(n: nat)
    ensures
        decimal(n).len() > 0,
        all_digits(decimal(n)),
        decimal(n)[0] != '+',
        digits_value(decimal(n)) == n,
    decreases n,
{
    let m = n % 10;
    assert(digit_value(digit_char(m)) == m);
    if n >= 10 {
        lemma_decimal(n / 10);
        let d = decimal(n);
        assert(d.drop_last() =~= decimal(n / 10));
        assert(d[0] == decimal(n / 10)[0]);
        assert(d.last() == digit_char(m));
        assert(n == (n / 10) * 10 + m);
        assert(digits_value(d) == digits_value(d.drop_last()) * 10 + digit_value(d.last()));
    } else {
        let d = decimal(n);
        assert(d.drop_last() =~= Seq::<char>::empty());
        assert(m == n);
        assert(digits_value(d) == digits_value(d.drop_last()) * 10 + digit_value(d.last()));
    }
}

/// The characters of `s`, in order.
pub fn chars_of(s: &str) -> (r: Vec<char>)
    ensures
        r@ == s@,
{
    let mut r: Vec<char> = Vec::new();
    for c in it: s.chars()
        invariant
            it.seq() == s@,
            r@ == it.seq().take(it.index() as int),
    {
        r.push(c);
    }
    r
}

pub fn lower_char(c: char) -> (r: char)
    ensures
        r == lower(c),
{
    if 'A' <= c && c <= 'Z' {
        ((c as u8) + 32) as char
    } else {
        c
    }
}

pub fn is_space_char(c: char) -> (r: bool)
    ensures
        r == is_space(c),
{
    ('\u{9}' <= c && c <= '\u{d}') || c == ' ' || c == '\u{85}' || c == '\u{a0}' || c
        == '\u{1680}' || ('\u{2000}' <= c && c <= '\u{200a}') || c == '\u{2028}' || c
        == '\u{2029}' || c == '\u{202f}' || c == '\u{205f}' || c == '\u{3000}'
}

/// ASCII case-insensitive comparison of two runs of characters.
pub fn chars_eq_ignore_case(x: &[char], y: &[char]) -> (r: bool)
    ensures
        r == eq_ignore_case(x@, y@),
{
    if x.len() != y.len() {
        return false;
    }
    let mut i: usize = 0;
    while i < x.len()
        invariant
            x@.len() == y@.len(),
            i <= x@.len(),
            forall|j: int| 0 <= j < i ==> lower(#[trigger] x@[j]) == lower(y@[j]),
        decreases x@.len() - i,
    {
        if lower_char(x[i]) != lower_char(y[i]) {
            return false;
        }
        i += 1;
    }
    true
}

/// ASCII case-insensitive comparison of two texts.
pub fn eq_ignore_ascii_case(a: &str, b: &str) -> (r: bool)
    ensures
        r == eq_ignore_case(a@, b@),
{
    let x = chars_of(a);
    let y = chars_of(b);
    chars_eq_ignore_case(x.as_slice(), y.as_slice())
}

/// The characters `v[sp.0..sp.1]`.
pub open spec fn span_text(v: Seq<char>, sp: (usize, usize)) -> Seq<char> {
    v.subrange(sp.0 as int, sp.1 as int)
}

/// The first position in `from..to` holding `c`, or `to` when there is none.
pub fn find_in(v: &[char], from: usize, to: usize, c: char) -> (r: usize)
    requires
        from <= to <= v@.len(),
    ensures
        from <= r <= to,
        r < to ==> v@[r as int] == c,
        lacks(v@.subrange(from as int, r as int), c),
{
    let mut i = from;
    while i < to
        invariant
            from <= i <= to <= v@.len(),
            lacks(v@.subrange(from as int, i as int), c),
        decreases to - i,
    {
        if v[i] == c {
            return i;
        }
        assert(lacks(v@.subrange(from as int, i + 1), c)) by {
            assert forall|j: int| 0 <= j < i + 1 - from implies #[trigger] v@.subrange(from as int, i + 1)[j] != c by {
                if j < i - from {
                    assert(v@.subrange(from as int, i + 1)[j] == v@.subrange(from as int, i as int)[j]);
                }
            }
        }
        i += 1;
    }
    i
}

/// The spans of the pieces of `v[lo..hi]` between occurrences of `c`.
pub fn split_spans(v: &[char], lo: usize, hi: usize, c: char) -> (r: Vec<(usize, usize)>)
    requires
        lo <= hi <= v@.len(),
    ensures
        r@.len() == split(v@.subrange(lo as int, hi as int), c).len(),
        forall|k: int|
            0 <= k < r@.len() ==> lo <= (#[trigger] r@[k]).0 <= r@[k].1 <= hi && span_text(v@, r@[k])
                == split(v@.subrange(lo as int, hi as int), c)[k],
{
    let mut r: Vec<(usize, usize)> = Vec::new();
    let mut pos = lo;
    let ghost mut acc: Seq<Seq<char>> = seq![];
    loop
        invariant
            lo <= pos <= hi <= v@.len(),
            split(v@.subrange(lo as int, hi as int), c) == acc + split(v@.subrange(pos as int, hi as int), c),
            r@.len() == acc.len(),
            forall|k: int|
                0 <= k < r@.len() ==> lo <= (#[trigger] r@[k]).0 <= r@[k].1 <= hi && span_text(v@, r@[k]) == acc[k],
        decreases hi - pos,
    {
        let j = find_in(v, pos, hi, c);
        let ghost rest = v@.subrange(pos as int, hi as int);
        if j == hi {
            proof {
                assert(v@.subrange(pos as int, j as int) == rest);
                lemma_split_single(rest, c);
                acc = acc.push(rest);
            }
            r.push((pos, hi));
            return r;
        }
        proof {
            let a = v@.subrange(pos as int, j as int);
            let b = v@.subrange(j + 1, hi as int);
            assert(rest =~= a + seq![c] + b);
            lemma_split_cons(a, c, b);
            assert(acc + split(rest, c) =~= acc.push(a) + split(b, c));
            acc = acc.push(a);
        }
        r.push((pos, j));
        pos = j + 1;
    }
}

/// The spans of the lines of `v`.
pub fn line_spans(v: &[char]) -> (r: Vec<(usize, usize)>)
    ensures
        r@.len() == lines(v@).len(),
        forall|k: int|
            0 <= k < r@.len() ==> (#[trigger] r@[k]).0 <= r@[k].1 <= v@.len() && span_text(v@, r@[k])
                == lines(v@)[k],
{
    let mut r: Vec<(usize, usize)> = Vec::new();
    let mut pos: usize = 0;
    let ghost mut acc: Seq<Seq<char>> = seq![];
    assert(v@.subrange(0, v@.len() as int) =~= v@);
    loop
        invariant
            pos <= v@.len(),
            lines(v@) == acc + lines(v@.subrange(pos as int, v@.len() as int)),
            r@.len() == acc.len(),
            forall|k: int|
                0 <= k < r@.len() ==> (#[trigger] r@[k]).0 <= r@[k].1 <= v@.len() && span_text(v@, r@[k]) == acc[k],
        decreases v@.len() - pos,
    {
        let ghost rest = v@.subrange(pos as int, v@.len() as int);
        if pos == v.len() {
            assert(acc + lines(rest) =~= acc);
            return r;
        }
        let j = find_in(v, pos, v.len(), '\n');
        let mut end = j;
        if j > pos && v[j - 1] == '\r' {
            end = j - 1;
        }
        proof {
            let a = v@.subrange(pos as int, j as int);
            assert(span_text(v@, (pos, end)) == strip_cr(a)) by {
                if j > pos && v@[j - 1] == '\r' {
                    assert(a.drop_last() =~= v@.subrange(pos as int, end as int));
                } else {
                    assert(a =~= v@.subrange(pos as int, end as int));
                }
            }
            if j == v@.len() {
                assert(a == rest);
                lemma_index_of_none(rest, '\n');
                acc = acc.push(strip_cr(a));
            } else {
                let b = v@.subrange(j + 1, v@.len() as int);
                assert(rest =~= a + seq!['\n'] + b);
                lemma_lines_cons(a, b);
                assert(acc + lines(rest) =~= acc.push(strip_cr(a)) + lines(b));
                acc = acc.push(strip_cr(a));
            }
        }
        r.push((pos, end));
        if j == v.len() {
            assert(acc + lines(v@.subrange(v@.len() as int, v@.len() as int)) =~= acc);
            return r;
        }
        pos = j + 1;
    }
}

/// The bounds of `v` without its leading and trailing white space.
pub fn trim_bounds(v: &[char]) -> (r: (usize, usize))
    ensures
        r.0 <= r.1 <= v@.len(),
        v@.subrange(r.0 as int, r.1 as int) == trim(v@),
{
    let n = v.len();
    let mut a: usize = 0;
    assert(v@.subrange(0, n as int) =~= v@);
    while a < n && is_space_char(v[a])
        invariant
            n == v@.len(),
            a <= n,
            trim_start(v@) == trim_start(v@.subrange(a as int, n as int)),
        decreases n - a,
    {
        assert(v@.subrange(a + 1, n as int) =~= v@.subrange(a as int, n as int).drop_first());
        a += 1;
    }
    assert(trim_start(v@.subrange(a as int, n as int)) == v@.subrange(a as int, n as int));
    let mut b: usize = n;
    while b > a && is_space_char(v[b - 1])
        invariant
            n == v@.len(),
            a <= b <= n,
            trim_end(v@.subrange(a as int, n as int)) == trim_end(v@.subrange(a as int, b as int)),
        decreases b - a,
    {
        assert(v@.subrange(a as int, b - 1) =~= v@.subrange(a as int, b as int).drop_last());
        b -= 1;
    }
    assert(trim_end(v@.subrange(a as int, b as int)) == v@.subrange(a as int, b as int));
    (a, b)
}

/// `v[lo..hi]` equals `t` when ASCII letters are compared without case.
pub fn span_eq_ignore_case(v: &[char], lo: usize, hi: usize, t: &str) -> (r: bool)
    requires
        lo <= hi <= v@.len(),
    ensures
        r == eq_ignore_case(v@.subrange(lo as int, hi as int), t@),
{
    let y = chars_of(t);
    if hi - lo != y.len() {
        return false;
    }
    let ghost x = v@.subrange(lo as int, hi as int);
    let mut i: usize = 0;
    while i < y.len()
        invariant
            lo <= hi <= v@.len(),
            x == v@.subrange(lo as int, hi as int),
            y@ == t@,
            x.len() == y@.len(),
            i <= y@.len(),
            forall|j: int| 0 <= j < i ==> lower(#[trigger] x[j]) == lower(y@[j]),
        decreases y@.len() - i,
    {
        assert(x[i as int] == v@[lo + i]);
        if lower_char(v[lo + i]) != lower_char(y[i]) {
            return false;
        }
        i += 1;
    }
    true
}

fn digit_str(d: u64) -> (r: &'static str)
    requires
        d < 10,
    ensures
        r@ == seq![digit_char(d as nat)],
{
    proof {
        reveal_strlit("0");
        reveal_strlit("1");
        reveal_strlit("2");
        reveal_strlit("3");
        reveal_strlit("4");
        reveal_strlit("5");
        reveal_strlit("6");
        reveal_strlit("7");
        reveal_strlit("8");
        reveal_strlit("9");
    }
    if d == 0 {
        "0"
    } else if d == 1 {
        "1"
    } else if d == 2 {
        "2"
    } else if d == 3 {
        "3"
    } else if d == 4 {
        "4"
    } else if d == 5 {
        "5"
    } else if d == 6 {
        "6"
    } else if d == 7 {
        "7"
    } else if d == 8 {
        "8"
    } else {
        "9"
    }
}

/// The decimal form of `n`.
pub fn decimal_string(n: u128) -> (r: String)
    ensures
        r@ == decimal(n as nat),
    decreases n,
{
    if n < 10 {
        String::from_str(digit_str(n as u64))
    } else {
        let mut s = decimal_string(n / 10);
        s.append(digit_str((n % 10) as u64));
        s
    }
}

/// `u16::from_str` on the characters `v[lo..hi]`.
pub fn parse_u16_chars(v: &[char], lo: usize, hi: usize) -> (r: Option<u16>)
    requires
        lo <= hi <= v@.len(),
    ensures
        r == parse_u16(v@.subrange(lo as int, hi as int)),
{
    let ghost s = v@.subrange(lo as int, hi as int);
    let mut start = lo;
    if lo < hi && v[lo] == '+' {
        start = lo + 1;
    }
    let ghost d = v@.subrange(start as int, hi as int);
    assert(d == (if s.len() > 0 && s[0] == '+' { s.drop_first() } else { s }));
    if start == hi {
        return None;
    }
    let mut acc: u32 = 0;
    let mut i = start;
    while i < hi
        invariant
            lo <= start <= i <= hi <= v@.len(),
            d == v@.subrange(start as int, hi as int),
            s == v@.subrange(lo as int, hi as int),
            d == (if s.len() > 0 && s[0] == '+' { s.drop_first() } else { s }),
            d.len() > 0,
            all_digits(d.take(i - start)),
            acc as nat == digits_value(d.take(i - start)),
            acc <= 65535,
        decreases hi - i,
    {
        let c = v[i];
        if !('0' <= c && c <= '9') {
            assert(d[i - start] == c);
            return None;
        }
        let k = i - start;
        assert(d.take(k + 1).drop_last() =~= d.take(k as int));
        assert(d.take(k + 1).last() == c);
        let next = acc * 10 + ((c as u8) - 48) as u32;
        assert(next == digits_value(d.take(k + 1)));
        if next > 65535 {
            proof {
                lemma_digits_value_prefix(d, k + 1);
            }
            return None;
        }
        acc = next;
        i += 1;
        assert(all_digits(d.take(i - start))) by {
            assert forall|j: int| 0 <= j < i - start implies is_digit(#[trigger] d.take(i - start)[j]) by {
                if j < k {
                    assert(d.take(i - start)[j] == d.take(k as int)[j]);
                }
            }
        }
    }
    assert(d.take(hi - start) =~= d);
    Some(acc as u16)
}

} // verus!
