//! Character-level helpers shared by the catalog, the completion engine and
//! the help renderer: whitespace tokenization, prefix tests, lexicographic
//! order and decimal rendering.
use vstd::prelude::*;
use vstd::string::StrSliceExecFns;

verus! {

/// Relies on String::push: the character is appended at the end.
pub assume_specification[ String::push ](s: &mut String, ch: char)
    ensures
        final(s)@ == old(s)@.push(ch),
;

/// The Unicode `White_Space` property, the set that `char::is_whitespace`
/// and `str::split_whitespace` use.
pub open spec fn is_space(c: char) -> bool {
    let u = c as u32;
    ||| 0x09 <= u <= 0x0d
    ||| u == 0x20
    ||| u == 0x85
    ||| u == 0xa0
    ||| u == 0x1680
    ||| 0x2000 <= u <= 0x200a
    ||| u == 0x2028
    ||| u == 0x2029
    ||| u == 0x202f
    ||| u == 0x205f
    ||| u == 0x3000
}

pub fn char_is_space(c: char) -> (r: bool)
    ensures
        r == is_space(c),
{
    let u = c as u32;
    (0x09 <= u && u <= 0x0d) || u == 0x20 || u == 0x85 || u == 0xa0 || u == 0x1680 || (0x2000
        <= u && u <= 0x200a) || u == 0x2028 || u == 0x2029 || u == 0x202f || u == 0x205f || u
        == 0x3000
}

/// Whether the text ends in a whitespace character.
pub open spec fn ends_in_space(s: Seq<char>) -> bool {
    s.len() > 0 && is_space(s.last())
}

/// The half-open character ranges of the maximal runs of non-whitespace
/// characters of `s`, left to right.
pub open spec fn spans(s: Seq<char>) -> Seq<(int, int)>
    decreases s.len(),
{
    if s.len() == 0 {
        Seq::empty()
    } else {
        let prev = spans(s.drop_last());
        if is_space(s.last()) {
            prev
        } else if s.len() >= 2 && !is_space(s[s.len() - 2]) {
            prev.drop_last().push((prev.last().0, s.len() as int))
        } else {
            prev.push((s.len() - 1, s.len() as int))
        }
    }
}

/// The whitespace-separated tokens of `s`.
pub open spec fn tokens(s: Seq<char>) -> Seq<Seq<char>> {
    spans(s).map_values(|p: (int, int)| s.subrange(p.0, p.1))
}

pub open spec fn texts(v: Seq<String>) -> Seq<Seq<char>> {
    v.map_values(|t: String| t@)
}

/// Every span is a non-empty range inside `s`, and the last one ends at the
/// end of `s` when `s` ends in a non-whitespace character.
pub proof fn lemma_spans_bounds(s: Seq<char>)
    ensures
        forall|k: int|
            0 <= k < spans(s).len() ==> 0 <= #[trigger] spans(s)[k].0 < spans(s)[k].1 <= s.len(),
        s.len() > 0 && !is_space(s.last()) ==> spans(s).len() > 0 && spans(s).last().1 == s.len(),
    decreases s.len(),
{
    if s.len() > 0 {
        let p = s.drop_last();
        lemma_spans_bounds(p);
        let prev = spans(p);
        if is_space(s.last()) {
        } else if s.len() >= 2 && !is_space(s[s.len() - 2]) {
            assert(p.last() == s[s.len() - 2]);
            let cur = prev.drop_last().push((prev.last().0, s.len() as int));
            assert(spans(s) == cur);
            assert forall|k: int| 0 <= k < cur.len() implies 0 <= #[trigger] cur[k].0 < cur[k].1
                <= s.len() by {
                if k < cur.len() - 1 {
                    assert(cur[k] == prev[k]);
                } else {
                    assert(prev[prev.len() - 1].0 < prev[prev.len() - 1].1);
                }
            }
        } else {
            let cur = prev.push((s.len() - 1, s.len() as int));
            assert(spans(s) == cur);
            assert forall|k: int| 0 <= k < cur.len() implies 0 <= #[trigger] cur[k].0 < cur[k].1
                <= s.len() by {
                if k < cur.len() - 1 {
                    assert(cur[k] == prev[k]);
                }
            }
        }
    }
}

/// Splits `s` into its whitespace-separated tokens.
pub fn split_whitespace(s: &str) -> (r: Vec<String>)
    ensures
        texts(r@) == tokens(s@),
{
    let n = s.unicode_len();
    let mut starts: Vec<usize> = Vec::new();
    let mut ends: Vec<usize> = Vec::new();
    let mut i: usize = 0;
    while i < n
        invariant
            n == s@.len(),
            i <= n,
            starts@.len() == ends@.len(),
            starts@.len() == spans(s@.subrange(0, i as int)).len(),
            forall|k: int|
                0 <= k < starts@.len() ==> (starts@[k] as int, ends@[k] as int) == spans(
                    s@.subrange(0, i as int),
                )[k],
        decreases n - i,
    {
        let c = s.get_char(i);
        let ghost pre = s@.subrange(0, i as int);
        let ghost cur = s@.subrange(0, i + 1);
        assert(cur.drop_last() =~= pre);
        assert(cur.last() == c);
        proof {
            lemma_spans_bounds(pre);
        }
        if !char_is_space(c) {
            if i > 0 && !char_is_space(s.get_char(i - 1)) {
                assert(cur[cur.len() - 2] == s@[i - 1]);
                let last = ends.len() - 1;
                ends.set(last, i + 1);
            } else {
                assert(i == 0 || cur[cur.len() - 2] == s@[i - 1]);
                starts.push(i);
                ends.push(i + 1);
            }
        }
        i = i + 1;
    }
    assert(s@.subrange(0, n as int) =~= s@);
    proof {
        lemma_spans_bounds(s@);
    }
    let mut r: Vec<String> = Vec::new();
    let mut k: usize = 0;
    while k < starts.len()
        invariant
            n == s@.len(),
            s@.subrange(0, n as int) == s@,
            starts@.len() == ends@.len(),
            starts@.len() == spans(s@).len(),
            forall|j: int|
                0 <= j < starts@.len() ==> (starts@[j] as int, ends@[j] as int) == spans(s@)[j],
            forall|j: int|
                0 <= j < spans(s@).len() ==> 0 <= #[trigger] spans(s@)[j].0 < spans(s@)[j].1
                    <= s@.len(),
            k <= starts@.len(),
            r@.len() == k,
            forall|j: int| 0 <= j < k ==> #[trigger] r@[j]@ == tokens(s@)[j],
        decreases starts@.len() - k,
    {
        assert(spans(s@)[k as int] == (starts@[k as int] as int, ends@[k as int] as int));
        assert(0 <= spans(s@)[k as int].0 < spans(s@)[k as int].1 <= s@.len());
        let piece = s.substring_char(starts[k], ends[k]);
        r.push(piece.to_owned());
        k = k + 1;
    }
    assert(texts(r@) =~= tokens(s@));
    r
}

/// Whether `s` starts with `p`.
pub fn has_prefix(s: &str, p: &str) -> (r: bool)
    ensures
        r == p@.is_prefix_of(s@),
{
    let n = s.unicode_len();
    let m = p.unicode_len();
    if m > n {
        return false;
    }
    let mut i: usize = 0;
    while i < m
        invariant
            n == s@.len(),
            m == p@.len(),
            m <= n,
            i <= m,
            forall|j: int| 0 <= j < i ==> p@[j] == s@[j],
        decreases m - i,
    {
        if s.get_char(i) != p.get_char(i) {
            return false;
        }
        i = i + 1;
    }
    true
}

/// Whether two texts are equal.
pub fn same_text(a: &str, b: &str) -> (r: bool)
    ensures
        r == (a@ == b@),
{
    let n = a.unicode_len();
    if n != b.unicode_len() {
        return false;
    }
    let mut i: usize = 0;
    while i < n
        invariant
            n == a@.len(),
            n == b@.len(),
            i <= n,
            forall|j: int| 0 <= j < i ==> a@[j] == b@[j],
        decreases n - i,
    {
        if a.get_char(i) != b.get_char(i) {
            return false;
        }
        i = i + 1;
    }
    assert(a@ =~= b@);
    true
}

/// Strict lexicographic order by code point: the order of `str`'s `Ord`,
/// since UTF-8 keeps the order of code points.
pub open spec fn lex_lt(a: Seq<char>, b: Seq<char>) -> bool
    decreases a.len(),
{
    if a.len() == 0 {
        b.len() > 0
    } else if b.len() == 0 {
        false
    } else if a[0] != b[0] {
        (a[0] as u32) < (b[0] as u32)
    } else {
        lex_lt(a.drop_first(), b.drop_first())
    }
}

proof fn lemma_char_u32_injective(x: char, y: char)
    requires
        x != y,
    ensures
        x as u32 != y as u32,
{
}

pub proof fn lemma_lex_total(a: Seq<char>, b: Seq<char>)
    requires
        a != b,
    ensures
        lex_lt(a, b) || lex_lt(b, a),
    decreases a.len(),
{
    if a.len() > 0 && b.len() > 0 && a[0] == b[0] {
        assert(a =~= seq![a[0]] + a.drop_first());
        assert(b =~= seq![b[0]] + b.drop_first());
        lemma_lex_total(a.drop_first(), b.drop_first());
    } else if a.len() > 0 && b.len() > 0 {
        lemma_char_u32_injective(a[0], b[0]);
    } else if a.len() == 0 && b.len() == 0 {
        assert(a =~= b);
    }
}

pub proof fn lemma_lex_transitive(a: Seq<char>, b: Seq<char>, c: Seq<char>)
    requires
        lex_lt(a, b),
        lex_lt(b, c),
    ensures
        lex_lt(a, c),
    decreases a.len(),
{
    if a.len() > 0 && b.len() > 0 && c.len() > 0 && a[0] == b[0] && b[0] == c[0] {
        lemma_lex_transitive(a.drop_first(), b.drop_first(), c.drop_first());
    }
}

/// Whether `a` comes strictly before `b` in lexicographic order.
pub fn text_less(a: &str, b: &str) -> (r: bool)
    ensures
        r == lex_lt(a@, b@),
{
    let n = a.unicode_len();
    let m = b.unicode_len();
    let mut i: usize = 0;
    assert(a@.skip(0) =~= a@);
    assert(b@.skip(0) =~= b@);
    while i < n && i < m
        invariant
            n == a@.len(),
            m == b@.len(),
            i <= n,
            i <= m,
            lex_lt(a@, b@) == lex_lt(a@.skip(i as int), b@.skip(i as int)),
        decreases n - i,
    {
        let x = a.get_char(i);
        let y = b.get_char(i);
        assert(a@.skip(i as int)[0] == x);
        assert(b@.skip(i as int)[0] == y);
        if x != y {
            return (x as u32) < (y as u32);
        }
        assert(a@.skip(i as int).drop_first() =~= a@.skip(i + 1));
        assert(b@.skip(i as int).drop_first() =~= b@.skip(i + 1));
        i = i + 1;
    }
    i < m
}

/// Each text comes strictly before the next: sorted, without repeats.
pub open spec fn strictly_sorted(s: Seq<Seq<char>>) -> bool {
    forall|i: int, j: int| 0 <= i < j < s.len() ==> lex_lt(#[trigger] s[i], #[trigger] s[j])
}

/// Inserts `x` at its place in a strictly sorted vector, unless it is
/// already there.
pub fn insert_sorted(v: &mut Vec<String>, x: String)
    requires
        strictly_sorted(texts(old(v)@)),
    ensures
        strictly_sorted(texts(final(v)@)),
        forall|t: Seq<char>|
            #[trigger] texts(final(v)@).contains(t) <==> texts(old(v)@).contains(t) || t == x@,
{
    let ghost old_v = texts(v@);
    let mut i: usize = 0;
    let mut scanning = true;
    while scanning && i < v.len()
        invariant
            texts(v@) == old_v,
            strictly_sorted(old_v),
            i <= v@.len(),
            forall|j: int| 0 <= j < i ==> lex_lt(#[trigger] old_v[j], x@),
            !scanning ==> i < v@.len() && !lex_lt(old_v[i as int], x@),
        decreases v@.len() - i, if scanning { 1int } else { 0int },
    {
        if text_less(v[i].as_str(), x.as_str()) {
            i = i + 1;
        } else {
            scanning = false;
        }
    }
    if i < v.len() && same_text(v[i].as_str(), x.as_str()) {
        assert(old_v[i as int] == x@);
        return;
    }
    proof {
        if i < v@.len() {
            assert(old_v[i as int] == v@[i as int]@);
            lemma_lex_total(x@, old_v[i as int]);
            assert forall|j: int| i <= j < old_v.len() implies lex_lt(x@, #[trigger] old_v[j]) by {
                if j > i {
                    lemma_lex_transitive(x@, old_v[i as int], old_v[j]);
                }
            }
        }
    }
    v.insert(i, x);
    let ghost new_v = texts(v@);
    assert(new_v =~= old_v.insert(i as int, x@));
    assert forall|t: Seq<char>| #[trigger] new_v.contains(t) <==> old_v.contains(t) || t == x@ by {
        if new_v.contains(t) {
            let k = choose|k: int| 0 <= k < new_v.len() && new_v[k] == t;
            if k > i {
                assert(old_v[k - 1] == t);
            }
        }
        if old_v.contains(t) {
            let k = choose|k: int| 0 <= k < old_v.len() && old_v[k] == t;
            if k < i {
                assert(new_v[k] == t);
            } else {
                assert(new_v[k + 1] == t);
            }
        }
        if t == x@ {
            assert(new_v[i as int] == t);
        }
    }
    assert forall|a: int, b: int| 0 <= a < b < new_v.len() implies lex_lt(
        #[trigger] new_v[a],
        #[trigger] new_v[b],
    ) by {
        if b < i {
        } else if b == i {
        } else if a < i {
            assert(new_v[b] == old_v[b - 1]);
            lemma_lex_transitive(old_v[a], x@, old_v[b - 1]);
        } else if a == i {
            assert(new_v[b] == old_v[b - 1]);
        } else {
            assert(new_v[a] == old_v[a - 1]);
            assert(new_v[b] == old_v[b - 1]);
        }
    }
}

/// The character of a decimal digit.
pub open spec fn digit_char(d: nat) -> char {
    ((48 + d) as u8) as char
}

/// The decimal representation of `n`, without leading zeros.
pub open spec fn decimal(n: nat) -> Seq<char>
    decreases n,
{
    if n < 10 {
        seq![digit_char(n)]
    } else {
        decimal(n / 10).push(digit_char(n % 10))
    }
}

/// Appends the decimal representation of `n` to `s`.
pub fn push_decimal(s: &mut String, n: usize)
    ensures
        final(s)@ == old(s)@ + decimal(n as nat),
    decreases n,
{
    if n >= 10 {
        push_decimal(s, n / 10);
    }
    let d: u8 = (n % 10) as u8;
    s.push((48u8 + d) as char);
    assert(final(s)@ =~= old(s)@ + decimal(n as nat));
}

} // verus!
