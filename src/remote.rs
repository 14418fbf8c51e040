//! Completer references and the candidate lists that the referenced
//! commands return.
use vstd::prelude::*;
use vstd::string::StrSliceExecFns;

use crate::server::CommandResponse;
use crate::text::{char_is_space, has_prefix, is_space, texts};

verus! {

/// `i` is the position of the first `.` of `c`.
pub open spec fn first_dot_at(c: Seq<char>, i: int) -> bool {
    &&& 0 <= i < c.len()
    &&& c[i] == '.'
    &&& forall|j: int| 0 <= j < i ==> c[j] != '.'
}

/// A completer reference `"<service>.<command>"` split on its first `.`;
/// `None` when it holds no `.`.
pub open spec fn split_completer(c: Seq<char>) -> Option<(Seq<char>, Seq<char>)> {
    if exists|i: int| first_dot_at(c, i) {
        let i = choose|i: int| first_dot_at(c, i);
        Some((c.subrange(0, i), c.subrange(i + 1, c.len() as int)))
    } else {
        None
    }
}

/// Splits a completer reference on its first `.` into service and command.
pub fn split_reference(c: &str) -> (r: Option<(String, String)>)
    ensures
        match split_completer(c@) {
            Some((svc, cmd)) => r matches Some((a, b)) && a@ == svc && b@ == cmd,
            None => r is None,
        },
{
    let n = c.unicode_len();
    let mut i: usize = 0;
    while i < n
        invariant
            n == c@.len(),
            i <= n,
            forall|j: int| 0 <= j < i ==> c@[j] != '.',
        decreases n - i,
    {
        if c.get_char(i) == '.' {
            assert(first_dot_at(c@, i as int));
            proof {
                let k = choose|k: int| first_dot_at(c@, k);
                assert(k == i) by {
                    if k < i {
                        assert(c@[k] != '.');
                    } else if k > i {
                        assert(c@[i as int] != '.');
                    }
                }
            }
            let svc = c.substring_char(0, i).to_owned();
            let cmd = c.substring_char(i + 1, n).to_owned();
            return Some((svc, cmd));
        }
        i = i + 1;
    }
    None
}

/// The fields of `m` between commas, as `str::split(',')` gives them.
pub open spec fn comma_fields(m: Seq<char>) -> Seq<Seq<char>>
    decreases m.len(),
{
    if m.len() == 0 {
        seq![Seq::empty()]
    } else {
        let prev = comma_fields(m.drop_last());
        if m.last() == ',' {
            prev.push(Seq::empty())
        } else {
            prev.drop_last().push(prev.last().push(m.last()))
        }
    }
}

/// `s` without its leading whitespace.
pub open spec fn trim_start(s: Seq<char>) -> Seq<char>
    decreases s.len(),
{
    if s.len() > 0 && is_space(s[0]) {
        trim_start(s.drop_first())
    } else {
        s
    }
}

/// `s` without its trailing whitespace.
pub open spec fn trim_end(s: Seq<char>) -> Seq<char>
    decreases s.len(),
{
    if s.len() > 0 && is_space(s.last()) {
        trim_end(s.drop_last())
    } else {
        s
    }
}

/// `s` without leading and trailing whitespace, as `str::trim` gives it.
pub open spec fn trim(s: Seq<char>) -> Seq<char> {
    trim_end(trim_start(s))
}

/// The comma-separated fields of a completer's reply, trimmed.
pub open spec fn trimmed_fields(m: Seq<char>) -> Seq<Seq<char>> {
    comma_fields(m).map_values(|f: Seq<char>| trim(f))
}

/// Whether a trimmed field is a candidate for `prefix`: it is not empty and
/// starts with `prefix`.
pub open spec fn is_candidate(t: Seq<char>, prefix: Seq<char>) -> bool {
    t.len() > 0 && prefix.is_prefix_of(t)
}

/// The values of a completer's reply that start with `prefix`, in the order
/// of the reply: the comma-separated fields, trimmed, without the empty ones.
pub open spec fn matching_values(m: Seq<char>, prefix: Seq<char>) -> Seq<Seq<char>> {
    trimmed_fields(m).filter(|t: Seq<char>| is_candidate(t, prefix))
}

/// Removes leading and trailing whitespace.
pub fn trim_text(s: &str) -> (r: String)
    ensures
        r@ == trim(s@),
{
    let n = s.unicode_len();
    let mut a: usize = 0;
    assert(s@.skip(0) =~= s@);
    while a < n && char_is_space(s.get_char(a))
        invariant
            n == s@.len(),
            a <= n,
            trim_start(s@) == trim_start(s@.skip(a as int)),
        decreases n - a,
    {
        assert(s@.skip(a as int).drop_first() =~= s@.skip(a + 1));
        a = a + 1;
    }
    let ghost front = s@.skip(a as int);
    assert(trim_start(s@) == front);
    let mut b: usize = n;
    assert(front.subrange(0, (b - a) as int) =~= front);
    while b > a && char_is_space(s.get_char(b - 1))
        invariant
            n == s@.len(),
            a <= b <= n,
            front == s@.skip(a as int),
            trim_end(front) == trim_end(front.subrange(0, (b - a) as int)),
        decreases b,
    {
        assert(front.subrange(0, (b - a) as int).drop_last() =~= front.subrange(
            0,
            (b - 1 - a) as int,
        ));
        b = b - 1;
    }
    assert(front.subrange(0, (b - a) as int) =~= s@.subrange(a as int, b as int));
    s.substring_char(a, b).to_owned()
}

/// Splits `m` on commas.
pub fn split_commas(m: &str) -> (r: Vec<String>)
    ensures
        texts(r@) == comma_fields(m@),
{
    let n = m.unicode_len();
    let mut done: Vec<String> = Vec::new();
    let mut cur = String::new();
    let mut i: usize = 0;
    assert(m@.subrange(0, 0) =~= Seq::<char>::empty());
    assert(texts(done@).push(cur@) =~= comma_fields(Seq::<char>::empty()));
    while i < n
        invariant
            n == m@.len(),
            i <= n,
            texts(done@).push(cur@) == comma_fields(m@.subrange(0, i as int)),
        decreases n - i,
    {
        let c = m.get_char(i);
        let ghost pre = m@.subrange(0, i as int);
        let ghost next = m@.subrange(0, i + 1);
        assert(next.drop_last() =~= pre);
        assert(next.last() == c);
        if c == ',' {
            done.push(cur);
            cur = String::new();
            assert(texts(done@).push(cur@) =~= comma_fields(pre).push(Seq::empty()));
        } else {
            let ghost before = texts(done@).push(cur@);
            cur.push(c);
            assert(texts(done@).push(cur@) =~= before.drop_last().push(before.last().push(c)));
        }
        i = i + 1;
    }
    assert(m@.subrange(0, n as int) =~= m@);
    done.push(cur);
    done
}

/// The values of a completer's reply message that start with `prefix`.
pub fn matching_candidates(message: &str, prefix: &str) -> (r: Vec<String>)
    ensures
        texts(r@) == matching_values(message@, prefix@),
{
    let fields = split_commas(message);
    let ghost trimmed = trimmed_fields(message@);
    let ghost pred = |t: Seq<char>| is_candidate(t, prefix@);
    let mut r: Vec<String> = Vec::new();
    let mut i: usize = 0;
    proof {
        reveal(Seq::filter);
        assert(trimmed.take(0) =~= Seq::<Seq<char>>::empty());
        assert(texts(r@) =~= trimmed.take(0).filter(pred));
    }
    while i < fields.len()
        invariant
            texts(fields@) == comma_fields(message@),
            trimmed == trimmed_fields(message@),
            pred == (|t: Seq<char>| is_candidate(t, prefix@)),
            i <= fields@.len(),
            texts(r@) == trimmed.take(i as int).filter(pred),
        decreases fields@.len() - i,
    {
        let t = trim_text(fields[i].as_str());
        let ghost before = texts(r@);
        proof {
            reveal(Seq::filter);
            assert(trimmed.take(i + 1).drop_last() =~= trimmed.take(i as int));
            assert(trimmed.take(i + 1).last() == trimmed[i as int]);
            assert(trimmed[i as int] == t@);
        }
        if t.unicode_len() > 0 && has_prefix(t.as_str(), prefix) {
            r.push(t);
            assert(texts(r@) =~= before.push(t@));
        }
        i = i + 1;
    }
    assert(trimmed.take(fields@.len() as int) =~= trimmed);
    r
}

/// The candidates a remote completer yields: those of its reply when the
/// call succeeded, none when it failed or could not be made.
pub open spec fn remote_values(reply: Option<(bool, Seq<char>)>, prefix: Seq<char>) -> Seq<
    Seq<char>,
> {
    match reply {
        Some((true, m)) => matching_values(m, prefix),
        _ => Seq::empty(),
    }
}

/// The candidates from a completer's reply; a transport failure (`None`)
/// or a failed execution yields no candidates.
pub fn remote_candidates(reply: Option<&CommandResponse>, prefix: &str) -> (r: Vec<String>)
    ensures
        texts(r@) == remote_values(
            match reply {
                Some(resp) => Some((resp.success, resp.message@)),
                None => None,
            },
            prefix@,
        ),
{
    match reply {
        Some(resp) => if resp.success {
            matching_candidates(resp.message.as_str(), prefix)
        } else {
            let r: Vec<String> = Vec::new();
            assert(texts(r@) =~= Seq::<Seq<char>>::empty());
            r
        },
        None => {
            let r: Vec<String> = Vec::new();
            assert(texts(r@) =~= Seq::<Seq<char>>::empty());
            r
        },
    }
}

} // verus!
