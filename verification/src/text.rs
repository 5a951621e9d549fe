//! Character-level text utilities: trimming, splitting on spaces, joining
//! fragments, and comparisons. Every function is specified against a spec
//! function over the string's view (a sequence of characters).

use vstd::prelude::*;

verus! {

/// Whitespace recognized when trimming text fragments.
pub open spec fn is_space_char(c: char) -> bool {
    c == ' ' || c == '\t' || c == '\n' || c == '\r' || c == '\u{000B}' || c == '\u{000C}'
}

pub fn is_space(c: char) -> (r: bool)
    ensures
        r == is_space_char(c),
{
    c == ' ' || c == '\t' || c == '\n' || c == '\r' || c == '\u{000B}' || c == '\u{000C}'
}

/// A character occurs somewhere in the sequence.
pub open spec fn contains_char(s: Seq<char>, c: char) -> bool {
    exists|i: int| 0 <= i < s.len() && s[i] == c
}

pub fn has_char(s: &str, c: char) -> (r: bool)
    ensures
        r == contains_char(s@, c),
{
    let n = s.unicode_len();
    let mut i: usize = 0;
    while i < n
        invariant
            0 <= i <= n,
            n == s@.len(),
            forall|j: int| 0 <= j < i ==> s@[j] != c,
        decreases n - i,
    {
        if s.get_char(i) == c {
            assert(contains_char(s@, c));
            return true;
        }
        i += 1;
    }
    false
}

pub fn str_eq(a: &str, b: &str) -> (r: bool)
    ensures
        r == (a@ == b@),
{
    let na = a.unicode_len();
    let nb = b.unicode_len();
    if na != nb {
        return false;
    }
    let mut i: usize = 0;
    while i < na
        invariant
            0 <= i <= na,
            na == a@.len(),
            nb == b@.len(),
            na == nb,
            forall|j: int| 0 <= j < i ==> a@[j] == b@[j],
        decreases na - i,
    {
        if a.get_char(i) != b.get_char(i) {
            return false;
        }
        i += 1;
    }
    assert(a@ =~= b@);
    true
}

/// The prefix relation on character sequences.
pub open spec fn starts_with(s: Seq<char>, p: Seq<char>) -> bool {
    p.len() <= s.len() && s.subrange(0, p.len() as int) == p
}

pub fn str_starts_with(s: &str, p: &str) -> (r: bool)
    ensures
        r == starts_with(s@, p@),
{
    let n = s.unicode_len();
    let np = p.unicode_len();
    if np > n {
        return false;
    }
    let mut i: usize = 0;
    while i < np
        invariant
            0 <= i <= np,
            n == s@.len(),
            np == p@.len(),
            np <= n,
            forall|j: int| 0 <= j < i ==> s@[j] == p@[j],
        decreases np - i,
    {
        if s.get_char(i) != p.get_char(i) {
            assert(s@.subrange(0, p@.len() as int)[i as int] != p@[i as int]);
            return false;
        }
        i += 1;
    }
    assert(s@.subrange(0, p@.len() as int) =~= p@);
    true
}

/// What is left after dropping leading whitespace.
pub open spec fn trim_start_rec(s: Seq<char>) -> Seq<char>
    decreases s.len(),
{
    if s.len() == 0 {
        s
    } else if is_space_char(s[0]) {
        trim_start_rec(s.drop_first())
    } else {
        s
    }
}

/// What is left after dropping trailing whitespace.
pub open spec fn trim_end_rec(s: Seq<char>) -> Seq<char>
    decreases s.len(),
{
    if s.len() == 0 {
        s
    } else if is_space_char(s[s.len() - 1]) {
        trim_end_rec(s.drop_last())
    } else {
        s
    }
}

/// The sequence with leading and trailing whitespace removed.
pub open spec fn trim_spec(s: Seq<char>) -> Seq<char> {
    trim_end_rec(trim_start_rec(s))
}

proof fn lemma_trim_start_at(s: Seq<char>, k: int)
    requires
        0 <= k <= s.len(),
        forall|i: int| 0 <= i < k ==> is_space_char(s[i]),
        k < s.len() ==> !is_space_char(s[k]),
    ensures
        trim_start_rec(s) == s.subrange(k, s.len() as int),
    decreases k,
{
    if k == 0 {
        assert(s.subrange(0, s.len() as int) =~= s);
    } else {
        lemma_trim_start_at(s.drop_first(), k - 1);
        assert(s.drop_first().subrange(k - 1, s.drop_first().len() as int) =~= s.subrange(
            k,
            s.len() as int,
        ));
    }
}

proof fn lemma_trim_end_at(s: Seq<char>, k: int)
    requires
        0 <= k <= s.len(),
        forall|i: int| k <= i < s.len() ==> is_space_char(s[i]),
        k > 0 ==> !is_space_char(s[k - 1]),
    ensures
        trim_end_rec(s) == s.subrange(0, k),
    decreases s.len() - k,
{
    if k == s.len() {
        if s.len() == 0 {
            assert(s.subrange(0, 0) =~= s);
        } else if is_space_char(s[s.len() - 1]) {
        } else {
            assert(s.subrange(0, s.len() as int) =~= s);
        }
    } else {
        assert(is_space_char(s[s.len() - 1]));
        lemma_trim_end_at(s.drop_last(), k);
        assert(s.drop_last().subrange(0, k) =~= s.subrange(0, k));
    }
}

pub fn trim_str(s: &str) -> (r: String)
    ensures
        r@ == trim_spec(s@),
{
    let n = s.unicode_len();
    let mut a: usize = 0;
    while a < n && is_space(s.get_char(a))
        invariant
            0 <= a <= n,
            n == s@.len(),
            forall|i: int| 0 <= i < a ==> is_space_char(s@[i]),
        decreases n - a,
    {
        a += 1;
    }
    let mut b: usize = n;
    while b > a && is_space(s.get_char(b - 1))
        invariant
            a <= b <= n,
            n == s@.len(),
            forall|i: int| b <= i < n ==> is_space_char(s@[i]),
        decreases b,
    {
        b -= 1;
    }
    proof {
        lemma_trim_start_at(s@, a as int);
        let mid = s@.subrange(a as int, n as int);
        lemma_trim_end_at(mid, b - a);
        assert(mid.subrange(0, b - a) =~= s@.subrange(a as int, b as int));
    }
    let sub = s.substring_char(a, b);
    sub.to_owned()
}

/// Fragments joined with a single space between consecutive fragments.
pub open spec fn join_spaced(fs: Seq<Seq<char>>) -> Seq<char>
    decreases fs.len(),
{
    if fs.len() == 0 {
        Seq::empty()
    } else if fs.len() == 1 {
        fs[0]
    } else {
        join_spaced(fs.drop_last()) + seq![' '] + fs.last()
    }
}

pub fn join_with_spaces(fs: &Vec<String>) -> (r: String)
    ensures
        r@ == join_spaced(fs.deep_view()),
{
    let mut r = String::new();
    let mut i: usize = 0;
    while i < fs.len()
        invariant
            0 <= i <= fs.len(),
            fs.deep_view().len() == fs@.len(),
            r@ == join_spaced(fs.deep_view().subrange(0, i as int)),
        decreases fs.len() - i,
    {
        if i > 0 {
            r.append(" ");
        }
        r.append(fs[i].as_str());
        proof {
            reveal_strlit(" ");
            let dv = fs.deep_view();
            assert(" "@ =~= seq![' ']);
            assert(dv[i as int] == fs@[i as int]@);
            if i == 0 {
                assert(dv.subrange(0, 1)[0] == dv[0]);
                assert(r@ =~= dv[0]);
            } else {
                assert(dv.subrange(0, i + 1).drop_last() =~= dv.subrange(0, i as int));
                assert(dv.subrange(0, i + 1).last() == dv[i as int]);
                assert(r@ =~= join_spaced(dv.subrange(0, i as int)) + seq![' '] + dv[i as int]);
            }
        }
        i += 1;
    }
    proof {
        assert(fs.deep_view().subrange(0, fs.deep_view().len() as int) =~= fs.deep_view());
    }
    r
}

/// Splitting on single space characters, keeping empty pieces, with `cur`
/// the piece accumulated so far.
pub open spec fn split_sp_acc(s: Seq<char>, cur: Seq<char>) -> Seq<Seq<char>>
    decreases s.len(),
{
    if s.len() <= 0 {
        seq![cur]
    } else if s[0] == ' ' {
        seq![cur] + split_sp_acc(s.drop_first(), Seq::empty())
    } else {
        split_sp_acc(s.drop_first(), cur.push(s[0]))
    }
}

/// The pieces of `s` between space characters, in order; empty pieces kept.
pub open spec fn split_spaces(s: Seq<char>) -> Seq<Seq<char>> {
    split_sp_acc(s, Seq::empty())
}

/// Splitting always yields at least one piece.
pub proof fn lemma_split_nonempty(s: Seq<char>, cur: Seq<char>)
    ensures
        split_sp_acc(s, cur).len() >= 1,
    decreases s.len(),
{
    if s.len() > 0 && s[0] != ' ' {
        lemma_split_nonempty(s.drop_first(), cur.push(s[0]));
    }
}

/// Splitting a space-free remainder only extends the current piece.
pub proof fn lemma_split_no_space(s: Seq<char>, cur: Seq<char>)
    requires
        !contains_char(s, ' '),
    ensures
        split_sp_acc(s, cur) == seq![cur + s],
    decreases s.len(),
{
    if s.len() == 0 {
        assert(cur + s =~= cur);
    } else {
        assert(s[0] != ' ');
        assert forall|i: int| 0 <= i < s.drop_first().len() implies s.drop_first()[i] != ' ' by {
            assert(s.drop_first()[i] == s[i + 1]);
        }
        lemma_split_no_space(s.drop_first(), cur.push(s[0]));
        assert(cur.push(s[0]) + s.drop_first() =~= cur + s);
    }
}

/// Splitting cuts a piece at the first space.
pub proof fn lemma_split_at_space(s1: Seq<char>, s2: Seq<char>, cur: Seq<char>)
    requires
        !contains_char(s1, ' '),
    ensures
        split_sp_acc(s1 + seq![' '] + s2, cur) == seq![cur + s1] + split_sp_acc(
            s2,
            Seq::empty(),
        ),
    decreases s1.len(),
{
    let w = s1 + seq![' '] + s2;
    if s1.len() == 0 {
        assert(w[0] == ' ');
        assert(w.drop_first() =~= s2);
        assert(cur + s1 =~= cur);
        assert(seq![cur] + split_sp_acc(s2, Seq::empty()) =~= seq![cur + s1] + split_sp_acc(
            s2,
            Seq::empty(),
        ));
    } else {
        assert(w[0] == s1[0]);
        assert(s1[0] != ' ');
        assert forall|i: int| 0 <= i < s1.drop_first().len() implies s1.drop_first()[i] != ' ' by {
            assert(s1.drop_first()[i] == s1[i + 1]);
        }
        lemma_split_at_space(s1.drop_first(), s2, cur.push(s1[0]));
        assert(w.drop_first() =~= s1.drop_first() + seq![' '] + s2);
        assert(cur.push(s1[0]) + s1.drop_first() =~= cur + s1);
    }
}

pub fn split_on_space(s: &str) -> (r: Vec<String>)
    ensures
        r.deep_view() == split_spaces(s@),
{
    let n = s.unicode_len();
    let mut parts: Vec<String> = Vec::new();
    proof {
        assert(s@.subrange(0, n as int) =~= s@);
        assert(s@.subrange(0, 0) =~= Seq::<char>::empty());
        assert(parts.deep_view() =~= Seq::<Seq<char>>::empty());
        assert(parts.deep_view() + split_sp_acc(s@, Seq::empty()) =~= split_sp_acc(
            s@,
            Seq::empty(),
        ));
    }
    let mut start: usize = 0;
    let mut i: usize = 0;
    while i < n
        invariant
            0 <= start <= i <= n,
            n == s@.len(),
            split_spaces(s@) == parts.deep_view() + split_sp_acc(
                s@.subrange(i as int, n as int),
                s@.subrange(start as int, i as int),
            ),
        decreases n - i,
    {
        let ghost pdv = parts.deep_view();
        let ghost rest = s@.subrange(i as int, n as int);
        let ghost cur = s@.subrange(start as int, i as int);
        proof {
            assert(rest[0] == s@[i as int]);
            assert(rest.drop_first() =~= s@.subrange(i + 1, n as int));
        }
        if s.get_char(i) == ' ' {
            let piece = s.substring_char(start, i);
            parts.push(piece.to_owned());
            proof {
                assert(split_sp_acc(rest, cur) == seq![cur] + split_sp_acc(
                    s@.subrange(i + 1, n as int),
                    Seq::empty(),
                ));
                assert(parts.deep_view() =~= pdv.push(cur));
                assert(pdv + (seq![cur] + split_sp_acc(s@.subrange(i + 1, n as int), Seq::empty()))
                    =~= pdv.push(cur) + split_sp_acc(s@.subrange(i + 1, n as int), Seq::empty()));
                assert(s@.subrange(i + 1, i + 1) =~= Seq::<char>::empty());
            }
            start = i + 1;
        } else {
            proof {
                assert(cur.push(s@[i as int]) =~= s@.subrange(start as int, i + 1));
                assert(split_sp_acc(rest, cur) == split_sp_acc(
                    s@.subrange(i + 1, n as int),
                    s@.subrange(start as int, i + 1),
                ));
            }
        }
        i += 1;
    }
    let ghost pdv = parts.deep_view();
    let ghost cur = s@.subrange(start as int, n as int);
    let piece = s.substring_char(start, n);
    parts.push(piece.to_owned());
    proof {
        assert(s@.subrange(n as int, n as int).len() == 0);
        assert(split_sp_acc(s@.subrange(n as int, n as int), cur) == seq![cur]);
        assert(parts.deep_view() =~= pdv.push(cur));
        assert(pdv + seq![cur] =~= pdv.push(cur));
    }
    parts
}

/// The prefix of `s` before the first occurrence of `c`; all of `s` when `c`
/// does not occur.
pub open spec fn prefix_before(s: Seq<char>, c: char) -> Seq<char>
    decreases s.len(),
{
    if s.len() == 0 {
        s
    } else if s[0] == c {
        Seq::empty()
    } else {
        seq![s[0]] + prefix_before(s.drop_first(), c)
    }
}

proof fn lemma_prefix_before_at(s: Seq<char>, c: char, k: int)
    requires
        0 <= k <= s.len(),
        forall|i: int| 0 <= i < k ==> s[i] != c,
        k < s.len() ==> s[k] == c,
    ensures
        prefix_before(s, c) == s.subrange(0, k),
    decreases k,
{
    if s.len() == 0 {
        assert(s.subrange(0, 0) =~= s);
    } else if k == 0 {
        if s[0] == c {
            assert(s.subrange(0, 0) =~= Seq::<char>::empty());
        } else {
            assert(s.subrange(0, 0) =~= Seq::<char>::empty());
        }
    } else {
        lemma_prefix_before_at(s.drop_first(), c, k - 1);
        assert(s.drop_first().subrange(0, k - 1) =~= s.subrange(1, k));
        assert(seq![s[0]] + s.subrange(1, k) =~= s.subrange(0, k));
    }
}

pub fn take_before(s: &str, c: char) -> (r: String)
    ensures
        r@ == prefix_before(s@, c),
{
    let n = s.unicode_len();
    let mut i: usize = 0;
    while i < n && s.get_char(i) != c
        invariant
            0 <= i <= n,
            n == s@.len(),
            forall|j: int| 0 <= j < i ==> s@[j] != c,
        decreases n - i,
    {
        i += 1;
    }
    proof {
        lemma_prefix_before_at(s@, c, i as int);
    }
    let sub = s.substring_char(0, i);
    sub.to_owned()
}

} // verus!
