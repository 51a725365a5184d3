//! Character-sequence utilities shared by the rebrander and the dispatcher:
//! conversion between `str` and `Vec<char>`, prefix tests, substring search
//! and occurrence replacement, each specified over `Seq<char>`.

use vstd::prelude::*;

verus! {

/// Index of the first occurrence of `c` in `s`, if any.
pub open spec fn find_char(s: Seq<char>, c: char) -> Option<int>
    decreases s.len(),
{
    if s.len() == 0 {
        None
    } else if s[0] == c {
        Some(0)
    } else {
        match find_char(s.skip(1), c) {
            Some(i) => Some(i + 1),
            None => None,
        }
    }
}

/// `find_char` returns the index of the first occurrence, or `None` when
/// there is none.
pub proof fn lemma_find_char(s: Seq<char>, c: char)
    ensures
        match find_char(s, c) {
            Some(i) => 0 <= i < s.len() && s[i] == c && (forall|k: int| 0 <= k < i ==> s[k] != c),
            None => forall|k: int| 0 <= k < s.len() ==> s[k] != c,
        },
    decreases s.len(),
{
    if s.len() == 0 {
    } else if s[0] == c {
    } else {
        lemma_find_char(s.skip(1), c);
        assert forall|k: int| 1 <= k < s.len() implies s[k] == s.skip(1)[k - 1] by {}
    }
}

/// Converse direction: an occurrence with nothing equal before it is the
/// result of `find_char`.
pub proof fn lemma_find_char_at(s: Seq<char>, c: char, m: int)
    requires
        0 <= m < s.len(),
        s[m] == c,
        forall|k: int| 0 <= k < m ==> s[k] != c,
    ensures
        find_char(s, c) == Some(m),
{
    lemma_find_char(s, c);
    match find_char(s, c) {
        Some(i) => {
            if i < m {
                assert(s[i] == c);
            } else if i > m {
                assert(s[m] != c);
            }
        },
        None => {
            assert(s[m] != c);
        },
    }
}

/// No position of `s` holds the character `c`.
pub open spec fn no_char(s: Seq<char>, c: char) -> bool {
    forall|k: int| 0 <= k < s.len() ==> s[k] != c
}

/// `p` is a prefix of `s`.
pub open spec fn has_prefix(s: Seq<char>, p: Seq<char>) -> bool {
    p.len() <= s.len() && s.subrange(0, p.len() as int) == p
}

/// The characters of `s`, as a vector.
pub fn chars_of(s: &str) -> (r: Vec<char>)
    ensures
        r@ == s@,
{
    let n = s.unicode_len();
    let mut r: Vec<char> = Vec::new();
    let mut i: usize = 0;
    while i < n
        invariant
            n == s@.len(),
            i <= n,
            r@ == s@.subrange(0, i as int),
        decreases n - i,
    {
        r.push(s.get_char(i));
        i = i + 1;
        proof {
            assert(r@ =~= s@.subrange(0, i as int));
        }
    }
    proof {
        assert(r@ =~= s@);
    }
    r
}

/// Builds a `String` from a vector of characters.
/// Relies on String::push: appends exactly the given character.
#[verifier::external_body]
fn push_char(s: &mut String, c: char)
    ensures
        final(s)@ == old(s)@.push(c),
{
    s.push(c);
}

/// The `String` holding exactly the characters of `cs`.
pub fn string_from_chars(cs: &Vec<char>) -> (r: String)
    ensures
        r@ == cs@,
{
    let mut r = String::new();
    let mut i: usize = 0;
    while i < cs.len()
        invariant
            i <= cs@.len(),
            r@ == cs@.subrange(0, i as int),
        decreases cs@.len() - i,
    {
        push_char(&mut r, cs[i]);
        i = i + 1;
        proof {
            assert(r@ =~= cs@.subrange(0, i as int));
        }
    }
    proof {
        assert(r@ =~= cs@);
    }
    r
}

/// Whether `p` is a prefix of `s`, starting at `from`.
pub fn matches_at(s: &Vec<char>, from: usize, p: &Vec<char>) -> (r: bool)
    requires
        from <= s@.len(),
    ensures
        r == has_prefix(s@.skip(from as int), p@),
{
    let n = s.len();
    if n - from < p.len() {
        proof {
            assert(s@.skip(from as int).len() < p@.len());
        }
        return false;
    }
    let mut i: usize = 0;
    while i < p.len()
        invariant
            n == s@.len(),
            from <= n,
            p@.len() <= n - from,
            i <= p@.len(),
            forall|k: int| 0 <= k < i ==> s@[from + k] == p@[k],
        decreases p@.len() - i,
    {
        if s[from + i] != p[i] {
            proof {
                assert(s@.skip(from as int)[i as int] != p@[i as int]);
                assert(!has_prefix(s@.skip(from as int), p@)) by {
                    if s@.skip(from as int).subrange(0, p@.len() as int) == p@ {
                        assert(s@.skip(from as int).subrange(0, p@.len() as int)[i as int]
                            == p@[i as int]);
                    }
                }
            }
            return false;
        }
        i = i + 1;
    }
    proof {
        assert(s@.skip(from as int).subrange(0, p@.len() as int) =~= p@);
    }
    true
}

/// Whether `p` is a prefix of `s`.
pub fn starts_with_chars(s: &Vec<char>, p: &Vec<char>) -> (r: bool)
    ensures
        r == has_prefix(s@, p@),
{
    let r = matches_at(s, 0, p);
    proof {
        assert(s@.skip(0) =~= s@);
    }
    r
}

/// `s` with every occurrence of `from` replaced by `to`, scanning left to
/// right without overlap.
pub open spec fn replace_all(s: Seq<char>, from: Seq<char>, to: Seq<char>) -> Seq<char>
    decreases s.len(),
    when from.len() > 0
{
    if s.len() == 0 {
        Seq::empty()
    } else if has_prefix(s, from) {
        to + replace_all(s.skip(from.len() as int), from, to)
    } else {
        seq![s[0]] + replace_all(s.skip(1), from, to)
    }
}

/// Replacement introduces no character that neither `s` nor `to` holds.
pub proof fn lemma_replace_all_no_char(s: Seq<char>, from: Seq<char>, to: Seq<char>, c: char)
    requires
        from.len() > 0,
        no_char(s, c),
        no_char(to, c),
    ensures
        no_char(replace_all(s, from, to), c),
    decreases s.len(),
{
    if s.len() == 0 {
    } else if has_prefix(s, from) {
        let rest = s.skip(from.len() as int);
        assert(no_char(rest, c)) by {
            assert(forall|k: int| 0 <= k < rest.len() ==> rest[k] == s[k + from.len()]);
        }
        lemma_replace_all_no_char(rest, from, to, c);
        let r = replace_all(s, from, to);
        assert forall|k: int| 0 <= k < r.len() implies r[k] != c by {
            if k < to.len() {
                assert(r[k] == to[k]);
            } else {
                assert(r[k] == replace_all(rest, from, to)[k - to.len()]);
            }
        }
    } else {
        let rest = s.skip(1);
        assert(no_char(rest, c)) by {
            assert(forall|k: int| 0 <= k < rest.len() ==> rest[k] == s[k + 1]);
        }
        lemma_replace_all_no_char(rest, from, to, c);
        let r = replace_all(s, from, to);
        assert forall|k: int| 0 <= k < r.len() implies r[k] != c by {
            if k == 0 {
                assert(r[0] == s[0]);
            } else {
                assert(r[k] == replace_all(rest, from, to)[k - 1]);
            }
        }
    }
}

/// Replacing inside a non-empty text by a non-empty replacement leaves the
/// text non-empty.
pub proof fn lemma_replace_all_nonempty(s: Seq<char>, from: Seq<char>, to: Seq<char>)
    requires
        from.len() > 0,
        to.len() > 0,
        s.len() > 0,
    ensures
        replace_all(s, from, to).len() > 0,
{
}

/// `s` with every occurrence of `from` replaced by `to`.
pub fn replace_all_chars(s: &Vec<char>, from: &Vec<char>, to: &Vec<char>) -> (r: Vec<char>)
    requires
        from@.len() > 0,
    ensures
        r@ == replace_all(s@, from@, to@),
{
    let mut r: Vec<char> = Vec::new();
    proof {
        assert(s@.skip(0) =~= s@);
        assert(r@ + replace_all(s@.skip(0), from@, to@) =~= replace_all(s@, from@, to@));
    }
    let mut i: usize = 0;
    while i < s.len()
        invariant
            from@.len() > 0,
            i <= s@.len(),
            replace_all(s@, from@, to@) == r@ + replace_all(s@.skip(i as int), from@, to@),
        decreases s@.len() - i,
    {
        let ghost pre = r@;
        let ghost rest = s@.skip(i as int);
        if matches_at(s, i, from) {
            let mut j: usize = 0;
            while j < to.len()
                invariant
                    j <= to@.len(),
                    r@ == pre + to@.subrange(0, j as int),
                decreases to@.len() - j,
            {
                r.push(to[j]);
                j = j + 1;
                proof {
                    assert(r@ =~= pre + to@.subrange(0, j as int));
                }
            }
            proof {
                assert(pre + to@.subrange(0, to@.len() as int) =~= pre + to@);
            }
            i = i + from.len();
            proof {
                assert(rest.skip(from@.len() as int) =~= s@.skip(i as int));
                assert(replace_all(rest, from@, to@)
                    == to@ + replace_all(s@.skip(i as int), from@, to@));
                assert(pre + (to@ + replace_all(s@.skip(i as int), from@, to@))
                    =~= (pre + to@) + replace_all(s@.skip(i as int), from@, to@));
            }
        } else {
            r.push(s[i]);
            i = i + 1;
            proof {
                assert(rest[0] == s@[i - 1]);
                assert(rest.skip(1) =~= s@.skip(i as int));
                assert(replace_all(rest, from@, to@)
                    == seq![rest[0]] + replace_all(s@.skip(i as int), from@, to@));
                assert(pre + (seq![rest[0]] + replace_all(s@.skip(i as int), from@, to@))
                    =~= r@ + replace_all(s@.skip(i as int), from@, to@));
            }
        }
    }
    proof {
        assert(s@.skip(i as int) =~= Seq::<char>::empty());
        assert(r@ + Seq::<char>::empty() =~= r@);
    }
    r
}

/// The characters of `v` between positions `a` (inclusive) and `b`
/// (exclusive).
pub fn subvec(v: &Vec<char>, a: usize, b: usize) -> (r: Vec<char>)
    requires
        a <= b <= v@.len(),
    ensures
        r@ == v@.subrange(a as int, b as int),
{
    let mut r: Vec<char> = Vec::new();
    let mut i: usize = a;
    while i < b
        invariant
            a <= i <= b <= v@.len(),
            r@ == v@.subrange(a as int, i as int),
        decreases b - i,
    {
        r.push(v[i]);
        i = i + 1;
        proof {
            assert(r@ =~= v@.subrange(a as int, i as int));
        }
    }
    r
}

/// Equality of two string slices, by their characters.
pub fn str_eq(a: &str, b: &str) -> (r: bool)
    ensures
        r == (a@ == b@),
{
    let ca = chars_of(a);
    let cb = chars_of(b);
    if ca.len() != cb.len() {
        return false;
    }
    let mut i: usize = 0;
    while i < ca.len()
        invariant
            ca@.len() == cb@.len(),
            i <= ca@.len(),
            ca@ == a@,
            cb@ == b@,
            forall|k: int| 0 <= k < i ==> ca@[k] == cb@[k],
        decreases ca@.len() - i,
    {
        if ca[i] != cb[i] {
            proof {
                assert(a@[i as int] != b@[i as int]);
            }
            return false;
        }
        i = i + 1;
    }
    proof {
        assert(a@ =~= b@);
    }
    true
}

} // verus!
