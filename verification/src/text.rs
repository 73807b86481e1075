//! Character-sequence utilities: string conversions, searching, and textual
//! replacement.

use vstd::prelude::*;
use vstd::std_specs::iter::IteratorSpec;

verus! {

/// Collect a string's characters, in order.
pub(crate) fn chars_of(s: &str) -> (v: Vec<char>)
    ensures
        v@ == s@,
{
    broadcast use vstd::string::axiom_spec_iter, vstd::string::next_postcondition;

    let mut it = s.chars();
    let mut v: Vec<char> = Vec::new();
    let mut done = false;
    while !done
        invariant
            it.obeys_prophetic_iter_laws(),
            it.decrease() is Some,
            v@ + it.remaining() == s@,
            done ==> it.remaining().len() == 0,
        decreases (if done { 0int } else { 1int }), it.decrease()->0,
    {
        let ghost prev = it.remaining();
        match it.next() {
            Some(c) => {
                proof {
                    assert(prev =~= seq![prev[0]] + prev.skip(1));
                    assert(v@.push(c) + it.remaining() =~= v@ + prev);
                }
                v.push(c);
            },
            None => {
                done = true;
            },
        }
    }
    proof {
        assert(v@ + it.remaining() =~= v@);
    }
    v
}

/// Relies on String's FromIterator impl: collecting characters builds the
/// string of exactly those characters.
#[verifier::external_body]
pub(crate) fn string_of(v: &[char]) -> (s: String)
    ensures
        s@ == v@,
{
    v.iter().collect()
}

/// Index of the last occurrence of `c` in `s`.
pub open spec fn spec_last_index(s: Seq<char>, c: char) -> Option<int>
    decreases s.len(),
{
    if s.len() == 0 {
        None
    } else if s.last() == c {
        Some(s.len() - 1)
    } else {
        spec_last_index(s.drop_last(), c)
    }
}

/// `spec_last_index` returns the position of the last occurrence, and `None`
/// exactly when the character does not occur.
pub proof fn lemma_last_index(s: Seq<char>, c: char)
    ensures
        match spec_last_index(s, c) {
            Some(k) => 0 <= k < s.len() && s[k] == c && (forall|j: int|
                k < j < s.len() ==> s[j] != c),
            None => forall|j: int| 0 <= j < s.len() ==> s[j] != c,
        },
    decreases s.len(),
{
    if s.len() > 0 && s.last() != c {
        lemma_last_index(s.drop_last(), c);
        assert(forall|j: int| 0 <= j < s.len() - 1 ==> s.drop_last()[j] == s[j]);
    }
}

/// Find the last occurrence of `c` in `s`.
pub fn last_index_of(s: &[char], c: char) -> (r: Option<usize>)
    ensures
        match r {
            Some(k) => spec_last_index(s@, c) == Some(k as int),
            None => spec_last_index(s@, c) is None,
        },
{
    let mut i: usize = s.len();
    proof {
        assert(s@.take(s@.len() as int) =~= s@);
    }
    while i > 0
        invariant
            0 <= i <= s@.len(),
            spec_last_index(s@, c) == spec_last_index(s@.take(i as int), c),
        decreases i,
    {
        proof {
            assert(s@.take(i as int).last() == s@[i - 1]);
            assert(s@.take(i as int).drop_last() =~= s@.take(i as int - 1));
        }
        if s[i - 1] == c {
            return Some(i - 1);
        }
        i = i - 1;
    }
    proof {
        assert(s@.take(0) =~= Seq::<char>::empty());
    }
    None
}

/// Copy of `v[from..to]`.
pub fn copy_range(v: &[char], from: usize, to: usize) -> (out: Vec<char>)
    requires
        from <= to <= v@.len(),
    ensures
        out@ == v@.subrange(from as int, to as int),
{
    let mut out: Vec<char> = Vec::new();
    let mut i: usize = from;
    proof {
        assert(Seq::<char>::empty() =~= v@.subrange(from as int, from as int));
    }
    while i < to
        invariant
            from <= i <= to <= v@.len(),
            out@ == v@.subrange(from as int, i as int),
        decreases to - i,
    {
        out.push(v[i]);
        proof {
            assert(v@.subrange(from as int, i as int + 1)
                =~= v@.subrange(from as int, i as int).push(v@[i as int]));
        }
        i = i + 1;
    }
    out
}

/// Append all of `more` onto `out`.
pub fn push_all(out: &mut Vec<char>, more: &[char])
    ensures
        final(out)@ == old(out)@ + more@,
{
    let mut j: usize = 0;
    proof {
        assert(out@ =~= out@ + more@.take(0));
    }
    while j < more.len()
        invariant
            0 <= j <= more@.len(),
            out@ == old(out)@ + more@.take(j as int),
        decreases more@.len() - j,
    {
        out.push(more[j]);
        proof {
            assert(old(out)@ + more@.take(j as int + 1)
                =~= (old(out)@ + more@.take(j as int)).push(more@[j as int]));
        }
        j = j + 1;
    }
    proof {
        assert(more@.take(more@.len() as int) =~= more@);
    }
}

/// Whether `needle` occurs in `hay` starting at position `i`.
fn matches_at(hay: &[char], i: usize, needle: &[char]) -> (b: bool)
    requires
        i + needle@.len() <= hay@.len(),
    ensures
        b <==> hay@.subrange(i as int, i as int + needle@.len() as int) == needle@,
{
    let n = needle.len();
    let hlen = hay.len();
    let mut j: usize = 0;
    while j < n
        invariant
            0 <= j <= n,
            n == needle@.len(),
            hlen == hay@.len(),
            i + n <= hlen,
            forall|t: int| 0 <= t < j ==> hay@[i + t] == needle@[t],
        decreases n - j,
    {
        proof {
            assert(hay@.subrange(i as int, i as int + n as int)[j as int] == hay@[i + j]);
        }
        if hay[i + j] != needle[j] {
            return false;
        }
        j = j + 1;
    }
    proof {
        assert(hay@.subrange(i as int, i as int + n as int) =~= needle@);
    }
    true
}

/// `hay` with every non-overlapping occurrence of `needle`, scanned left to
/// right, replaced by `repl`. The empty needle replaces nothing.
pub open spec fn spec_replace_all(hay: Seq<char>, needle: Seq<char>, repl: Seq<char>) -> Seq<char>
    decreases hay.len(),
{
    if needle.len() == 0 || hay.len() < needle.len() {
        hay
    } else if hay.take(needle.len() as int) == needle {
        repl + spec_replace_all(hay.skip(needle.len() as int), needle, repl)
    } else {
        seq![hay[0]] + spec_replace_all(hay.skip(1), needle, repl)
    }
}

/// Replace every non-overlapping occurrence of `needle` in `hay` by `repl`.
pub fn replace_all(hay: &[char], needle: &[char], repl: &[char]) -> (out: Vec<char>)
    requires
        needle@.len() > 0,
    ensures
        out@ == spec_replace_all(hay@, needle@, repl@),
{
    let mut out: Vec<char> = Vec::new();
    let mut i: usize = 0;
    proof {
        assert(hay@.skip(0) =~= hay@);
        assert(Seq::<char>::empty() + spec_replace_all(hay@, needle@, repl@)
            =~= spec_replace_all(hay@, needle@, repl@));
    }
    while i < hay.len()
        invariant
            0 <= i <= hay@.len(),
            needle@.len() > 0,
            spec_replace_all(hay@, needle@, repl@)
                == out@ + spec_replace_all(hay@.skip(i as int), needle@, repl@),
        decreases hay@.len() - i,
    {
        let n = needle.len();
        let ghost tail = hay@.skip(i as int);
        if n <= hay.len() - i && matches_at(hay, i, needle) {
            proof {
                assert(tail.take(n as int) =~= hay@.subrange(i as int, i as int + n as int));
                assert(tail.skip(n as int) =~= hay@.skip(i as int + n as int));
                assert(spec_replace_all(tail, needle@, repl@)
                    == repl@ + spec_replace_all(hay@.skip(i as int + n as int), needle@, repl@));
                assert(out@ + spec_replace_all(tail, needle@, repl@)
                    =~= (out@ + repl@) + spec_replace_all(hay@.skip(i as int + n as int), needle@, repl@));
            }
            push_all(&mut out, repl);
            i = i + n;
        } else {
            proof {
                assert(tail[0] == hay@[i as int]);
                assert(tail.skip(1) =~= hay@.skip(i as int + 1));
                if tail.len() >= n {
                    assert(tail.take(n as int) =~= hay@.subrange(i as int, i as int + n as int));
                    assert(spec_replace_all(tail, needle@, repl@)
                        == seq![tail[0]] + spec_replace_all(tail.skip(1), needle@, repl@));
                } else {
                    // The tail is shorter than the needle: nothing in it is
                    // replaced, on either side of the step.
                    assert(spec_replace_all(tail, needle@, repl@) == tail);
                    assert(spec_replace_all(tail.skip(1), needle@, repl@) == tail.skip(1));
                    assert(tail =~= seq![tail[0]] + tail.skip(1));
                }
                assert(out@ + spec_replace_all(tail, needle@, repl@)
                    =~= out@.push(hay@[i as int]) + spec_replace_all(hay@.skip(i as int + 1), needle@, repl@));
            }
            let c = hay[i];
            out.push(c);
            i = i + 1;
        }
    }
    proof {
        assert(hay@.skip(hay@.len() as int) =~= Seq::<char>::empty());
        assert(out@ + Seq::<char>::empty() =~= out@);
    }
    out
}

} // verus!
