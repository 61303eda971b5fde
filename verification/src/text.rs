//! Text primitives shared by the SQL synthesis and the type mapper.

use vstd::prelude::*;
use vstd::string::*;

verus! {

/// The character sequences of a list of strings.
pub open spec fn texts(items: Seq<String>) -> Seq<Seq<char>> {
    items.map_values(|s: String| s@)
}

/// The items of `parts` written one after another with `sep` between neighbours.
pub open spec fn joined(parts: Seq<Seq<char>>, sep: Seq<char>) -> Seq<char>
    decreases parts.len(),
{
    if parts.len() == 0 {
        Seq::empty()
    } else if parts.len() == 1 {
        parts[0]
    } else {
        joined(parts.drop_last(), sep) + sep + parts.last()
    }
}

/// Whether `pat` stands in `s` at position `at`.
pub open spec fn occurs_at(s: Seq<char>, pat: Seq<char>, at: int) -> bool {
    0 <= at && at + pat.len() <= s.len() && s.subrange(at, at + pat.len()) == pat
}

/// `str`'s `==`: two string slices are equal exactly when they hold the same
/// characters.
#[verifier::external_body]
pub(crate) fn str_eq(a: &str, b: &str) -> (r: bool)
    ensures
        r == (a@ == b@),
{
    a == b
}

/// `str::starts_with` with a string pattern: true exactly when the pattern is
/// a prefix of the slice.
#[verifier::external_body]
pub(crate) fn starts_with(s: &str, prefix: &str) -> (r: bool)
    ensures
        r == prefix@.is_prefix_of(s@),
{
    s.starts_with(prefix)
}

/// `str::ends_with` with a string pattern: true exactly when the pattern is
/// a suffix of the slice.
#[verifier::external_body]
pub(crate) fn ends_with(s: &str, suffix: &str) -> (r: bool)
    ensures
        r == suffix@.is_suffix_of(s@),
{
    s.ends_with(suffix)
}

/// `String::pop`: removes the last character and returns it, or returns
/// `None` and changes nothing when the string is empty.
#[verifier::external_body]
pub(crate) fn pop_char(s: &mut String) -> (r: Option<char>)
    ensures
        old(s)@.len() == 0 ==> r is None && final(s)@ == old(s)@,
        old(s)@.len() > 0 ==> r == Some(old(s)@.last()) && final(s)@ == old(s)@.drop_last(),
{
    s.pop()
}

/// `str::rsplit_once` with a string delimiter: splits at the last place where
/// the delimiter stands and returns what is before and after it, or `None`
/// when the delimiter stands nowhere in the slice.
#[verifier::external_body]
pub(crate) fn rsplit_once<'a>(s: &'a str, delimiter: &str) -> (r: Option<(&'a str, &'a str)>)
    ensures
        match r {
            Some((head, tail)) => {
                &&& s@ == head@ + delimiter@ + tail@
                &&& forall|at: int| head@.len() < at ==> !occurs_at(s@, delimiter@, at)
            },
            None => forall|at: int| !occurs_at(s@, delimiter@, at),
        },
{
    s.rsplit_once(delimiter)
}

/// `str::split_once` with a string delimiter: splits at the first place where
/// the delimiter stands and returns what is before and after it, or `None`
/// when the delimiter stands nowhere in the slice.
#[verifier::external_body]
pub(crate) fn split_once<'a>(s: &'a str, delimiter: &str) -> (r: Option<(&'a str, &'a str)>)
    ensures
        match r {
            Some((head, tail)) => {
                &&& s@ == head@ + delimiter@ + tail@
                &&& forall|at: int| at < head@.len() ==> !occurs_at(s@, delimiter@, at)
            },
            None => forall|at: int| !occurs_at(s@, delimiter@, at),
        },
{
    s.split_once(delimiter)
}

/// What stands in `s` before the first `c`; all of `s` where it holds none.
pub open spec fn until_first(s: Seq<char>, c: char) -> Seq<char>
    decreases s.len(),
{
    if s.len() == 0 {
        Seq::empty()
    } else if s.drop_last().contains(c) {
        until_first(s.drop_last(), c)
    } else if s.last() == c {
        s.drop_last()
    } else {
        s
    }
}

/// What stands in `s` behind the first `c`; nothing where it holds none.
pub open spec fn after_first(s: Seq<char>, c: char) -> Seq<char>
    decreases s.len(),
{
    if s.len() == 0 {
        Seq::empty()
    } else if s.drop_last().contains(c) {
        after_first(s.drop_last(), c).push(s.last())
    } else {
        Seq::empty()
    }
}

/// What stands in `s` before the last `c`; nothing where it holds none.
pub open spec fn before_last(s: Seq<char>, c: char) -> Seq<char>
    decreases s.len(),
{
    if s.len() == 0 {
        Seq::empty()
    } else if s.last() == c {
        s.drop_last()
    } else {
        before_last(s.drop_last(), c)
    }
}

/// What stands in `s` behind the last `c`; all of `s` where it holds none.
pub open spec fn after_last(s: Seq<char>, c: char) -> Seq<char>
    decreases s.len(),
{
    if s.len() == 0 || s.last() == c {
        Seq::empty()
    } else {
        after_last(s.drop_last(), c).push(s.last())
    }
}

/// A text without `c` is all behind the last `c` and all before the first.
pub proof fn lemma_without(s: Seq<char>, c: char)
    requires
        !s.contains(c),
    ensures
        after_last(s, c) == s,
        until_first(s, c) == s,
        after_first(s, c) == Seq::<char>::empty(),
    decreases s.len(),
{
    if s.len() > 0 {
        assert(s.last() == s[s.len() - 1]);
        assert forall|k: int| 0 <= k < s.drop_last().len() implies s.drop_last()[k] != c by {
            assert(s.drop_last()[k] == s[k]);
        }
        lemma_without(s.drop_last(), c);
        assert(after_last(s, c) =~= s);
    } else {
        assert(after_last(s, c) =~= s);
    }
}

/// Of `head`, `c` and a `tail` without `c`, the last `c` is the one in the
/// middle.
pub proof fn lemma_split_at_last(head: Seq<char>, c: char, tail: Seq<char>)
    requires
        !tail.contains(c),
    ensures
        before_last(head + seq![c] + tail, c) == head,
        after_last(head + seq![c] + tail, c) == tail,
    decreases tail.len(),
{
    let s = head + seq![c] + tail;
    if tail.len() == 0 {
        assert(s.drop_last() =~= head);
        assert(after_last(s, c) =~= tail);
    } else {
        assert(tail.last() == tail[tail.len() - 1]);
        assert forall|k: int| 0 <= k < tail.drop_last().len() implies tail.drop_last()[k]
            != c by {
            assert(tail.drop_last()[k] == tail[k]);
        }
        assert(s.drop_last() =~= head + seq![c] + tail.drop_last());
        lemma_split_at_last(head, c, tail.drop_last());
        assert(after_last(s, c) =~= tail);
    }
}

/// Of a `head` without `c`, `c` and `tail`, the first `c` is the one in the
/// middle.
pub proof fn lemma_split_at_first(head: Seq<char>, c: char, tail: Seq<char>)
    requires
        !head.contains(c),
    ensures
        until_first(head + seq![c] + tail, c) == head,
        after_first(head + seq![c] + tail, c) == tail,
    decreases tail.len(),
{
    let s = head + seq![c] + tail;
    if tail.len() == 0 {
        assert(s.drop_last() =~= head);
        lemma_without(head, c);
        assert(after_first(s, c) =~= tail);
        assert(until_first(s, c) =~= head);
    } else {
        let rest = head + seq![c] + tail.drop_last();
        assert(s.drop_last() =~= rest);
        assert(rest[head.len() as int] == c);
        assert(rest.contains(c));
        lemma_split_at_first(head, c, tail.drop_last());
        assert(after_first(s, c) =~= tail);
    }
}

/// Splits `s` at the last `c`, which `delimiter` holds and nothing else.
pub(crate) fn split_at_last<'a>(s: &'a str, delimiter: &str, Ghost(c): Ghost<char>) -> (r: Option<
    (&'a str, &'a str),
>)
    requires
        delimiter@ == seq![c],
    ensures
        match r {
            Some((head, tail)) => s@.contains(c) && head@ == before_last(s@, c) && tail@
                == after_last(s@, c),
            None => !s@.contains(c),
        },
{
    let r = rsplit_once(s, delimiter);
    proof {
        match r {
            Some((head, tail)) => {
                assert(s@[head@.len() as int] == c);
                assert forall|k: int| 0 <= k < tail@.len() implies tail@[k] != c by {
                    let at = head@.len() + 1 + k;
                    if tail@[k] == c {
                        assert(s@.subrange(at, at + 1) =~= delimiter@);
                        assert(occurs_at(s@, delimiter@, at));
                    }
                }
                assert(s@ =~= head@ + seq![c] + tail@);
                lemma_split_at_last(head@, c, tail@);
            },
            None => {
                assert forall|k: int| 0 <= k < s@.len() implies s@[k] != c by {
                    if s@[k] == c {
                        assert(s@.subrange(k, k + 1) =~= delimiter@);
                        assert(occurs_at(s@, delimiter@, k));
                    }
                }
            },
        }
    }
    r
}

/// Splits `s` at the first `c`, which `delimiter` holds and nothing else.
pub(crate) fn split_at_first<'a>(s: &'a str, delimiter: &str, Ghost(c): Ghost<char>) -> (r: Option<
    (&'a str, &'a str),
>)
    requires
        delimiter@ == seq![c],
    ensures
        match r {
            Some((head, tail)) => s@.contains(c) && head@ == until_first(s@, c) && tail@
                == after_first(s@, c),
            None => !s@.contains(c),
        },
{
    let r = split_once(s, delimiter);
    proof {
        match r {
            Some((head, tail)) => {
                assert(s@[head@.len() as int] == c);
                assert forall|k: int| 0 <= k < head@.len() implies head@[k] != c by {
                    if head@[k] == c {
                        assert(s@.subrange(k, k + 1) =~= delimiter@);
                        assert(occurs_at(s@, delimiter@, k));
                    }
                }
                assert(s@ =~= head@ + seq![c] + tail@);
                lemma_split_at_first(head@, c, tail@);
            },
            None => {
                assert forall|k: int| 0 <= k < s@.len() implies s@[k] != c by {
                    if s@[k] == c {
                        assert(s@.subrange(k, k + 1) =~= delimiter@);
                        assert(occurs_at(s@, delimiter@, k));
                    }
                }
            },
        }
    }
    r
}

/// Joins the strings of `parts` with `sep` between neighbours.
pub fn join(parts: &Vec<String>, sep: &str) -> (r: String)
    ensures
        r@ == joined(texts(parts@), sep@),
{
    let mut out = String::new();
    let mut i: usize = 0;
    while i < parts.len()
        invariant
            i <= parts.len(),
            out@ == joined(texts(parts@).take(i as int), sep@),
        decreases parts.len() - i,
    {
        if i > 0 {
            out.append(sep);
        }
        out.append(parts[i].as_str());
        proof {
            let t = texts(parts@);
            assert(t.take(i + 1).drop_last() =~= t.take(i as int));
            assert(t.take(i + 1).last() == parts@[i as int]@);
            assert(out@ =~= joined(t.take(i + 1), sep@));
        }
        i += 1;
    }
    proof {
        assert(texts(parts@).take(parts.len() as int) =~= texts(parts@));
    }
    out
}

} // verus!
