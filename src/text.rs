//! Splitting text at the first occurrence of a character.

use vstd::prelude::*;

verus! {

/// `s` holds no occurrence of `c`.
pub open spec fn lacks(s: Seq<char>, c: char) -> bool {
    forall|k: int| 0 <= k < s.len() ==> s[k] != c
}

/// `k` is the position of the first `c` in `s`.
pub open spec fn first_at(s: Seq<char>, c: char, k: int) -> bool {
    0 <= k < s.len() && s[k] == c && lacks(s.take(k), c)
}

/// `s` split at its first `c`: the text before it and the text after it.
/// Where `c` does not occur, the whole of `s` and the empty text.
pub open spec fn split_first(s: Seq<char>, c: char) -> (Seq<char>, Seq<char>) {
    if lacks(s, c) {
        (s, Seq::empty())
    } else {
        let k = choose|k: int| first_at(s, c, k);
        (s.take(k), s.skip(k + 1))
    }
}

/// Where `s` holds a `c`, it has a first one.
pub proof fn lemma_first_exists(s: Seq<char>, c: char)
    requires
        !lacks(s, c),
    ensures
        exists|k: int| first_at(s, c, k),
    decreases s.len(),
{
    if s[0] == c {
        assert(s.take(0) =~= Seq::<char>::empty());
        assert(first_at(s, c, 0));
    } else {
        let t = s.drop_first();
        let i = choose|i: int| 0 <= i < s.len() && s[i] == c;
        assert(t[i - 1] == c);
        lemma_first_exists(t, c);
        let k = choose|k: int| first_at(t, c, k);
        assert forall|j: int| 0 <= j < k + 1 implies #[trigger] s.take(k + 1)[j] != c by {
            if j > 0 {
                assert(s.take(k + 1)[j] == t.take(k)[j - 1]);
            }
        }
        assert(first_at(s, c, k + 1));
    }
}

/// The pieces of `s` between the occurrences of `c`, in order, as
/// `str::split` yields them.
pub open spec fn pieces(s: Seq<char>, c: char) -> Seq<Seq<char>>
    decreases s.len(),
    via pieces_decreases
{
    if lacks(s, c) {
        seq![s]
    } else {
        seq![split_first(s, c).0] + pieces(split_first(s, c).1, c)
    }
}

#[via_fn]
proof fn pieces_decreases(s: Seq<char>, c: char) {
    if !lacks(s, c) {
        lemma_first_exists(s, c);
    }
}

/// The split that `str::split_once` reports is the one that `split_first` describes.
pub proof fn lemma_split_first(s: Seq<char>, c: char, a: Seq<char>, b: Seq<char>)
    requires
        s == a + seq![c] + b,
        lacks(a, c),
    ensures
        split_first(s, c) == (a, b),
{
    let n = a.len() as int;
    assert(s[n] == c);
    assert(s.take(n) =~= a);
    assert(first_at(s, c, n));
    assert(!lacks(s, c));
    let k = choose|k: int| first_at(s, c, k);
    if k < n {
        assert(a[k] == c);
    } else if k > n {
        assert(s.take(k)[n] == c);
    }
    assert(k == n);
    assert(s.skip(n + 1) =~= b);
}

/// Relies on `str::split_once` with a `char` pattern: `None` where `c` does not
/// occur in `s`, else the text before the first `c` and the text after it.
#[verifier::external_body]
pub(crate) fn split_once_char<'a>(s: &'a str, c: char) -> (r: Option<(&'a str, &'a str)>)
    ensures
        match r {
            None => lacks(s@, c),
            Some(parts) => s@ == parts.0@ + seq![c] + parts.1@ && lacks(parts.0@, c),
        },
{
    s.split_once(c)
}

/// Splits `s` at its first `c`; `None` where `c` does not occur.
pub fn split_once_at<'a>(s: &'a str, c: char) -> (r: Option<(&'a str, &'a str)>)
    ensures
        r is None <==> lacks(s@, c),
        r matches Some(parts) ==> (parts.0@, parts.1@) == split_first(s@, c) && s@ == parts.0@
            + seq![c] + parts.1@,
{
    let r = split_once_char(s, c);
    if let Some(parts) = r {
        proof {
            lemma_split_first(s@, c, parts.0@, parts.1@);
            assert(s@[parts.0@.len() as int] == c);
        }
    }
    r
}

/// Splits `s` at its first `c`, as `split_first` describes.
pub fn split_at_first<'a>(s: &'a str, c: char) -> (r: (&'a str, &'a str))
    ensures
        (r.0@, r.1@) == split_first(s@, c),
{
    match split_once_char(s, c) {
        Some(parts) => {
            proof {
                lemma_split_first(s@, c, parts.0@, parts.1@);
            }
            parts
        },
        None => {
            let empty: &str = "";
            proof {
                reveal_strlit("");
            }
            assert(empty@ =~= Seq::<char>::empty());
            (s, empty)
        },
    }
}

/// `s` with every `from` replaced by `to`.
pub open spec fn replaced(s: Seq<char>, from: char, to: char) -> Seq<char> {
    s.map_values(|ch: char| if ch == from {
        to
    } else {
        ch
    })
}

/// Relies on `str::replace` with a `char` pattern: every `from` in `s`
/// becomes the text `to`, here of one character.
#[verifier::external_body]
fn replace_char(s: &str, from: char, to: &str) -> (r: String)
    requires
        to@.len() == 1,
    ensures
        r@ == replaced(s@, from, to@[0]),
{
    s.replace(from, to)
}

/// The path of an asset as the asset loader takes it: marker files separate
/// directories with `\`, the loader with `/`.
pub fn asset_path(path: &str) -> (r: String)
    ensures
        r@ == replaced(path@, '\\', '/'),
{
    let slash: &str = "/";
    proof {
        reveal_strlit("/");
    }
    replace_char(path, '\\', slash)
}

} // verus!
