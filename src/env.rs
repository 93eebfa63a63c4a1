//! Environment lists of the helper process: `KEY=value` entries, as read
//! from a process's environment block.

use vstd::prelude::*;

use crate::text::{lacks, pieces, split_first, split_once_at};

verus! {

/// The value that the entry `e` gives to `key`: what follows the first `=`,
/// where what precedes it is `key`.
pub open spec fn entry_value(e: Seq<char>, key: Seq<char>) -> Option<Seq<char>> {
    if lacks(e, '=') {
        None
    } else {
        let (k, v) = split_first(e, '=');
        if k == key {
            Some(v)
        } else {
            None
        }
    }
}

/// The value of `key` in the first entry of `es` that gives one; the empty
/// text where none does.
pub open spec fn env_value(es: Seq<Seq<char>>, key: Seq<char>) -> Seq<char>
    decreases es.len(),
{
    if es.len() == 0 {
        Seq::empty()
    } else {
        match entry_value(es[0], key) {
            Some(v) => v,
            None => env_value(es.drop_first(), key),
        }
    }
}

/// The texts of a list of strings.
pub open spec fn texts(v: Seq<String>) -> Seq<Seq<char>> {
    v.map_values(|s: String| s@)
}

/// The value of `env_to_find` in a list of `KEY=value` entries.
pub fn get_env_val(list_of_envs: Vec<String>, env_to_find: &str) -> (r: String)
    ensures
        r@ == env_value(texts(list_of_envs@), env_to_find@),
{
    let key = env_to_find.to_owned();
    let mut i: usize = 0;
    assert(texts(list_of_envs@).skip(0) =~= texts(list_of_envs@));
    while i < list_of_envs.len()
        invariant
            i <= list_of_envs@.len(),
            key@ == env_to_find@,
            env_value(texts(list_of_envs@), env_to_find@) == env_value(
                texts(list_of_envs@).skip(i as int),
                env_to_find@,
            ),
        decreases list_of_envs@.len() - i,
    {
        let ghost tail = texts(list_of_envs@).skip(i as int);
        assert(tail[0] == list_of_envs@[i as int]@);
        assert(tail.drop_first() =~= texts(list_of_envs@).skip(i + 1));
        if let Some((k, v)) = split_once_at(list_of_envs[i].as_str(), '=') {
            if k.to_owned() == key {
                return v.to_owned();
            }
        }
        i = i + 1;
    }
    assert(texts(list_of_envs@).skip(i as int) =~= seq![]);
    String::new()
}

/// The texts of a list of `(key, value)` pairs.
pub open spec fn pairs(env: Seq<(String, String)>) -> Seq<(Seq<char>, Seq<char>)> {
    env.map_values(|p: (String, String)| (p.0@, p.1@))
}

/// The texts of a list of string slices.
pub open spec fn strs(v: Seq<&str>) -> Seq<Seq<char>> {
    v.map_values(|s: &str| s@)
}

/// The pairs of `env` whose key is not in `rm`, in their order.
pub open spec fn without_keys(env: Seq<(Seq<char>, Seq<char>)>, rm: Seq<Seq<char>>) -> Seq<
    (Seq<char>, Seq<char>),
>
    decreases env.len(),
{
    if env.len() == 0 {
        seq![]
    } else {
        let rest = without_keys(env.drop_last(), rm);
        if rm.contains(env.last().0) {
            rest
        } else {
            rest.push(env.last())
        }
    }
}

/// No two pairs of `env` have the same key.
pub open spec fn distinct_env_keys(env: Seq<(Seq<char>, Seq<char>)>) -> bool {
    forall|i: int, j: int| 0 <= i < j < env.len() ==> env[i].0 != env[j].0
}

/// Taking out the pairs of some keys keeps pairs of `env` only, none of those
/// keys, and keys that were distinct stay distinct.
pub proof fn lemma_without_keys(env: Seq<(Seq<char>, Seq<char>)>, rm: Seq<Seq<char>>)
    ensures
        forall|i: int|
            0 <= i < without_keys(env, rm).len() ==> exists|j: int|
                0 <= j < env.len() && #[trigger] without_keys(env, rm)[i] == env[j],
        forall|i: int|
            0 <= i < without_keys(env, rm).len() ==> !rm.contains(
                #[trigger] without_keys(env, rm)[i].0,
            ),
        distinct_env_keys(env) ==> distinct_env_keys(without_keys(env, rm)),
    decreases env.len(),
{
    if env.len() > 0 {
        let d = env.drop_last();
        lemma_without_keys(d, rm);
        let rest = without_keys(d, rm);
        assert forall|i: int| 0 <= i < rest.len() implies exists|j: int|
            0 <= j < env.len() && #[trigger] rest[i] == env[j] by {
            let j = choose|j: int| 0 <= j < d.len() && rest[i] == d[j];
            assert(d[j] == env[j]);
        }
        if distinct_env_keys(env) {
            assert(distinct_env_keys(d)) by {
                assert forall|x: int, y: int| 0 <= x < y < d.len() implies d[x].0 != d[y].0 by {
                    assert(d[x] == env[x] && d[y] == env[y]);
                }
            }
            if !rm.contains(env.last().0) {
                let r = rest.push(env.last());
                assert forall|x: int, y: int| 0 <= x < y < r.len() implies r[x].0 != r[y].0 by {
                    if y == r.len() - 1 {
                        let j = choose|j: int| 0 <= j < d.len() && rest[x] == d[j];
                        assert(d[j] == env[j]);
                    } else {
                        assert(r[x] == rest[x] && r[y] == rest[y]);
                    }
                }
            }
        }
        if !rm.contains(env.last().0) {
            let r = rest.push(env.last());
            assert forall|i: int| 0 <= i < r.len() implies exists|j: int|
                0 <= j < env.len() && #[trigger] r[i] == env[j] by {
                if i == r.len() - 1 {
                    assert(r[i] == env[env.len() - 1]);
                } else {
                    assert(r[i] == rest[i]);
                }
            }
            assert forall|i: int| 0 <= i < r.len() implies !rm.contains(#[trigger] r[i].0) by {
                if i < r.len() - 1 {
                    assert(r[i] == rest[i]);
                }
            }
        }
    }
}

/// The environment that an environment block makes has distinct keys.
pub proof fn lemma_env_of_distinct(ts: Seq<Seq<char>>)
    ensures
        distinct_env_keys(env_of(ts)),
    decreases ts.len(),
{
    if ts.len() > 0 {
        lemma_env_of_distinct(ts.drop_last());
        let e = env_of(ts.drop_last());
        let t = ts.last();
        if !lacks(t, '=') {
            let (k, v) = split_first(t, '=');
            let rm = seq![k];
            lemma_without_keys(e, rm);
            let w = without_keys(e, rm);
            let r = w.push((k, v));
            assert forall|x: int, y: int| 0 <= x < y < r.len() implies r[x].0 != r[y].0 by {
                if y == r.len() - 1 {
                    assert(rm[0] == k);
                    assert(!rm.contains(w[x].0));
                } else {
                    assert(r[x] == w[x] && r[y] == w[y]);
                }
            }
        }
    }
}

/// Whether `key` is one of `names`.
fn is_listed(names: &Vec<&str>, key: &String) -> (r: bool)
    ensures
        r == strs(names@).contains(key@),
{
    let mut j: usize = 0;
    while j < names.len()
        invariant
            j <= names@.len(),
            forall|i: int| 0 <= i < j ==> strs(names@)[i] != key@,
        decreases names@.len() - j,
    {
        if names[j].to_owned() == *key {
            assert(strs(names@)[j as int] == key@);
            return true;
        }
        j = j + 1;
    }
    false
}

/// The environment without the entries whose key is listed in `to_remove`.
pub fn remove_from_env(env: Vec<(String, String)>, to_remove: Vec<&str>) -> (r: Vec<
    (String, String),
>)
    ensures
        pairs(r@) == without_keys(pairs(env@), strs(to_remove@)),
        distinct_env_keys(pairs(env@)) ==> distinct_env_keys(pairs(r@)),
{
    let mut out: Vec<(String, String)> = Vec::new();
    let mut i: usize = 0;
    assert(pairs(env@).take(0) =~= seq![]);
    assert(pairs(out@) =~= seq![]);
    while i < env.len()
        invariant
            i <= env@.len(),
            pairs(out@) == without_keys(pairs(env@).take(i as int), strs(to_remove@)),
        decreases env@.len() - i,
    {
        let ghost prefix = pairs(env@).take(i + 1);
        assert(prefix.drop_last() =~= pairs(env@).take(i as int));
        assert(prefix.last() == (env@[i as int].0@, env@[i as int].1@));
        let listed = is_listed(&to_remove, &env[i].0);
        if !listed {
            let key = env[i].0.clone();
            let value = env[i].1.clone();
            out.push((key, value));
            assert(pairs(out@) =~= without_keys(prefix, strs(to_remove@)));
        }
        i = i + 1;
    }
    assert(pairs(env@).take(i as int) =~= pairs(env@));
    proof {
        lemma_without_keys(pairs(env@), strs(to_remove@));
    }
    out
}

/// The environment after the entry `t` of an environment block: an entry
/// `KEY=value` replaces the pair of `KEY` and goes last; an entry without `=`
/// changes nothing.
pub open spec fn add_entry(env: Seq<(Seq<char>, Seq<char>)>, t: Seq<char>) -> Seq<
    (Seq<char>, Seq<char>),
> {
    if lacks(t, '=') {
        env
    } else {
        let (k, v) = split_first(t, '=');
        without_keys(env, seq![k]).push((k, v))
    }
}

/// The environment that the entries `ts` make, taken in order.
pub open spec fn env_of(ts: Seq<Seq<char>>) -> Seq<(Seq<char>, Seq<char>)>
    decreases ts.len(),
{
    if ts.len() == 0 {
        seq![]
    } else {
        add_entry(env_of(ts.drop_last()), ts.last())
    }
}

/// Reads an environment block: `KEY=value` entries separated by NUL
/// characters. A later entry for a key replaces an earlier one.
pub fn parse_environment(data: &str) -> (r: Vec<(String, String)>)
    ensures
        pairs(r@) == env_of(pieces(data@, '\0')),
        distinct_env_keys(pairs(r@)),
{
    let mut env: Vec<(String, String)> = Vec::new();
    let mut rest: &str = data;
    let ghost mut done: Seq<Seq<char>> = seq![];
    assert(pairs(env@) =~= seq![]);
    assert(done + pieces(rest@, '\0') =~= pieces(data@, '\0'));
    loop
        invariant
            pieces(data@, '\0') == done + pieces(rest@, '\0'),
            pairs(env@) == env_of(done),
        decreases rest@.len(),
    {
        let (entry, more, last) = match split_once_at(rest, '\0') {
            Some((t, m)) => (t, m, false),
            None => (rest, rest, true),
        };
        if let Some((k, v)) = split_once_at(entry, '=') {
            let names: Vec<&str> = vec![k];
            assert(strs(names@) =~= seq![k@]);
            env = remove_from_env(env, names);
            let key = k.to_owned();
            let value = v.to_owned();
            env.push((key, value));
            assert(pairs(env@) =~= add_entry(env_of(done), entry@));
        }
        proof {
            let next = done.push(entry@);
            assert(next.drop_last() =~= done);
            done = next;
        }
        if last {
            assert(pieces(rest@, '\0') == seq![rest@]);
            assert(pieces(data@, '\0') =~= done);
            proof {
                lemma_env_of_distinct(pieces(data@, '\0'));
            }
            return env;
        }
        assert(pieces(data@, '\0') =~= done + pieces(more@, '\0'));
        rest = more;
    }
}

/// The value of the first pair of `env` with key `key`.
pub open spec fn env_get(env: Seq<(Seq<char>, Seq<char>)>, key: Seq<char>) -> Option<Seq<char>>
    decreases env.len(),
{
    if env.len() == 0 {
        None
    } else if env[0].0 == key {
        Some(env[0].1)
    } else {
        env_get(env.drop_first(), key)
    }
}

/// Looks up the first pair of `env` with key `key`.
pub fn find_env(env: &Vec<(String, String)>, key: &str) -> (r: Option<String>)
    ensures
        match r {
            Some(v) => env_get(pairs(env@), key@) == Some(v@),
            None => env_get(pairs(env@), key@) is None,
        },
{
    let wanted = key.to_owned();
    let mut i: usize = 0;
    assert(pairs(env@).skip(0) =~= pairs(env@));
    while i < env.len()
        invariant
            i <= env@.len(),
            wanted@ == key@,
            env_get(pairs(env@), key@) == env_get(pairs(env@).skip(i as int), key@),
        decreases env@.len() - i,
    {
        let ghost tail = pairs(env@).skip(i as int);
        assert(tail[0] == (env@[i as int].0@, env@[i as int].1@));
        assert(tail.drop_first() =~= pairs(env@).skip(i + 1));
        if env[i].0 == wanted {
            return Some(env[i].1.clone());
        }
        i = i + 1;
    }
    assert(pairs(env@).skip(i as int) =~= seq![]);
    None
}

/// The variables of the game's environment that the helper must not inherit.
pub open spec fn helper_excluded() -> Seq<Seq<char>> {
    seq![
        "WINESERVERSOCKET"@,
        "WINELOADERNOEXEC"@,
        "WINEPRELOADRESERVE"@,
        "LD_PRELOAD"@,
    ]
}

/// How to start the helper: the program that runs it, the prefix it runs
/// in, and its environment.
pub struct HelperLaunch {
    pub program: String,
    pub prefix: String,
    pub env: Vec<(String, String)>,
}

/// Decides how to start the helper at `helper_path` from the game's
/// environment: the game's `WINE` (else `wine`) runs it, in the game's
/// `WINEPREFIX` (else `~/.wine`), with the game's environment less the
/// variables of `helper_excluded`. With no helper path there is nothing to
/// start.
pub fn plan_helper_launch(env: Vec<(String, String)>, helper_path: &str) -> (r: Option<
    HelperLaunch,
>)
    ensures
        r is None <==> helper_path@.len() == 0,
        r matches Some(h) ==> {
            &&& pairs(h.env@) == without_keys(pairs(env@), helper_excluded())
            &&& (distinct_env_keys(pairs(env@)) ==> distinct_env_keys(pairs(h.env@)))
            &&& h.program@ == match env_get(pairs(h.env@), "WINE"@) {
                Some(v) => v,
                None => "wine"@,
            }
            &&& h.prefix@ == match env_get(pairs(h.env@), "WINEPREFIX"@) {
                Some(v) => v,
                None => "~/.wine"@,
            }
        },
{
    if helper_path.is_empty() {
        return None;
    }
    let excluded: Vec<&str> = vec!["WINESERVERSOCKET", "WINELOADERNOEXEC", "WINEPRELOADRESERVE", "LD_PRELOAD"];
    assert(strs(excluded@) =~= helper_excluded());
    let env = remove_from_env(env, excluded);
    let program = match find_env(&env, "WINE") {
        Some(v) => v,
        None => "wine".to_owned(),
    };
    let prefix = match find_env(&env, "WINEPREFIX") {
        Some(v) => v,
        None => "~/.wine".to_owned(),
    };
    Some(HelperLaunch { program, prefix, env })
}

} // verus!
