//! How a generated command fills a field from the environment: which of its variables is
//! read, whether that one is a deprecated name, and what its value becomes.
//!
//! The variables are tried in declaration order: the field's `env`, then its `env_fallback`
//! names, then its deprecated names. The first that is set fills the field.

use vstd::prelude::*;
use vstd::string::*;

use crate::text::str_eq;

verus! {

/// Which variable filled a field, by position among its names, and whether it is a
/// deprecated one.
pub struct EnvPick {
    pub index: usize,
    pub deprecated: bool,
}

/// The first variable from `i` on that is set.
pub open spec fn first_set_from(set: Seq<bool>, i: int) -> Option<int>
    decreases set.len() - i,
{
    if i < 0 || i >= set.len() {
        None
    } else if set[i] {
        Some(i)
    } else {
        first_set_from(set, i + 1)
    }
}

/// The variable that fills the field: the first that is set; it is deprecated when it comes
/// at or after `first_deprecated`.
pub open spec fn env_pick_of(set: Seq<bool>, first_deprecated: int) -> Option<(int, bool)> {
    match first_set_from(set, 0) {
        None => None,
        Some(i) => Some((i, i >= first_deprecated)),
    }
}

/// Which of a field's variables fills it, where `set[i]` says whether its `i`th name is set
/// in the environment and names from `first_deprecated` on are deprecated ones.
pub fn env_pick(set: &Vec<bool>, first_deprecated: usize) -> (res: Option<EnvPick>)
    ensures
        match res {
            Some(p) => env_pick_of(set@, first_deprecated as int) == Some(
                (p.index as int, p.deprecated),
            ),
            None => env_pick_of(set@, first_deprecated as int) is None,
        },
{
    let mut i: usize = 0;
    while i < set.len()
        invariant
            i <= set@.len(),
            first_set_from(set@, 0) == first_set_from(set@, i as int),
        decreases set.len() - i,
    {
        if set[i] {
            return Some(EnvPick { index: i, deprecated: i >= first_deprecated });
        }
        i = i + 1;
    }
    None
}

/// The words that turn a switch off when a variable holds them.
pub open spec fn switch_off_word(value: Seq<char>) -> bool {
    value == ""@ || value == "0"@ || value == "false"@ || value == "no"@ || value == "off"@
}

/// What a switch becomes from a variable's value: on, unless the value is empty, `0`,
/// `false`, `no` or `off`.
pub fn env_switch(value: &str) -> (res: bool)
    ensures
        res == !switch_off_word(value@),
{
    !(str_eq(value, "") || str_eq(value, "0") || str_eq(value, "false") || str_eq(value, "no")
        || str_eq(value, "off"))
}

/// The parts of the first `n` bytes of `v` between occurrences of `d`: one more part than
/// there are delimiters, empty ones included.
pub open spec fn split_upto(v: Seq<u8>, d: u8, n: nat) -> Seq<Seq<u8>>
    decreases n,
{
    if n == 0 {
        seq![seq![]]
    } else {
        let p = split_upto(v, d, (n - 1) as nat);
        if v[n - 1] == d {
            p.push(seq![])
        } else {
            p.update(p.len() - 1, p.last().push(v[n - 1]))
        }
    }
}

proof fn lemma_split_upto_nonempty(v: Seq<u8>, d: u8, n: nat)
    ensures
        split_upto(v, d, n).len() >= 1,
    decreases n,
{
    if n > 0 {
        lemma_split_upto_nonempty(v, d, (n - 1) as nat);
    }
}

pub open spec fn byte_parts(parts: Seq<Vec<u8>>) -> Seq<Seq<u8>> {
    parts.map_values(|p: Vec<u8>| p@)
}

/// What a collecting field holds from a variable's value: the parts between its delimiter,
/// or the whole value as one item when it declares none.
pub open spec fn env_items_of(value: Seq<u8>, delimiter: Option<u8>) -> Seq<Seq<u8>> {
    match delimiter {
        Some(d) => split_upto(value, d, value.len()),
        None => seq![value],
    }
}

fn copy_bytes(value: &[u8]) -> (res: Vec<u8>)
    ensures
        res@ == value@,
{
    let mut out: Vec<u8> = Vec::new();
    let mut i: usize = 0;
    while i < value.len()
        invariant
            i <= value@.len(),
            out@ == value@.take(i as int),
        decreases value.len() - i,
    {
        out.push(value[i]);
        assert(out@ =~= value@.take(i + 1));
        i = i + 1;
    }
    assert(value@.take(value@.len() as int) =~= value@);
    out
}

/// The items a collecting field takes from a variable's value.
pub fn env_items(value: &[u8], delimiter: Option<u8>) -> (res: Vec<Vec<u8>>)
    ensures
        byte_parts(res@) == env_items_of(value@, delimiter),
{
    match delimiter {
        None => {
            let mut out: Vec<Vec<u8>> = Vec::new();
            out.push(copy_bytes(value));
            assert(byte_parts(out@) =~= seq![value@]);
            out
        },
        Some(d) => {
            let mut parts: Vec<Vec<u8>> = Vec::new();
            let mut current: Vec<u8> = Vec::new();
            let mut i: usize = 0;
            assert(byte_parts(parts@).push(current@) =~= split_upto(value@, d, 0));
            while i < value.len()
                invariant
                    i <= value@.len(),
                    byte_parts(parts@).push(current@) == split_upto(value@, d, i as nat),
                decreases value.len() - i,
            {
                let ghost before = byte_parts(parts@).push(current@);
                proof {
                    lemma_split_upto_nonempty(value@, d, i as nat);
                }
                if value[i] == d {
                    let done = current;
                    current = Vec::new();
                    parts.push(done);
                    assert(byte_parts(parts@).push(current@) =~= before.push(seq![]));
                } else {
                    current.push(value[i]);
                    assert(byte_parts(parts@).push(current@) =~= before.update(
                        before.len() - 1,
                        before.last().push(value@[i as int]),
                    ));
                }
                i = i + 1;
            }
            parts.push(current);
            parts
        },
    }
}

/// The variable a deprecated name's warning points to instead: the field's `env`, else its
/// first fallback.
pub open spec fn env_replacement_of(env: Option<Seq<char>>, fallbacks: Seq<Seq<char>>) -> Option<
    Seq<char>,
> {
    match env {
        Some(e) => Some(e),
        None => if fallbacks.len() > 0 {
            Some(fallbacks[0])
        } else {
            None
        },
    }
}

pub open spec fn text_of(o: Option<String>) -> Option<Seq<char>> {
    match o {
        Some(s) => Some(s@),
        None => None,
    }
}

/// The current name a warning about a deprecated variable suggests.
pub fn env_replacement(env: &Option<String>, fallbacks: &Vec<String>) -> (res: Option<String>)
    ensures
        text_of(res) == env_replacement_of(text_of(*env), fallbacks@.map_values(|s: String| s@)),
{
    match env {
        Some(e) => Some(e.clone()),
        None => if fallbacks.len() > 0 {
            Some(fallbacks[0].clone())
        } else {
            None
        },
    }
}

/// The parts joined back with `d` between each two.
pub open spec fn joined(parts: Seq<Seq<u8>>, d: u8) -> Seq<u8>
    decreases parts.len(),
{
    if parts.len() == 0 {
        seq![]
    } else if parts.len() == 1 {
        parts[0]
    } else {
        joined(parts.drop_last(), d) + seq![d] + parts.last()
    }
}

proof fn lemma_joined_grow_last(p: Seq<Seq<u8>>, d: u8, c: u8)
    requires
        p.len() >= 1,
    ensures
        joined(p.update(p.len() - 1, p.last().push(c)), d) == joined(p, d).push(c),
{
    let q = p.update(p.len() - 1, p.last().push(c));
    if p.len() == 1 {
        assert(q[0] == p[0].push(c));
    } else {
        assert(q.drop_last() =~= p.drop_last());
        assert(q.last() == p.last().push(c));
        assert(joined(q, d) =~= joined(p, d).push(c));
    }
}

proof fn lemma_split_upto_rejoins(v: Seq<u8>, d: u8, n: nat)
    requires
        n <= v.len(),
    ensures
        split_upto(v, d, n).len() >= 1,
        joined(split_upto(v, d, n), d) == v.take(n as int),
        forall|k: int, m: int|
            0 <= k < split_upto(v, d, n).len() && 0 <= m < split_upto(v, d, n)[k].len() ==> #[trigger] split_upto(
                v,
                d,
                n,
            )[k][m] != d,
        split_upto(v, d, n).len() == 1 + v.take(n as int).filter(|b: u8| b == d).len(),
    decreases n,
{
    broadcast use vstd::seq_lib::group_seq_properties;
    if n == 0 {
        assert(v.take(0) =~= Seq::<u8>::empty());
        reveal(Seq::filter);
    } else {
        lemma_split_upto_rejoins(v, d, (n - 1) as nat);
        let p = split_upto(v, d, (n - 1) as nat);
        let c = v[n - 1];
        assert(v.take(n as int) =~= v.take(n - 1).push(c));
        v.take(n - 1).lemma_filter_len_push(|b: u8| b == d, c);
        if c == d {
            assert(p.push(seq![]).drop_last() =~= p);
            assert(joined(p.push(seq![]), d) =~= joined(p, d) + seq![d]);
        } else {
            lemma_joined_grow_last(p, d, c);
            let q = p.update(p.len() - 1, p.last().push(c));
            assert forall|k: int, m: int| 0 <= k < q.len() && 0 <= m < q[k].len() implies #[trigger] q[k][m] != d by {
                if k == p.len() - 1 && m == p.last().len() {
                    assert(q[k][m] == c);
                } else if k == p.len() - 1 {
                    assert(q[k][m] == p[k][m]);
                } else {
                    assert(q[k] == p[k]);
                }
            }
        }
    }
}

/// Splitting on the delimiter loses nothing and keeps no delimiter: the parts joined back with
/// it give the value, no part holds it, and there is one more part than there are delimiters.
/// Without a delimiter the value is one item.
pub proof fn lemma_items_rejoin_to_the_value(value: Seq<u8>, d: u8)
    ensures
        joined(env_items_of(value, Some(d)), d) == value,
        forall|k: int, m: int|
            0 <= k < env_items_of(value, Some(d)).len() && 0 <= m < env_items_of(value, Some(d))[k].len()
                ==> #[trigger] env_items_of(value, Some(d))[k][m] != d,
        env_items_of(value, Some(d)).len() == 1 + value.filter(|b: u8| b == d).len(),
        env_items_of(value, None) == seq![value],
{
    lemma_split_upto_rejoins(value, d, value.len());
    assert(value.take(value.len() as int) =~= value);
}

proof fn lemma_first_set_from(set: Seq<bool>, i: int)
    requires
        0 <= i,
    ensures
        match first_set_from(set, i) {
            Some(j) => i <= j < set.len() && set[j] && forall|k: int| i <= k < j ==> !set[k],
            None => forall|k: int| i <= k < set.len() ==> !set[k],
        },
    decreases set.len() - i,
{
    if i < set.len() && !set[i] {
        lemma_first_set_from(set, i + 1);
    }
}

/// The variable that fills a field is the first of its names that is set, and it is reported
/// as deprecated exactly when it is one of the deprecated names; when none is set, none fills
/// it.
pub proof fn lemma_the_first_set_name_fills(set: Seq<bool>, first_deprecated: int)
    ensures
        match env_pick_of(set, first_deprecated) {
            Some((j, deprecated)) => 0 <= j < set.len() && set[j] && (forall|k: int| 0 <= k < j ==> !set[k])
                && (deprecated <==> j >= first_deprecated),
            None => forall|k: int| 0 <= k < set.len() ==> !set[k],
        },
{
    lemma_first_set_from(set, 0);
}

/// A switch is turned off by an empty value, `0`, `false`, `no` or `off`, and on by any other
/// value, such as `1`, `true`, `yes` or `on`.
pub proof fn lemma_switch_words(w: Seq<char>)
    ensures
        switch_off_word(w) <==> (w == ""@ || w == "0"@ || w == "false"@ || w == "no"@ || w == "off"@),
        !switch_off_word("1"@),
        !switch_off_word("true"@),
        !switch_off_word("yes"@),
        !switch_off_word("on"@),
        switch_off_word("off"@) && switch_off_word("false"@) && switch_off_word("0"@) && switch_off_word("no"@)
            && switch_off_word(""@),
{
    reveal_strlit("");
    reveal_strlit("0");
    reveal_strlit("false");
    reveal_strlit("no");
    reveal_strlit("off");
    reveal_strlit("1");
    reveal_strlit("true");
    reveal_strlit("yes");
    reveal_strlit("on");
    assert("1"@.len() != ""@.len());
    assert("1"@ != ""@);
    assert("1"@[0] != "0"@[0]);
    assert("1"@ != "0"@);
    assert("1"@.len() != "false"@.len());
    assert("1"@ != "false"@);
    assert("1"@.len() != "no"@.len());
    assert("1"@ != "no"@);
    assert("1"@.len() != "off"@.len());
    assert("1"@ != "off"@);
    assert("true"@.len() != ""@.len());
    assert("true"@ != ""@);
    assert("true"@.len() != "0"@.len());
    assert("true"@ != "0"@);
    assert("true"@.len() != "false"@.len());
    assert("true"@ != "false"@);
    assert("true"@.len() != "no"@.len());
    assert("true"@ != "no"@);
    assert("true"@.len() != "off"@.len());
    assert("true"@ != "off"@);
    assert("yes"@.len() != ""@.len());
    assert("yes"@ != ""@);
    assert("yes"@.len() != "0"@.len());
    assert("yes"@ != "0"@);
    assert("yes"@.len() != "false"@.len());
    assert("yes"@ != "false"@);
    assert("yes"@.len() != "no"@.len());
    assert("yes"@ != "no"@);
    assert("yes"@[0] != "off"@[0]);
    assert("yes"@ != "off"@);
    assert("on"@.len() != ""@.len());
    assert("on"@ != ""@);
    assert("on"@.len() != "0"@.len());
    assert("on"@ != "0"@);
    assert("on"@.len() != "false"@.len());
    assert("on"@ != "false"@);
    assert("on"@[0] != "no"@[0]);
    assert("on"@ != "no"@);
    assert("on"@.len() != "off"@.len());
    assert("on"@ != "off"@);
}

/// A deprecated name's warning suggests the field's own variable, else its first fallback.
pub proof fn lemma_the_replacement_is_a_current_name(env: Option<Seq<char>>, fallbacks: Seq<Seq<char>>)
    ensures
        env matches Some(e) ==> env_replacement_of(env, fallbacks) == Some(e),
        env is None && fallbacks.len() > 0 ==> env_replacement_of(env, fallbacks) == Some(fallbacks[0]),
        env_replacement_of(env, fallbacks) is None <==> (env is None && fallbacks.len() == 0),
{
}

} // verus!
