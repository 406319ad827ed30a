//! The handful of `str` operations the manifest reader needs, stated over chars.
//!
//! Positions here are char indices; the operations only ever cut at ASCII delimiters, so
//! they are the same cuts std's byte-indexed slicing makes.

use vstd::prelude::*;
use vstd::string::*;

use crate::unicode::{is_whitespace, push_char, whitespace};

verus! {

broadcast use vstd::seq_lib::group_seq_properties;

/// The first index at or after `i` that is not whitespace, or `s.len()`.
pub open spec fn skip_whitespace(s: Seq<char>, i: int) -> int
    decreases s.len() - i,
{
    if 0 <= i < s.len() && whitespace(s[i]) {
        skip_whitespace(s, i + 1)
    } else {
        i
    }
}

/// Walking back from `j`, the first end not preceded by whitespace, staying at or after `lo`.
pub open spec fn skip_whitespace_back(s: Seq<char>, lo: int, j: int) -> int
    decreases j,
{
    if 0 <= lo < j && j <= s.len() && whitespace(s[j - 1]) {
        skip_whitespace_back(s, lo, j - 1)
    } else {
        j
    }
}

/// `s` without its leading and trailing whitespace, as `str::trim` gives it.
pub closed spec fn trim_of(s: Seq<char>) -> Seq<char> {
    let a = skip_whitespace(s, 0);
    s.subrange(a, skip_whitespace_back(s, a, s.len() as int))
}

proof fn lemma_skip_whitespace_bounds(s: Seq<char>, i: int)
    requires
        0 <= i <= s.len(),
    ensures
        i <= skip_whitespace(s, i) <= s.len(),
        skip_whitespace(s, i) < s.len() ==> !whitespace(s[skip_whitespace(s, i)]),
    decreases s.len() - i,
{
    if i < s.len() && whitespace(s[i]) {
        lemma_skip_whitespace_bounds(s, i + 1);
    }
}

proof fn lemma_skip_whitespace_back_bounds(s: Seq<char>, lo: int, j: int)
    requires
        0 <= lo <= j <= s.len(),
    ensures
        lo <= skip_whitespace_back(s, lo, j) <= j,
    decreases j,
{
    if lo < j && whitespace(s[j - 1]) {
        lemma_skip_whitespace_back_bounds(s, lo, j - 1);
    }
}

/// Trimming never lengthens.
pub proof fn lemma_trim_shorter(s: Seq<char>)
    ensures
        trim_of(s).len() <= s.len(),
{
    lemma_skip_whitespace_bounds(s, 0);
    lemma_skip_whitespace_back_bounds(s, skip_whitespace(s, 0), s.len() as int);
}

/// Text with no whitespace at either end trims to itself.
pub proof fn lemma_trim_unchanged(s: Seq<char>)
    requires
        s.len() > 0 ==> !whitespace(s[0]) && !whitespace(s.last()),
    ensures
        trim_of(s) == s,
{
    assert(skip_whitespace(s, 0) == 0);
    assert(skip_whitespace_back(s, 0, s.len() as int) == s.len());
    assert(s.subrange(0, s.len() as int) =~= s);
}

proof fn lemma_skip_whitespace_shift(s: Seq<char>, i: int)
    requires
        s.len() > 0,
        0 <= i <= s.len() - 1,
    ensures
        skip_whitespace(s, i + 1) == skip_whitespace(s.drop_first(), i) + 1,
    decreases s.len() - i,
{
    if i + 1 < s.len() && whitespace(s[i + 1]) {
        lemma_skip_whitespace_shift(s, i + 1);
    }
}

proof fn lemma_skip_whitespace_back_shift(s: Seq<char>, lo: int, j: int)
    requires
        s.len() > 0,
        0 <= lo <= j <= s.len() - 1,
    ensures
        skip_whitespace_back(s, lo + 1, j + 1) == skip_whitespace_back(s.drop_first(), lo, j) + 1,
    decreases j,
{
    if lo < j && whitespace(s[j]) {
        lemma_skip_whitespace_back_shift(s, lo, j - 1);
    }
}

/// A leading whitespace char is trimmed away.
pub proof fn lemma_trim_drops_leading_whitespace(s: Seq<char>)
    requires
        s.len() > 0,
        whitespace(s[0]),
    ensures
        trim_of(s) == trim_of(s.drop_first()),
{
    let d = s.drop_first();
    lemma_skip_whitespace_shift(s, 0);
    let a = skip_whitespace(d, 0);
    lemma_skip_whitespace_bounds(d, 0);
    assert(skip_whitespace(s, 0) == a + 1);
    lemma_skip_whitespace_back_shift(s, a, d.len() as int);
    lemma_skip_whitespace_back_bounds(d, a, d.len() as int);
    let b = skip_whitespace_back(d, a, d.len() as int);
    assert(s.subrange(a + 1, b + 1) =~= d.subrange(a, b));
}

/// `s` without its leading and trailing whitespace.
pub fn trim<'a>(s: &'a str) -> (res: &'a str)
    ensures
        res@ == trim_of(s@),
{
    let n = s.unicode_len();
    let mut a: usize = 0;
    while a < n && is_whitespace(s.get_char(a))
        invariant
            n == s@.len(),
            a <= n,
            skip_whitespace(s@, a as int) == skip_whitespace(s@, 0),
        decreases n - a,
    {
        a = a + 1;
    }
    let mut b: usize = n;
    while a < b && is_whitespace(s.get_char(b - 1))
        invariant
            n == s@.len(),
            a <= b <= n,
            a == skip_whitespace(s@, 0),
            skip_whitespace_back(s@, a as int, b as int) == skip_whitespace_back(
                s@,
                a as int,
                n as int,
            ),
        decreases b,
    {
        b = b - 1;
    }
    s.substring_char(a, b)
}

/// Whether `a` and `b` hold the same chars.
pub fn str_eq(a: &str, b: &str) -> (res: bool)
    ensures
        res == (a@ == b@),
{
    let n = a.unicode_len();
    if n != b.unicode_len() {
        return false;
    }
    let mut i: usize = 0;
    while i < n
        invariant
            n == a@.len(),
            n == b@.len(),
            i <= n,
            forall|k: int| 0 <= k < i ==> a@[k] == b@[k],
        decreases n - i,
    {
        if a.get_char(i) != b.get_char(i) {
            return false;
        }
        i = i + 1;
    }
    assert(a@ =~= b@);
    true
}

/// Whether `s` begins with `prefix`.
pub fn starts_with(s: &str, prefix: &str) -> (res: bool)
    ensures
        res == prefix@.is_prefix_of(s@),
{
    let n = s.unicode_len();
    let m = prefix.unicode_len();
    if m > n {
        return false;
    }
    let mut i: usize = 0;
    while i < m
        invariant
            n == s@.len(),
            m == prefix@.len(),
            m <= n,
            i <= m,
            forall|k: int| 0 <= k < i ==> prefix@[k] == s@[k],
        decreases m - i,
    {
        if s.get_char(i) != prefix.get_char(i) {
            return false;
        }
        i = i + 1;
    }
    assert(prefix@ =~= s@.subrange(0, m as int));
    true
}

/// Whether `s` ends with `suffix`.
pub fn ends_with(s: &str, suffix: &str) -> (res: bool)
    ensures
        res == suffix@.is_suffix_of(s@),
{
    let n = s.unicode_len();
    let m = suffix.unicode_len();
    if m > n {
        return false;
    }
    let off = n - m;
    let mut i: usize = 0;
    while i < m
        invariant
            n == s@.len(),
            m == suffix@.len(),
            off == n - m,
            i <= m,
            forall|k: int| 0 <= k < i ==> suffix@[k] == s@[off + k],
        decreases m - i,
    {
        if s.get_char(off + i) != suffix.get_char(i) {
            return false;
        }
        i = i + 1;
    }
    assert(suffix@ =~= s@.subrange(off as int, n as int));
    true
}

/// `s` without `prefix`, when it begins with it.
pub fn strip_prefix<'a>(s: &'a str, prefix: &str) -> (res: Option<&'a str>)
    ensures
        match res {
            Some(rest) => prefix@.is_prefix_of(s@) && rest@ == s@.subrange(
                prefix@.len() as int,
                s@.len() as int,
            ),
            None => !prefix@.is_prefix_of(s@),
        },
{
    if starts_with(s, prefix) {
        Some(s.substring_char(prefix.unicode_len(), s.unicode_len()))
    } else {
        None
    }
}

/// Whether `s` begins with the char `c`.
pub fn starts_with_char(s: &str, c: char) -> (res: bool)
    ensures
        res == (s@.len() > 0 && s@[0] == c),
{
    s.unicode_len() > 0 && s.get_char(0) == c
}

/// Whether `s` ends with the char `c`.
pub fn ends_with_char(s: &str, c: char) -> (res: bool)
    ensures
        res == (s@.len() > 0 && s@.last() == c),
{
    let n = s.unicode_len();
    n > 0 && s.get_char(n - 1) == c
}

/// `s` without its first char, when that is `c`.
pub fn strip_prefix_char<'a>(s: &'a str, c: char) -> (res: Option<&'a str>)
    ensures
        match res {
            Some(rest) => s@.len() > 0 && s@[0] == c && rest@ == s@.drop_first(),
            None => !(s@.len() > 0 && s@[0] == c),
        },
{
    if starts_with_char(s, c) {
        Some(s.substring_char(1, s.unicode_len()))
    } else {
        None
    }
}

/// `s` without its last char, when that is `c`.
pub fn strip_suffix_char<'a>(s: &'a str, c: char) -> (res: Option<&'a str>)
    ensures
        match res {
            Some(rest) => s@.len() > 0 && s@.last() == c && rest@ == s@.drop_last(),
            None => !(s@.len() > 0 && s@.last() == c),
        },
{
    let n = s.unicode_len();
    if ends_with_char(s, c) {
        Some(s.substring_char(0, n - 1))
    } else {
        None
    }
}

/// The index of the first `c` in `s`.
pub fn find_char(s: &str, c: char) -> (res: Option<usize>)
    ensures
        match res {
            Some(i) => i < s@.len() && s@[i as int] == c && forall|k: int|
                0 <= k < i ==> s@[k] != c,
            None => !s@.contains(c),
        },
{
    let n = s.unicode_len();
    let mut i: usize = 0;
    while i < n
        invariant
            n == s@.len(),
            i <= n,
            forall|k: int| 0 <= k < i ==> s@[k] != c,
        decreases n - i,
    {
        if s.get_char(i) == c {
            return Some(i);
        }
        i = i + 1;
    }
    None
}

/// The index of the first `c` in `s`, when there is one.
pub open spec fn first_index(s: Seq<char>, c: char) -> int {
    choose|i: int| 0 <= i < s.len() && s[i] == c && forall|k: int| 0 <= k < i ==> s[k] != c
}

pub proof fn lemma_first_index(s: Seq<char>, c: char, i: int)
    requires
        0 <= i < s.len(),
        s[i] == c,
        forall|k: int| 0 <= k < i ==> s[k] != c,
    ensures
        first_index(s, c) == i,
{
    let j = first_index(s, c);
    assert(0 <= j < s.len() && s[j] == c && forall|k: int| 0 <= k < j ==> s[k] != c);
    if j < i {
        assert(s[j] != c);
    } else if i < j {
        assert(s[i] != c);
    }
}

/// Whether `c` occurs in `s`.
pub fn contains_char(s: &str, c: char) -> (res: bool)
    ensures
        res == s@.contains(c),
{
    find_char(s, c).is_some()
}

/// Where splitting `s` at each `sep` stands once `n` chars are read: the pieces closed so
/// far and the index where the open one begins.
pub open spec fn split_prefix(s: Seq<char>, sep: char, n: nat) -> (Seq<Seq<char>>, int)
    decreases n,
{
    if n == 0 {
        (seq![], 0)
    } else {
        let (pieces, start) = split_prefix(s, sep, (n - 1) as nat);
        if s[n - 1] == sep {
            (pieces.push(s.subrange(start, n - 1)), n as int)
        } else {
            (pieces, start)
        }
    }
}

/// The pieces of `s` between occurrences of `sep`, empty ones included, as `str::split`
/// yields them.
pub open spec fn split_of(s: Seq<char>, sep: char) -> Seq<Seq<char>> {
    let (pieces, start) = split_prefix(s, sep, s.len());
    pieces.push(s.subrange(start, s.len() as int))
}

proof fn lemma_split_prefix_start(s: Seq<char>, sep: char, n: nat)
    requires
        n <= s.len(),
    ensures
        0 <= split_prefix(s, sep, n).1 <= n,
    decreases n,
{
    if n > 0 {
        lemma_split_prefix_start(s, sep, (n - 1) as nat);
    }
}

/// The pieces of `s` between occurrences of `sep`.
pub fn split_char<'a>(s: &'a str, sep: char) -> (res: Vec<&'a str>)
    ensures
        res@.len() == split_of(s@, sep).len(),
        forall|k: int| 0 <= k < res@.len() ==> #[trigger] res@[k]@ == split_of(s@, sep)[k],
{
    let n = s.unicode_len();
    let mut out: Vec<&'a str> = Vec::new();
    let mut start: usize = 0;
    let mut i: usize = 0;
    while i < n
        invariant
            n == s@.len(),
            i <= n,
            start <= i,
            split_prefix(s@, sep, i as nat).1 == start,
            out@.len() == split_prefix(s@, sep, i as nat).0.len(),
            forall|k: int|
                0 <= k < out@.len() ==> #[trigger] out@[k]@ == split_prefix(s@, sep, i as nat).0[k],
        decreases n - i,
    {
        if s.get_char(i) == sep {
            out.push(s.substring_char(start, i));
            start = i + 1;
        }
        i = i + 1;
    }
    out.push(s.substring_char(start, n));
    out
}

/// `piece` without one trailing carriage return.
pub open spec fn strip_cr(piece: Seq<char>) -> Seq<char> {
    if piece.len() > 0 && piece.last() == '\r' {
        piece.drop_last()
    } else {
        piece
    }
}

/// The lines of `s` as `str::lines` yields them: split at `\n` or `\r\n`, a final line
/// ending optional, so text that ends with one yields no empty last line.
pub open spec fn lines_of(s: Seq<char>) -> Seq<Seq<char>> {
    let (pieces, start) = split_prefix(s, '\n', s.len());
    let closed = pieces.map_values(|p: Seq<char>| strip_cr(p));
    if start < s.len() {
        closed.push(s.subrange(start, s.len() as int))
    } else {
        closed
    }
}

/// The lines of `s`.
pub fn lines<'a>(s: &'a str) -> (res: Vec<&'a str>)
    ensures
        res@.len() == lines_of(s@).len(),
        forall|k: int| 0 <= k < res@.len() ==> #[trigger] res@[k]@ == lines_of(s@)[k],
{
    let n = s.unicode_len();
    let mut out: Vec<&'a str> = Vec::new();
    let mut start: usize = 0;
    let mut i: usize = 0;
    while i < n
        invariant
            n == s@.len(),
            i <= n,
            start <= i,
            split_prefix(s@, '\n', i as nat).1 == start,
            out@.len() == split_prefix(s@, '\n', i as nat).0.len(),
            forall|k: int|
                0 <= k < out@.len() ==> #[trigger] out@[k]@ == strip_cr(
                    split_prefix(s@, '\n', i as nat).0[k],
                ),
        decreases n - i,
    {
        if s.get_char(i) == '\n' {
            let piece = s.substring_char(start, i);
            let line = match strip_suffix_char(piece, '\r') {
                Some(line) => line,
                None => piece,
            };
            out.push(line);
            start = i + 1;
        }
        i = i + 1;
    }
    if start < n {
        out.push(s.substring_char(start, n));
    }
    out
}

/// `s` with every `from` replaced by `to`.
pub fn replace_char(s: &str, from: char, to: char) -> (res: String)
    ensures
        res@ == s@.map_values(|c: char| if c == from { to } else { c }),
{
    let n = s.unicode_len();
    let mut out = String::new();
    let mut i: usize = 0;
    while i < n
        invariant
            n == s@.len(),
            i <= n,
            out@ == s@.take(i as int).map_values(|c: char| if c == from { to } else { c }),
        decreases n - i,
    {
        let c = s.get_char(i);
        if c == from {
            push_char(&mut out, to);
        } else {
            push_char(&mut out, c);
        }
        assert(s@.take(i + 1) =~= s@.take(i as int).push(c));
        i = i + 1;
    }
    assert(s@.take(n as int) =~= s@);
    out
}

/// The pieces joined back with `sep` between each two.
pub open spec fn joined_with(parts: Seq<Seq<char>>, sep: char) -> Seq<char>
    decreases parts.len(),
{
    if parts.len() == 0 {
        seq![]
    } else if parts.len() == 1 {
        parts[0]
    } else {
        joined_with(parts.drop_last(), sep) + seq![sep] + parts.last()
    }
}

proof fn lemma_split_prefix_rejoins(s: Seq<char>, sep: char, n: nat)
    requires
        n <= s.len(),
    ensures
        ({
            let (pieces, start) = split_prefix(s, sep, n);
            &&& 0 <= start <= n
            &&& joined_with(pieces.push(s.subrange(start, n as int)), sep) == s.take(n as int)
            &&& forall|k: int, m: int| 0 <= k < pieces.len() && 0 <= m < pieces[k].len() ==> #[trigger] pieces[k][m] != sep
            &&& forall|m: int| start <= m < n ==> #[trigger] s[m] != sep
        }),
    decreases n,
{
    if n > 0 {
        lemma_split_prefix_rejoins(s, sep, (n - 1) as nat);
        let (pieces, start) = split_prefix(s, sep, (n - 1) as nat);
        let open = s.subrange(start, n - 1);
        let c = s[n - 1];
        assert(s.take(n as int) =~= s.take(n - 1) + seq![c]);
        if c == sep {
            let np = pieces.push(open);
            assert(np.push(s.subrange(n as int, n as int)).drop_last() =~= np);
            assert(s.subrange(n as int, n as int) =~= Seq::<char>::empty());
            assert(joined_with(np.push(Seq::<char>::empty()), sep) =~= joined_with(np, sep) + seq![sep]);
            assert forall|k: int, m: int| 0 <= k < np.len() && 0 <= m < np[k].len() implies #[trigger] np[k][m] != sep by {
                if k == pieces.len() {
                    assert(np[k][m] == s[start + m]);
                }
            }
        } else {
            let prev = pieces.push(open);
            let cur = pieces.push(s.subrange(start, n as int));
            assert(s.subrange(start, n as int) =~= open.push(c));
            if pieces.len() == 0 {
                assert(joined_with(cur, sep) == cur[0]);
                assert(joined_with(prev, sep) == prev[0]);
            } else {
                assert(cur.drop_last() =~= pieces);
                assert(prev.drop_last() =~= pieces);
                assert(joined_with(cur, sep) =~= joined_with(prev, sep) + seq![c]);
            }
        }
    } else {
        assert(s.take(0) =~= Seq::<char>::empty());
        assert(s.subrange(0, 0) =~= Seq::<char>::empty());
    }
}

/// Splitting at `sep` loses nothing and keeps no separator: the pieces joined back with it
/// give the text, and no piece holds it.
pub proof fn lemma_split_rejoins(s: Seq<char>, sep: char)
    ensures
        joined_with(split_of(s, sep), sep) == s,
        forall|k: int, m: int|
            0 <= k < split_of(s, sep).len() && 0 <= m < split_of(s, sep)[k].len() ==> #[trigger] split_of(s, sep)[k][m] != sep,
{
    lemma_split_prefix_rejoins(s, sep, s.len());
    assert(s.take(s.len() as int) =~= s);
    let (pieces, start) = split_prefix(s, sep, s.len());
    let all = split_of(s, sep);
    assert forall|k: int, m: int| 0 <= k < all.len() && 0 <= m < all[k].len() implies #[trigger] all[k][m] != sep by {
        if k == pieces.len() {
            assert(all[k][m] == s[start + m]);
        } else {
            assert(all[k] == pieces[k]);
        }
    }
}

} // verus!
