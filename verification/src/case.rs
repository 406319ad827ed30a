//! Case conversion for `rename_all`, in the shapes clap's derive produces.
//!
//! The word boundaries are heck 0.5's: a declaration that used to go through clap has to
//! yield the same flag names, or switching silently changes a CLI's interface. Boundaries fall between
//! non-alphanumeric runs, after a lowercase char followed by an uppercase one, and before the
//! last uppercase of a run that is followed by a lowercase one, so `XMLHttpRequest` is
//! `XML|Http|Request`. Digits are alphanumeric but neither upper nor lower, so they belong to
//! the word on their left and leave the case state alone: `Foo2Bar` is `Foo2|Bar`.
//!
//! This is not the default naming policy of the derive, which breaks before every uppercase
//! char; it applies only where `rename_all` asks for one of these shapes.

use vstd::prelude::*;
use vstd::string::*;

use crate::unicode::{
    alphanumeric, is_alphanumeric, is_lowercase, is_uppercase, lowercase, lowercase_mapping,
    push_char, to_lowercase, to_uppercase, uppercase, uppercase_mapping,
};

verus! {

broadcast use vstd::seq_lib::group_seq_properties;

/// The case of the last cased char seen since the current word began.
#[derive(PartialEq, Eq, Structural, Clone, Copy, Debug)]
pub enum Mode {
    Boundary,
    Lowercase,
    Uppercase,
}

/// Where a left-to-right segmentation stands: the words closed so far, the char index where
/// the open word begins, and the case state.
pub struct Segmentation {
    pub words: Seq<Seq<char>>,
    pub init: int,
    pub mode: Mode,
}

/// The char after `s[i]` when it belongs to the same alphanumeric run.
pub open spec fn next_in_chunk(s: Seq<char>, i: int) -> Option<char> {
    if i + 1 < s.len() && alphanumeric(s[i + 1]) {
        Some(s[i + 1])
    } else {
        None
    }
}

/// The case state once `c` has been read without closing a word; a caseless char inherits it.
pub open spec fn mode_after(mode: Mode, c: char) -> Mode {
    if lowercase(c) {
        Mode::Lowercase
    } else if uppercase(c) {
        Mode::Uppercase
    } else {
        mode
    }
}

/// Reading `s[i]`.
///
/// A non-alphanumeric char only separates. The last char of a run closes the open word. A
/// lowercase-then-uppercase pair closes it after `s[i]`; the last uppercase of an uppercase
/// run followed by a lowercase starts the next word, closing the open one before `s[i]`.
pub open spec fn segment_step(s: Seq<char>, i: int, st: Segmentation) -> Segmentation {
    let c = s[i];
    if !alphanumeric(c) {
        Segmentation { words: st.words, init: i + 1, mode: Mode::Boundary }
    } else {
        match next_in_chunk(s, i) {
            None => Segmentation {
                words: st.words.push(s.subrange(st.init, i + 1)),
                init: i + 1,
                mode: Mode::Boundary,
            },
            Some(next) => {
                let next_mode = mode_after(st.mode, c);
                if next_mode == Mode::Lowercase && uppercase(next) {
                    Segmentation {
                        words: st.words.push(s.subrange(st.init, i + 1)),
                        init: i + 1,
                        mode: Mode::Boundary,
                    }
                } else if st.mode == Mode::Uppercase && uppercase(c) && lowercase(next) {
                    Segmentation {
                        words: st.words.push(s.subrange(st.init, i)),
                        init: i,
                        mode: Mode::Boundary,
                    }
                } else {
                    Segmentation { words: st.words, init: st.init, mode: next_mode }
                }
            }
        }
    }
}

/// The segmentation once the first `n` chars of `s` have been read.
pub open spec fn segment_prefix(s: Seq<char>, n: nat) -> Segmentation
    decreases n,
{
    if n == 0 {
        Segmentation { words: seq![], init: 0, mode: Mode::Boundary }
    } else {
        segment_step(s, n - 1, segment_prefix(s, (n - 1) as nat))
    }
}

/// The words of `s`, as heck segments them.
pub open spec fn words_of(s: Seq<char>) -> Seq<Seq<char>> {
    segment_prefix(s, s.len()).words
}

/// The chars of `s` that are alphanumeric, in order.
pub open spec fn alphanumerics(s: Seq<char>) -> Seq<char> {
    s.filter(|c: char| alphanumeric(c))
}

/// What holds after every prefix of the segmentation.
proof fn lemma_segment_prefix(s: Seq<char>, n: nat)
    requires
        n <= s.len(),
    ensures
        ({
            let st = segment_prefix(s, n);
            &&& 0 <= st.init <= n
            &&& st.mode != Mode::Boundary ==> st.init < n
            &&& st.init < n ==> n < s.len() && alphanumeric(s[n as int])
            &&& forall|k: int| st.init <= k < n ==> alphanumeric(#[trigger] s[k])
            &&& forall|w: int| 0 <= w < st.words.len() ==> #[trigger] st.words[w].len() > 0
            &&& forall|w: int, k: int|
                0 <= w < st.words.len() && 0 <= k < st.words[w].len() ==> alphanumeric(
                    #[trigger] st.words[w][k],
                )
            &&& st.words.flatten() + s.subrange(st.init, n as int) == alphanumerics(
                s.take(n as int),
            )
        }),
    decreases n,
{
    broadcast use Seq::lemma_flatten_push, Seq::lemma_filter_push;

    if n == 0 {
        assert(s.take(0) =~= Seq::<char>::empty());
        reveal(Seq::filter);
        assert(s.subrange(0, 0) =~= Seq::<char>::empty());
    } else {
        let i = n - 1;
        lemma_segment_prefix(s, i as nat);
        let prev = segment_prefix(s, i as nat);
        let st = segment_prefix(s, n);
        let c = s[i];
        let pred = |c: char| alphanumeric(c);
        assert(s.take(n as int) =~= s.take(i).push(c));
        assert(alphanumerics(s.take(n as int)) == if pred(c) {
            alphanumerics(s.take(i)).push(c)
        } else {
            alphanumerics(s.take(i))
        });
        if !alphanumeric(c) {
            assert(prev.init == i);
            assert(s.subrange(prev.init, i) =~= Seq::<char>::empty());
            assert(s.subrange(st.init, n as int) =~= Seq::<char>::empty());
        } else {
            assert(s.subrange(prev.init, n as int) =~= s.subrange(prev.init, i).push(c));
            if st.init == n {
                assert(s.subrange(st.init, n as int) =~= Seq::<char>::empty());
            }
            if st.init == i && prev.init < i {
                assert(s.subrange(i, n as int) =~= seq![c]);
                assert(s.subrange(prev.init, i) + seq![c] =~= s.subrange(prev.init, n as int));
            }
            assert forall|w: int, k: int|
                0 <= w < st.words.len() && 0 <= k < st.words[w].len() implies alphanumeric(
                #[trigger] st.words[w][k],
            ) by {
                if w == prev.words.len() {
                    assert(st.words[w][k] == s[prev.init + k]);
                }
            }
        }
    }
}

/// The words of `s` are never empty, and hold alphanumeric chars only.
pub proof fn lemma_words_are_nonempty_alphanumeric_runs(s: Seq<char>)
    ensures
        forall|w: int| 0 <= w < words_of(s).len() ==> #[trigger] words_of(s)[w].len() > 0,
        forall|w: int, k: int|
            0 <= w < words_of(s).len() && 0 <= k < words_of(s)[w].len() ==> alphanumeric(
                #[trigger] words_of(s)[w][k],
            ),
{
    lemma_segment_prefix(s, s.len());
}

/// Segmenting drops exactly the non-alphanumeric chars: the words, concatenated, are the
/// alphanumeric chars of `s` in order.
pub proof fn lemma_words_keep_every_alphanumeric(s: Seq<char>)
    ensures
        words_of(s).flatten() == alphanumerics(s),
{
    lemma_segment_prefix(s, s.len());
    assert(s.take(s.len() as int) =~= s);
    assert(s.subrange(s.len() as int, s.len() as int) =~= Seq::<char>::empty());
    assert(words_of(s).flatten() + Seq::<char>::empty() =~= words_of(s).flatten());
}

/// The words in `s`, as heck segments them.
pub fn words(s: &str) -> (res: Vec<&str>)
    ensures
        res@.len() == words_of(s@).len(),
        forall|k: int| 0 <= k < res@.len() ==> #[trigger] res@[k]@ == words_of(s@)[k],
{
    let n = s.unicode_len();
    let mut out: Vec<&str> = Vec::new();
    let mut init: usize = 0;
    let mut mode = Mode::Boundary;
    let mut i: usize = 0;
    while i < n
        invariant
            n == s@.len(),
            i <= n,
            init <= i,
            segment_prefix(s@, i as nat).init == init,
            segment_prefix(s@, i as nat).mode == mode,
            out@.len() == segment_prefix(s@, i as nat).words.len(),
            forall|k: int|
                0 <= k < out@.len() ==> #[trigger] out@[k]@ == segment_prefix(
                    s@,
                    i as nat,
                ).words[k],
        decreases n - i,
    {
        let ghost prev = segment_prefix(s@, i as nat);
        let c = s.get_char(i);
        if !is_alphanumeric(c) {
            init = i + 1;
            mode = Mode::Boundary;
        } else {
            let mut next: Option<char> = None;
            if i + 1 < n {
                let candidate = s.get_char(i + 1);
                if is_alphanumeric(candidate) {
                    next = Some(candidate);
                }
            }
            assert(next == next_in_chunk(s@, i as int));
            match next {
                None => {
                    out.push(s.substring_char(init, i + 1));
                    init = i + 1;
                    mode = Mode::Boundary;
                },
                Some(next) => {
                    let next_mode = if is_lowercase(c) {
                        Mode::Lowercase
                    } else if is_uppercase(c) {
                        Mode::Uppercase
                    } else {
                        mode
                    };
                    if next_mode == Mode::Lowercase && is_uppercase(next) {
                        out.push(s.substring_char(init, i + 1));
                        init = i + 1;
                        mode = Mode::Boundary;
                    } else if mode == Mode::Uppercase && is_uppercase(c) && is_lowercase(next) {
                        out.push(s.substring_char(init, i));
                        init = i;
                        mode = Mode::Boundary;
                    } else {
                        mode = next_mode;
                    }
                },
            }
        }
        i = i + 1;
    }
    out
}

/// The lowercase form of `w[j]`, with heck's Greek final-sigma rule: a word-final `Σ`
/// lowercases to `ς` rather than `σ`.
pub open spec fn lower_char(w: Seq<char>, j: int) -> Seq<char> {
    if w[j] == '\u{3a3}' && j + 1 == w.len() {
        seq!['\u{3c2}']
    } else {
        lowercase_mapping(w[j])
    }
}

pub open spec fn lower_prefix(w: Seq<char>, n: nat) -> Seq<char>
    decreases n,
{
    if n == 0 {
        seq![]
    } else {
        lower_prefix(w, (n - 1) as nat) + lower_char(w, n - 1)
    }
}

/// `w` lowercased char by char, a word-final `Σ` becoming `ς`.
pub open spec fn lower_of(w: Seq<char>) -> Seq<char> {
    lower_prefix(w, w.len())
}

pub open spec fn upper_prefix(w: Seq<char>, n: nat) -> Seq<char>
    decreases n,
{
    if n == 0 {
        seq![]
    } else {
        upper_prefix(w, (n - 1) as nat) + uppercase_mapping(w[n - 1])
    }
}

/// `w` uppercased char by char.
pub open spec fn upper_of(w: Seq<char>) -> Seq<char> {
    upper_prefix(w, w.len())
}

/// The first char of `w` uppercased and the rest lowercased.
pub open spec fn capitalize_of(w: Seq<char>) -> Seq<char> {
    if w.len() == 0 {
        seq![]
    } else {
        uppercase_mapping(w[0]) + lower_of(w.drop_first())
    }
}

/// The parts, with `sep` between each two.
pub open spec fn join_of(parts: Seq<Seq<char>>, sep: Seq<char>) -> Seq<char>
    decreases parts.len(),
{
    if parts.len() == 0 {
        seq![]
    } else if parts.len() == 1 {
        parts[0]
    } else {
        join_of(parts.drop_last(), sep) + sep + parts.last()
    }
}

/// The first word lowercased, every later one capitalized, with nothing between.
pub open spec fn lower_camel_of(ws: Seq<Seq<char>>) -> Seq<char>
    decreases ws.len(),
{
    if ws.len() == 0 {
        seq![]
    } else if ws.len() == 1 {
        lower_of(ws[0])
    } else {
        lower_camel_of(ws.drop_last()) + capitalize_of(ws.last())
    }
}

/// Lowercase `word`, with heck's Greek final-sigma rule.
pub fn lower(word: &str) -> (res: String)
    ensures
        res@ == lower_of(word@),
{
    let n = word.unicode_len();
    let mut out = String::new();
    let mut i: usize = 0;
    while i < n
        invariant
            n == word@.len(),
            i <= n,
            out@ == lower_prefix(word@, i as nat),
        decreases n - i,
    {
        let c = word.get_char(i);
        if c == '\u{3a3}' && i + 1 == n {
            push_char(&mut out, '\u{3c2}');
            assert(out@ =~= lower_prefix(word@, i as nat) + lower_char(word@, i as int));
        } else {
            let lowered = to_lowercase(c);
            out.append(lowered.as_str());
        }
        i = i + 1;
    }
    out
}

/// Uppercase `word`, char by char.
pub fn upper(word: &str) -> (res: String)
    ensures
        res@ == upper_of(word@),
{
    let n = word.unicode_len();
    let mut out = String::new();
    let mut i: usize = 0;
    while i < n
        invariant
            n == word@.len(),
            i <= n,
            out@ == upper_prefix(word@, i as nat),
        decreases n - i,
    {
        let c = word.get_char(i);
        let raised = to_uppercase(c);
        out.append(raised.as_str());
        i = i + 1;
    }
    out
}

/// Uppercase the first char of `word` and lowercase the rest.
pub fn capitalize(word: &str) -> (res: String)
    ensures
        res@ == capitalize_of(word@),
{
    let n = word.unicode_len();
    if n == 0 {
        return String::new();
    }
    let first = word.get_char(0);
    let mut out = to_uppercase(first);
    let rest = word.substring_char(1, n);
    assert(rest@ =~= word@.drop_first());
    let lowered = lower(rest);
    out.append(lowered.as_str());
    out
}

/// The words of `s`, each turned by `word`, with `separator` between each two.
///
/// `shape` is what `word` makes of one word's chars.
pub fn join(
    s: &str,
    separator: &str,
    word: impl Fn(&str) -> String,
    Ghost(shape): Ghost<spec_fn(Seq<char>) -> Seq<char>>,
) -> (res: String)
    requires
        forall|w: &str| call_requires(word, (w,)),
        forall|w: &str, r: String| #[trigger] call_ensures(word, (w,), r) ==> r@ == shape(w@),
    ensures
        res@ == join_of(words_of(s@).map_values(shape), separator@),
{
    let ws = words(s);
    let ghost parts = words_of(s@).map_values(shape);
    let mut out = String::new();
    let mut i: usize = 0;
    while i < ws.len()
        invariant
            i <= ws@.len(),
            ws@.len() == words_of(s@).len(),
            forall|k: int| 0 <= k < ws@.len() ==> #[trigger] ws@[k]@ == words_of(s@)[k],
            parts == words_of(s@).map_values(shape),
            forall|w: &str| call_requires(word, (w,)),
            forall|w: &str, r: String| #[trigger] call_ensures(word, (w,), r) ==> r@ == shape(w@),
            out@ == join_of(parts.take(i as int), separator@),
        decreases ws@.len() - i,
    {
        let turned = word(ws[i]);
        assert(parts.take(i + 1).drop_last() =~= parts.take(i as int));
        if i > 0 {
            out.append(separator);
        } else {
            assert(out@ =~= Seq::<char>::empty());
        }
        out.append(turned.as_str());
        i = i + 1;
    }
    assert(parts.take(ws@.len() as int) =~= parts);
    out
}

pub fn to_kebab_case(s: &str) -> (res: String)
    ensures
        res@ == join_of(words_of(s@).map_values(|w: Seq<char>| lower_of(w)), seq!['-']),
{
    let sep = "-";
    proof {
        reveal_strlit("-");
    }
    assert(sep@ =~= seq!['-']);
    join(s, sep, lower, Ghost(|w: Seq<char>| lower_of(w)))
}

pub fn to_snake_case(s: &str) -> (res: String)
    ensures
        res@ == join_of(words_of(s@).map_values(|w: Seq<char>| lower_of(w)), seq!['_']),
{
    let sep = "_";
    proof {
        reveal_strlit("_");
    }
    assert(sep@ =~= seq!['_']);
    join(s, sep, lower, Ghost(|w: Seq<char>| lower_of(w)))
}

pub fn to_shouty_snake_case(s: &str) -> (res: String)
    ensures
        res@ == join_of(words_of(s@).map_values(|w: Seq<char>| upper_of(w)), seq!['_']),
{
    let sep = "_";
    proof {
        reveal_strlit("_");
    }
    assert(sep@ =~= seq!['_']);
    join(s, sep, upper, Ghost(|w: Seq<char>| upper_of(w)))
}

pub fn to_upper_camel_case(s: &str) -> (res: String)
    ensures
        res@ == join_of(words_of(s@).map_values(|w: Seq<char>| capitalize_of(w)), seq![]),
{
    proof {
        reveal_strlit("");
    }
    join(s, "", capitalize, Ghost(|w: Seq<char>| capitalize_of(w)))
}

pub fn to_lower_camel_case(s: &str) -> (res: String)
    ensures
        res@ == lower_camel_of(words_of(s@)),
{
    let ws = words(s);
    let ghost all = words_of(s@);
    let mut out = String::new();
    let mut i: usize = 0;
    while i < ws.len()
        invariant
            i <= ws@.len(),
            ws@.len() == all.len(),
            all == words_of(s@),
            forall|k: int| 0 <= k < ws@.len() ==> #[trigger] ws@[k]@ == all[k],
            out@ == lower_camel_of(all.take(i as int)),
        decreases ws@.len() - i,
    {
        assert(all.take(i + 1).drop_last() =~= all.take(i as int));
        if i == 0 {
            let lowered = lower(ws[i]);
            assert(out@ =~= Seq::<char>::empty());
            out.append(lowered.as_str());
        } else {
            let raised = capitalize(ws[i]);
            out.append(raised.as_str());
        }
        i = i + 1;
    }
    assert(all.take(ws@.len() as int) =~= all);
    out
}

/// What the `i`th char of `s` becomes in the default naming policy's kebab case: an
/// uppercase char is lowered and starts a new word, an underscore is a hyphen.
pub open spec fn default_kebab_char(s: Seq<char>, i: int) -> Seq<char> {
    if uppercase(s[i]) {
        (if i > 0 {
            seq!['-']
        } else {
            seq![]
        }) + lowercase_mapping(s[i])
    } else if s[i] == '_' {
        seq!['-']
    } else {
        seq![s[i]]
    }
}

pub open spec fn default_kebab_prefix(s: Seq<char>, n: nat) -> Seq<char>
    decreases n,
{
    if n == 0 {
        seq![]
    } else {
        default_kebab_prefix(s, (n - 1) as nat) + default_kebab_char(s, n - 1)
    }
}

/// The default naming policy's kebab case, used where no `rename_all` is given: it breaks
/// before every uppercase char, so `HTTPServer` is `h-t-t-p-server`.
pub open spec fn default_kebab_of(s: Seq<char>) -> Seq<char> {
    default_kebab_prefix(s, s.len())
}

/// A name in the default naming policy's kebab case.
pub fn to_kebab(s: &str) -> (res: String)
    ensures
        res@ == default_kebab_of(s@),
{
    let n = s.unicode_len();
    let mut out = String::new();
    let mut i: usize = 0;
    while i < n
        invariant
            n == s@.len(),
            i <= n,
            out@ == default_kebab_prefix(s@, i as nat),
        decreases n - i,
    {
        let c = s.get_char(i);
        if is_uppercase(c) {
            if i > 0 {
                push_char(&mut out, '-');
            }
            let lowered = to_lowercase(c);
            out.append(lowered.as_str());
        } else if c == '_' {
            push_char(&mut out, '-');
        } else {
            push_char(&mut out, c);
        }
        assert(out@ =~= default_kebab_prefix(s@, i as nat) + default_kebab_char(s@, i as int));
        i = i + 1;
    }
    out
}

/// `u` with its first char lowercased and the rest as they are.
pub open spec fn lower_first(u: Seq<char>) -> Seq<char> {
    if u.len() == 0 {
        u
    } else {
        lowercase_mapping(u[0]) + u.drop_first()
    }
}

proof fn lemma_lower_prefix_first(w: Seq<char>, n: nat)
    requires
        1 <= n <= w.len(),
    ensures
        lower_prefix(w, n) == lower_char(w, 0) + lower_prefix(w.drop_first(), (n - 1) as nat),
    decreases n,
{
    if n == 1 {
        assert(lower_prefix(w.drop_first(), 0) =~= Seq::<char>::empty());
        assert(lower_prefix(w, 0) =~= Seq::<char>::empty());
        assert(lower_prefix(w, 1) =~= lower_char(w, 0));
    } else {
        lemma_lower_prefix_first(w, (n - 1) as nat);
        assert(lower_char(w, n - 1) == lower_char(w.drop_first(), n - 2));
        assert(lower_prefix(w, n) =~= lower_char(w, 0) + lower_prefix(
            w.drop_first(),
            (n - 1) as nat,
        ));
    }
}

/// The parts, capitalized and joined with nothing between them.
pub open spec fn upper_camel_of(ws: Seq<Seq<char>>) -> Seq<char> {
    join_of(ws.map_values(|w: Seq<char>| capitalize_of(w)), seq![])
}

proof fn lemma_lower_camel_words(ws: Seq<Seq<char>>)
    requires
        ws.len() > 0,
        forall|k: int| 0 <= k < ws.len() ==> #[trigger] ws[k].len() > 0,
        crate::unicode::is_ascii(ws[0][0]),
        alphanumeric(ws[0][0]),
    ensures
        upper_camel_of(ws).len() > 0,
        lower_camel_of(ws) == lower_first(upper_camel_of(ws)),
    decreases ws.len(),
{
    let caps = ws.map_values(|w: Seq<char>| capitalize_of(w));
    if ws.len() == 1 {
        let w = ws[0];
        lemma_lower_prefix_first(w, w.len());
        assert(caps[0] == capitalize_of(w));
        assert(join_of(caps, seq![]) == caps[0]);
        assert(lower_first(capitalize_of(w)) =~= lower_of(w));
    } else {
        let init = ws.drop_last();
        lemma_lower_camel_words(init);
        assert(init.map_values(|w: Seq<char>| capitalize_of(w)) =~= caps.drop_last());
        assert(caps.last() == capitalize_of(ws.last()));
        let a = upper_camel_of(init);
        let b = capitalize_of(ws.last());
        assert(upper_camel_of(ws) == a + seq![] + b);
        assert(lower_first(a + seq![] + b) =~= lower_first(a) + b);
    }
}

/// On ASCII input, lower camel case is upper camel case with its first char lowercased.
pub proof fn lemma_lower_camel_is_upper_camel_lowered_first(s: Seq<char>)
    requires
        forall|i: int| 0 <= i < s.len() ==> crate::unicode::is_ascii(#[trigger] s[i]),
    ensures
        lower_camel_of(words_of(s)) == lower_first(upper_camel_of(words_of(s))),
{
    let ws = words_of(s);
    lemma_words_are_nonempty_alphanumeric_runs(s);
    if ws.len() == 0 {
        assert(ws.map_values(|w: Seq<char>| capitalize_of(w)).len() == 0);
    } else {
        lemma_words_keep_every_alphanumeric(s);
        let c = ws[0][0];
        assert(ws.flatten() == ws.first() + ws.drop_first().flatten());
        assert(ws.flatten()[0] == c);
        assert(alphanumerics(s).contains(c));
        s.lemma_filter_contains_rev(|c: char| alphanumeric(c), c);
        assert(alphanumeric(c));
        lemma_lower_camel_words(ws);
    }
}

/// A char kebab case leaves as it is: an ASCII lowercase letter or digit.
pub open spec fn plain_char(c: char) -> bool {
    ('a' <= c && c <= 'z') || ('0' <= c && c <= '9')
}

pub open spec fn plain_word(w: Seq<char>) -> bool {
    w.len() > 0 && forall|k: int| 0 <= k < w.len() ==> plain_char(#[trigger] w[k])
}

/// What kebab case makes of `s`.
pub open spec fn kebab_of(s: Seq<char>) -> Seq<char> {
    join_of(words_of(s).map_values(|w: Seq<char>| lower_of(w)), seq!['-'])
}

proof fn lemma_same_prefix_same_segmentation(s: Seq<char>, t: Seq<char>, n: nat)
    requires
        n <= s.len(),
        n <= t.len(),
        forall|i: int| 0 <= i < n ==> s[i] == t[i],
        forall|i: int| 0 <= i < n ==> next_in_chunk(s, i) == next_in_chunk(t, i),
    ensures
        segment_prefix(s, n) == segment_prefix(t, n),
        segment_prefix(s, n).init <= n,
    decreases n,
{
    if n > 0 {
        lemma_same_prefix_same_segmentation(s, t, (n - 1) as nat);
        lemma_segment_prefix(s, (n - 1) as nat);
        let st = segment_prefix(s, (n - 1) as nat);
        let i = n - 1;
        assert(s.subrange(st.init, i + 1) =~= t.subrange(st.init, i + 1));
        assert(s.subrange(st.init, i) =~= t.subrange(st.init, i));
    }
}

/// Reading a run of plain chars that the string ends with, or that a separator follows, from a
/// boundary closes exactly that run as one word.
proof fn lemma_plain_run(s: Seq<char>, p: int, m: int, j: int)
    requires
        0 <= p,
        1 <= m,
        p + m <= s.len(),
        0 <= j <= m,
        forall|k: int| p <= k < p + m ==> plain_char(#[trigger] s[k]),
        p + m < s.len() ==> !alphanumeric(s[p + m]),
        segment_prefix(s, p as nat).init == p,
        segment_prefix(s, p as nat).mode == Mode::Boundary,
    ensures
        j < m ==> segment_prefix(s, (p + j) as nat).words == segment_prefix(s, p as nat).words
            && segment_prefix(s, (p + j) as nat).init == p && segment_prefix(s, (p + j) as nat).mode
            != Mode::Uppercase,
        j == m ==> segment_prefix(s, (p + m) as nat) == (Segmentation {
            words: segment_prefix(s, p as nat).words.push(s.subrange(p, p + m)),
            init: p + m,
            mode: Mode::Boundary,
        }),
    decreases j,
{
    if j > 0 {
        lemma_plain_run(s, p, m, j - 1);
        let i = p + j - 1;
        assert(plain_char(s[i]));
        if j < m {
            assert(plain_char(s[i + 1]));
        }
    }
}

proof fn lemma_join_plain_words(ws: Seq<Seq<char>>)
    requires
        ws.len() > 0,
        forall|k: int| 0 <= k < ws.len() ==> plain_word(#[trigger] ws[k]),
    ensures
        ({
            let t = join_of(ws, seq!['-']);
            &&& t.len() > 0
            &&& alphanumeric(t.last())
            &&& forall|k: int| 0 <= k < t.len() ==> plain_char(#[trigger] t[k]) || t[k] == '-'
            &&& segment_prefix(t, t.len()) == (Segmentation {
                words: ws,
                init: t.len() as int,
                mode: Mode::Boundary,
            })
        }),
    decreases ws.len(),
{
    let t = join_of(ws, seq!['-']);
    if ws.len() == 1 {
        let w = ws[0];
        assert(t == w);
        lemma_plain_run(t, 0, w.len() as int, w.len() as int);
        assert(t.subrange(0, t.len() as int) =~= t);
        assert(seq![].push(w) =~= ws);
    } else {
        let init = ws.drop_last();
        let b = ws.last();
        let a = join_of(init, seq!['-']);
        lemma_join_plain_words(init);
        assert(t == a + seq!['-'] + b);
        let n: int = a.len() as int;
        assert forall|i: int| 0 <= i < n implies a[i] == t[i] by {}
        assert forall|i: int| 0 <= i < n implies next_in_chunk(a, i) == next_in_chunk(t, i) by {
            if i + 1 < n {
                assert(a[i + 1] == t[i + 1]);
            } else {
                assert(t[i + 1] == '-');
            }
        }
        lemma_same_prefix_same_segmentation(a, t, n as nat);
        assert(t[n as int] == '-');
        assert(segment_prefix(t, (n + 1) as nat) == (Segmentation {
            words: init,
            init: n + 1,
            mode: Mode::Boundary,
        }));
        assert forall|k: int| n + 1 <= k < n + 1 + b.len() implies plain_char(#[trigger] t[k]) by {
            assert(t[k] == b[k - n - 1]);
        }
        lemma_plain_run(t, n + 1, b.len() as int, b.len() as int);
        assert(t.subrange(n + 1, n + 1 + b.len()) =~= b);
        assert(init.push(b) =~= ws);
        assert forall|k: int| 0 <= k < t.len() implies plain_char(#[trigger] t[k]) || t[k] == '-' by {
            if k < n {
                assert(t[k] == a[k]);
            } else if k > n {
                assert(t[k] == b[k - n - 1]);
            }
        }
        assert(t.last() == b.last());
    }
}

proof fn lemma_lower_ascii_word(w: Seq<char>, n: nat)
    requires
        n <= w.len(),
        forall|k: int| 0 <= k < w.len() ==> crate::unicode::is_ascii(#[trigger] w[k]) && alphanumeric(w[k]),
    ensures
        lower_prefix(w, n).len() == n,
        forall|k: int| 0 <= k < n ==> plain_char(#[trigger] lower_prefix(w, n)[k]),
        forall|k: int|
            0 <= k < n ==> !('A' <= w[k] && w[k] <= 'Z') ==> #[trigger] lower_prefix(w, n)[k] == w[k],
    decreases n,
{
    if n > 0 {
        lemma_lower_ascii_word(w, (n - 1) as nat);
        let c = w[n - 1];
        assert(crate::unicode::is_ascii(c) && alphanumeric(c));
        assert(c != '\u{3a3}');
        let prev = lower_prefix(w, (n - 1) as nat);
        assert(lower_prefix(w, n) == prev + lowercase_mapping(c));
        if 'A' <= c && c <= 'Z' {
            assert('a' <= ((c as u32) + 32) as char);
            assert(((c as u32) + 32) as char <= 'z');
        }
        assert forall|k: int| 0 <= k < n implies plain_char(#[trigger] lower_prefix(w, n)[k]) by {
            if k < n - 1 {
                assert(lower_prefix(w, n)[k] == prev[k]);
            }
        }
        assert forall|k: int| 0 <= k < n && !('A' <= w[k] && w[k] <= 'Z') implies #[trigger] lower_prefix(
            w,
            n,
        )[k] == w[k] by {
            if k < n - 1 {
                assert(lower_prefix(w, n)[k] == prev[k]);
            }
        }
    }
}

proof fn lemma_words_chars_from_s(s: Seq<char>, ws: Seq<Seq<char>>, w: int, k: int)
    requires
        ws.flatten() == alphanumerics(s),
        0 <= w < ws.len(),
        0 <= k < ws[w].len(),
    ensures
        s.contains(ws[w][k]),
    decreases ws.len(),
{
    let c = ws[w][k];
    assert(ws.flatten() == ws.first() + ws.drop_first().flatten());
    if w == 0 {
        assert(ws.flatten()[k] == c);
    } else {
        lemma_flatten_member(ws.drop_first(), w - 1, k);
        let j = choose|j: int| 0 <= j < ws.drop_first().flatten().len() && ws.drop_first().flatten()[j] == c;
        assert(ws.flatten()[ws.first().len() + j] == c);
    }
    assert(alphanumerics(s).contains(c));
    s.lemma_filter_contains_rev(|c: char| alphanumeric(c), c);
}

proof fn lemma_flatten_member(ws: Seq<Seq<char>>, w: int, k: int)
    requires
        0 <= w < ws.len(),
        0 <= k < ws[w].len(),
    ensures
        exists|j: int| 0 <= j < ws.flatten().len() && ws.flatten()[j] == ws[w][k],
    decreases ws.len(),
{
    assert(ws.flatten() == ws.first() + ws.drop_first().flatten());
    if w == 0 {
        assert(ws.flatten()[k] == ws[w][k]);
    } else {
        lemma_flatten_member(ws.drop_first(), w - 1, k);
        let j = choose|j: int|
            0 <= j < ws.drop_first().flatten().len() && ws.drop_first().flatten()[j] == ws[w][k];
        assert(ws.flatten()[ws.first().len() + j] == ws[w][k]);
    }
}

/// On ASCII input, kebab case is idempotent: a kebab-cased string kebab-cases to itself.
pub proof fn lemma_kebab_is_idempotent(s: Seq<char>)
    requires
        forall|i: int| 0 <= i < s.len() ==> crate::unicode::is_ascii(#[trigger] s[i]),
    ensures
        kebab_of(kebab_of(s)) == kebab_of(s),
{
    let ws = words_of(s);
    let ls = ws.map_values(|w: Seq<char>| lower_of(w));
    let t = kebab_of(s);
    lemma_words_are_nonempty_alphanumeric_runs(s);
    lemma_words_keep_every_alphanumeric(s);
    assert forall|w: int| 0 <= w < ls.len() implies plain_word(#[trigger] ls[w]) by {
        assert forall|k: int| 0 <= k < ws[w].len() implies crate::unicode::is_ascii(
            #[trigger] ws[w][k],
        ) && alphanumeric(ws[w][k]) by {
            lemma_words_chars_from_s(s, ws, w, k);
        }
        lemma_lower_ascii_word(ws[w], ws[w].len());
    }
    if ls.len() == 0 {
        assert(t =~= Seq::<char>::empty());
        assert(segment_prefix(t, 0).words =~= Seq::<Seq<char>>::empty());
        assert(words_of(t).map_values(|w: Seq<char>| lower_of(w)) =~= Seq::<Seq<char>>::empty());
    } else {
        lemma_join_plain_words(ls);
        assert(words_of(t) == ls);
        assert forall|w: int| 0 <= w < ls.len() implies #[trigger] lower_of(ls[w]) == ls[w] by {
            assert forall|k: int| 0 <= k < ls[w].len() implies crate::unicode::is_ascii(
                #[trigger] ls[w][k],
            ) && alphanumeric(ls[w][k]) by {
                assert(plain_char(ls[w][k]));
            }
            lemma_lower_ascii_word(ls[w], ls[w].len());
            assert(lower_of(ls[w]) =~= ls[w]);
        }
        assert(ls.map_values(|w: Seq<char>| lower_of(w)) =~= ls);
    }
}

/// `c` with an ASCII small letter raised.
pub open spec fn ascii_raised(c: char) -> char {
    if 'a' <= c && c <= 'z' {
        ((c as u32) - 32) as char
    } else {
        c
    }
}

/// `s` with every `-` turned into `_`.
pub open spec fn dashes_to_underscores(s: Seq<char>) -> Seq<char> {
    s.map_values(|c: char| if c == '-' { '_' } else { c })
}

proof fn lemma_join_maps(ws: Seq<Seq<char>>, a: char, f: spec_fn(char) -> char)
    ensures
        join_of(ws, seq![a]).map_values(f) == join_of(ws.map_values(|w: Seq<char>| w.map_values(f)), seq![f(a)]),
    decreases ws.len(),
{
    let g = |w: Seq<char>| w.map_values(f);
    if ws.len() == 1 {
        assert(ws.map_values(g)[0] == ws[0].map_values(f));
    } else if ws.len() > 1 {
        lemma_join_maps(ws.drop_last(), a, f);
        assert(ws.map_values(g).drop_last() =~= ws.drop_last().map_values(g));
        assert(ws.map_values(g).last() == ws.last().map_values(f));
        let left = join_of(ws.drop_last(), seq![a]);
        assert((left + seq![a] + ws.last()).map_values(f) =~= left.map_values(f) + seq![f(a)] + ws.last().map_values(f));
    } else {
        assert(ws.map_values(g).len() == 0);
        assert(join_of(ws, seq![a]).map_values(f) =~= Seq::<char>::empty());
    }
}

proof fn lemma_upper_is_raised_lower(w: Seq<char>, n: nat)
    requires
        n <= w.len(),
        forall|k: int| 0 <= k < w.len() ==> crate::unicode::is_ascii(#[trigger] w[k]) && alphanumeric(w[k]),
    ensures
        upper_prefix(w, n) == lower_prefix(w, n).map_values(|c: char| ascii_raised(c)),
        forall|k: int| 0 <= k < n ==> #[trigger] lower_prefix(w, n)[k] != '-',
    decreases n,
{
    lemma_lower_ascii_word(w, n);
    if n > 0 {
        lemma_upper_is_raised_lower(w, (n - 1) as nat);
        let c = w[n - 1];
        assert(crate::unicode::is_ascii(c) && alphanumeric(c));
        assert(c != '\u{3a3}');
        let lp = lower_prefix(w, (n - 1) as nat);
        assert(lower_prefix(w, n) == lp + lowercase_mapping(c));
        assert(upper_prefix(w, n) == upper_prefix(w, (n - 1) as nat) + uppercase_mapping(c));
        if 'A' <= c && c <= 'Z' {
            let l = ((c as u32) + 32) as char;
            assert('a' <= l && l <= 'z');
            assert(((l as u32) - 32) as char == c);
        } else if 'a' <= c && c <= 'z' {
        }
        assert((lp + lowercase_mapping(c)).map_values(|c: char| ascii_raised(c)) =~= lp.map_values(|c: char| ascii_raised(c))
            + lowercase_mapping(c).map_values(|c: char| ascii_raised(c)));
        assert(lowercase_mapping(c).map_values(|c: char| ascii_raised(c)) =~= uppercase_mapping(c));
        assert forall|k: int| 0 <= k < n implies #[trigger] lower_prefix(w, n)[k] != '-' by {
            assert(plain_char(lower_prefix(w, n)[k]));
        }
    }
}

/// On ASCII input, snake case is kebab case with `_` for `-`, and shouty snake case is snake
/// case with its small letters raised.
pub proof fn lemma_snake_and_shouty_follow_kebab(s: Seq<char>)
    requires
        forall|i: int| 0 <= i < s.len() ==> crate::unicode::is_ascii(#[trigger] s[i]),
    ensures
        join_of(words_of(s).map_values(|w: Seq<char>| lower_of(w)), seq!['_']) == dashes_to_underscores(kebab_of(s)),
        join_of(words_of(s).map_values(|w: Seq<char>| upper_of(w)), seq!['_']) == join_of(
            words_of(s).map_values(|w: Seq<char>| lower_of(w)),
            seq!['_'],
        ).map_values(|c: char| ascii_raised(c)),
{
    let ws = words_of(s);
    let ls = ws.map_values(|w: Seq<char>| lower_of(w));
    let us = ws.map_values(|w: Seq<char>| upper_of(w));
    lemma_words_are_nonempty_alphanumeric_runs(s);
    lemma_words_keep_every_alphanumeric(s);
    let dash = |c: char| if c == '-' { '_' } else { c };
    let raise = |c: char| ascii_raised(c);
    lemma_join_maps(ls, '-', dash);
    lemma_join_maps(ls, '_', raise);
    assert forall|w: int| 0 <= w < ws.len() implies (#[trigger] ls[w]).map_values(dash) == ls[w] && us[w] == ls[w].map_values(raise) by {
        assert forall|k: int| 0 <= k < ws[w].len() implies crate::unicode::is_ascii(#[trigger] ws[w][k]) && alphanumeric(ws[w][k]) by {
            lemma_words_chars_from_s(s, ws, w, k);
        }
        lemma_upper_is_raised_lower(ws[w], ws[w].len());
        lemma_lower_ascii_word(ws[w], ws[w].len());
        assert(ls[w] == lower_of(ws[w]));
        assert(us[w] == upper_of(ws[w]));
        assert forall|k: int| 0 <= k < ls[w].len() implies #[trigger] ls[w].map_values(dash)[k] == ls[w][k] by {
            assert(lower_prefix(ws[w], ws[w].len())[k] != '-');
        }
        assert(ls[w].map_values(dash) =~= ls[w]);
    }
    assert(ls.map_values(|w: Seq<char>| w.map_values(dash)) =~= ls);
    assert(ls.map_values(|w: Seq<char>| w.map_values(raise)) =~= us);
    assert(dash('-') == '_');
    assert(raise('_') == '_');
}

} // verus!
