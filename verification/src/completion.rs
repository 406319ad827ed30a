//! How a CLI built by the derive reads a completion request: the hidden first word
//! `__complete_word__` followed by its own flags, read by hand and outside the parser's tables.
//!
//! A shell passing something this version does not know is ignored rather than refused: a
//! completion that errors out is a shell that beeps at every keystroke.

use vstd::prelude::*;

use crate::text::str_eq;

verus! {

broadcast use vstd::seq_lib::group_seq_properties;

pub open spec fn is_digit(c: char) -> bool {
    '0' <= c && c <= '9'
}

/// The number the decimal digits `d` write.
pub open spec fn digits_value(d: Seq<char>) -> int
    decreases d.len(),
{
    if d.len() == 0 {
        0
    } else {
        digits_value(d.drop_last()) * 10 + (d.last() as int - '0' as int)
    }
}

/// `s` without the one `+` it may start with.
pub open spec fn unsigned_digits(s: Seq<char>) -> Seq<char> {
    if s.len() > 0 && s[0] == '+' {
        s.drop_first()
    } else {
        s
    }
}

/// What `str::parse::<usize>` makes of `s`: an optional `+`, then at least one decimal digit
/// and nothing else, writing a number that fits a `usize`.
#[verifier::opaque]
pub open spec fn parsed_usize(s: Seq<char>) -> Option<usize> {
    let d = unsigned_digits(s);
    if d.len() > 0 && (forall|k: int| 0 <= k < d.len() ==> is_digit(#[trigger] d[k]))
        && digits_value(d) <= usize::MAX {
        Some(digits_value(d) as usize)
    } else {
        None
    }
}

proof fn lemma_digits_value_grows(d: Seq<char>, k: int)
    requires
        0 <= k <= d.len(),
        forall|j: int| 0 <= j < d.len() ==> is_digit(#[trigger] d[j]),
    ensures
        0 <= digits_value(d.take(k)) <= digits_value(d),
    decreases d.len(),
{
    if d.len() > 0 {
        let init = d.drop_last();
        if k == d.len() {
            assert(d.take(k) =~= d);
            lemma_digits_value_grows(init, k - 1);
            assert(init.take(k - 1) =~= init);
        } else {
            lemma_digits_value_grows(init, k);
            assert(init.take(k) =~= d.take(k));
            lemma_digits_value_grows(init, init.len() as int);
            assert(init.take(init.len() as int) =~= init);
        }
    } else {
        assert(d.take(k) =~= d);
    }
}

/// `str::parse::<usize>`, written out: an optional `+`, then decimal digits that fit.
fn parse_usize(s: &str) -> (res: Option<usize>)
    ensures
        res == parsed_usize(s@),
{
    reveal(parsed_usize);
    let n = s.unicode_len();
    let mut start: usize = 0;
    if n > 0 && s.get_char(0) == '+' {
        start = 1;
    }
    let ghost d = unsigned_digits(s@);
    assert(d =~= s@.skip(start as int));
    assert(d.len() == n - start);
    if start == n {
        assert(parsed_usize(s@) is None);
        return None;
    }
    let mut value: usize = 0;
    let mut i: usize = start;
    while i < n
        invariant
            n == s@.len(),
            start <= i <= n,
            d == s@.skip(start as int),
            d == unsigned_digits(s@),
            forall|k: int| 0 <= k < i - start ==> is_digit(#[trigger] d[k]),
            value as int == digits_value(d.take(i - start)),
        decreases n - i,
    {
        proof {
            reveal(parsed_usize);
        }
        let c = s.get_char(i);
        if c < '0' || c > '9' {
            assert(d[i - start] == c);
            assert(!is_digit(d[i - start]));
            assert(!(forall|k: int| 0 <= k < d.len() ==> is_digit(#[trigger] d[k])));
            return None;
        }
        let digit: usize = ((c as u32) - ('0' as u32)) as usize;
        assert(d.take(i - start + 1).drop_last() =~= d.take(i - start));
        assert(d.take(i - start + 1).last() == c);
        match value.checked_mul(10) {
            None => {
                proof {
                    if forall|k: int| 0 <= k < d.len() ==> is_digit(#[trigger] d[k]) {
                        lemma_digits_value_grows(d, i - start + 1);
                    }
                }
                return None;
            },
            Some(tens) => match tens.checked_add(digit) {
                None => {
                    proof {
                        if forall|k: int| 0 <= k < d.len() ==> is_digit(#[trigger] d[k]) {
                            lemma_digits_value_grows(d, i - start + 1);
                        }
                    }
                    return None;
                },
                Some(next) => {
                    value = next;
                },
            },
        }
        i = i + 1;
    }
    assert(d.take(n - start) =~= d);
    Some(value)
}

/// What a completion request asks for.
pub struct CompletionRequest {
    /// Every name given to `--shell`, in order; the last one the shell list knows wins.
    pub shells: Vec<String>,
    /// `--line`: the command line being completed.
    pub line: String,
    /// `--cursor`: where in the line, when it was given as a number.
    pub cursor: Option<usize>,
    /// `--candidates`: one named completer whose answers are wanted.
    pub candidates_for: Option<String>,
    /// `--words`: the words, already split, when the shell hands them so.
    pub words: Option<Vec<String>>,
}

/// A request as the flags read so far make it.
pub struct RequestView {
    pub shells: Seq<Seq<char>>,
    pub line: Seq<char>,
    pub cursor: Option<usize>,
    pub candidates_for: Option<Seq<char>>,
    pub words: Option<Seq<Seq<char>>>,
}

pub open spec fn strings_of(v: Seq<String>) -> Seq<Seq<char>> {
    v.map_values(|s: String| s@)
}

pub open spec fn request_view(r: CompletionRequest) -> RequestView {
    RequestView {
        shells: strings_of(r.shells@),
        line: r.line@,
        cursor: r.cursor,
        candidates_for: match r.candidates_for {
            Some(c) => Some(c@),
            None => None,
        },
        words: match r.words {
            Some(w) => Some(strings_of(w@)),
            None => None,
        },
    }
}

/// The flags `args` read from position `i` on, onto the request `r`. A flag that takes a
/// value and is last takes none; `--cursor` then, or with a word that is not a number, says
/// nothing of the cursor; `--words` takes everything after it.
pub open spec fn read_request(args: Seq<Seq<char>>, i: int, r: RequestView) -> RequestView
    decreases args.len() - i,
{
    if i < 0 || i >= args.len() {
        r
    } else {
        let has_next = i + 1 < args.len();
        let next = args[i + 1];
        if args[i] == "--shell"@ {
            if has_next {
                read_request(args, i + 2, RequestView { shells: r.shells.push(next), ..r })
            } else {
                r
            }
        } else if args[i] == "--line"@ {
            if has_next {
                read_request(args, i + 2, RequestView { line: next, ..r })
            } else {
                r
            }
        } else if args[i] == "--cursor"@ {
            if has_next {
                read_request(args, i + 2, RequestView { cursor: parsed_usize(next), ..r })
            } else {
                RequestView { cursor: None, ..r }
            }
        } else if args[i] == "--candidates"@ {
            if has_next {
                read_request(args, i + 2, RequestView { candidates_for: Some(next), ..r })
            } else {
                RequestView { candidates_for: None, ..r }
            }
        } else if args[i] == "--words"@ {
            RequestView { words: Some(args.skip(i + 1)), ..r }
        } else {
            read_request(args, i + 1, r)
        }
    }
}

pub open spec fn empty_request() -> RequestView {
    RequestView { shells: seq![], line: seq![], cursor: None, candidates_for: None, words: None }
}

/// The request `argv` makes, if its first word is `__complete_word__`.
pub open spec fn completion_request_of(argv: Seq<Seq<char>>) -> Option<RequestView> {
    if argv.len() > 0 && argv[0] == "__complete_word__"@ {
        Some(read_request(argv, 1, empty_request()))
    } else {
        None
    }
}

fn copy_strings(v: &Vec<String>, from: usize) -> (res: Vec<String>)
    requires
        from <= v@.len(),
    ensures
        strings_of(res@) == strings_of(v@).skip(from as int),
{
    let mut out: Vec<String> = Vec::new();
    let mut k: usize = from;
    while k < v.len()
        invariant
            from <= k <= v@.len(),
            strings_of(out@) == strings_of(v@).subrange(from as int, k as int),
        decreases v@.len() - k,
    {
        let ghost before = out@;
        out.push(v[k].clone());
        assert(strings_of(out@) =~= strings_of(before).push(v@[k as int]@));
        assert(strings_of(v@).subrange(from as int, k + 1) =~= strings_of(v@).subrange(
            from as int,
            k as int,
        ).push(v@[k as int]@));
        k = k + 1;
    }
    assert(strings_of(v@).subrange(from as int, v@.len() as int) =~= strings_of(v@).skip(
        from as int,
    ));
    out
}

/// A completion request, from the process's arguments as text: `None` unless the first one
/// is `__complete_word__`.
pub fn completion_request(argv: &Vec<String>) -> (res: Option<CompletionRequest>)
    ensures
        match res {
            Some(r) => completion_request_of(strings_of(argv@)) == Some(request_view(r)),
            None => completion_request_of(strings_of(argv@)) is None,
        },
{
    let ghost args = strings_of(argv@);
    if argv.len() == 0 || !str_eq(argv[0].as_str(), "__complete_word__") {
        return None;
    }
    let mut shells: Vec<String> = Vec::new();
    let mut line = String::new();
    let mut cursor: Option<usize> = None;
    let mut candidates_for: Option<String> = None;
    let mut words: Option<Vec<String>> = None;
    let ghost start = empty_request();
    assert(request_view(
        CompletionRequest { shells, line, cursor, candidates_for, words },
    ) =~= start) by {
        assert(strings_of(shells@) =~= seq![]);
    }
    let mut i: usize = 1;
    while i < argv.len()
        invariant_except_break
            read_request(args, 1, start) == read_request(
                args,
                i as int,
                request_view(CompletionRequest { shells, line, cursor, candidates_for, words }),
            ),
        invariant
            1 <= i <= argv@.len(),
            args == strings_of(argv@),
        ensures
            read_request(args, 1, start) == request_view(
                CompletionRequest { shells, line, cursor, candidates_for, words },
            ),
        decreases argv@.len() - i,
    {
        let arg = argv[i].as_str();
        let has_next = i + 1 < argv.len();
        if str_eq(arg, "--shell") {
            if !has_next {
                break;
            }
            let ghost old_shells = shells@;
            shells.push(argv[i + 1].clone());
            assert(strings_of(shells@) =~= strings_of(old_shells).push(args[i + 1]));
            i = i + 2;
        } else if str_eq(arg, "--line") {
            if !has_next {
                break;
            }
            line = argv[i + 1].clone();
            i = i + 2;
        } else if str_eq(arg, "--cursor") {
            if !has_next {
                cursor = None;
                break;
            }
            cursor = parse_usize(argv[i + 1].as_str());
            i = i + 2;
        } else if str_eq(arg, "--candidates") {
            if !has_next {
                candidates_for = None;
                break;
            }
            candidates_for = Some(argv[i + 1].clone());
            i = i + 2;
        } else if str_eq(arg, "--words") {
            words = Some(copy_strings(argv, i + 1));
            break;
        } else {
            i = i + 1;
        }
    }
    let r = CompletionRequest { shells, line, cursor, candidates_for, words };
    Some(r)
}

/// The words a completer sees when the shell split them: never none, the last being the one
/// under the cursor.
pub open spec fn completion_words_of(words: Seq<Seq<char>>) -> Seq<Seq<char>> {
    if words.len() == 0 {
        seq![seq![]]
    } else {
        words
    }
}

/// The split words, with the index and text of the word being completed.
pub fn completion_words(words: Vec<String>) -> (res: (Vec<String>, usize, String))
    ensures
        strings_of(res.0@) == completion_words_of(strings_of(words@)),
        res.1 + 1 == res.0@.len(),
        res.2@ == res.0@[res.1 as int]@,
{
    let mut words = words;
    if words.len() == 0 {
        words.push(String::new());
        assert(strings_of(words@) =~= seq![Seq::<char>::empty()]);
    }
    let cword = words.len() - 1;
    let prefix = words[cword].clone();
    (words, cword, prefix)
}

proof fn lemma_read_request_shift(w: Seq<char>, rest: Seq<Seq<char>>, i: int, r: RequestView)
    requires
        0 <= i,
    ensures
        read_request(seq![w] + rest, i + 1, r) == read_request(rest, i, r),
    decreases rest.len() - i,
{
    let args = seq![w] + rest;
    if i < rest.len() {
        assert(args[i + 1] == rest[i]);
        if i + 1 < rest.len() {
            assert(args[i + 2] == rest[i + 1]);
        }
        assert(args.skip(i + 2) =~= rest.skip(i + 1));
        let a = rest[i];
        if a == "--shell"@ || a == "--line"@ || a == "--cursor"@ || a == "--candidates"@ {
            if i + 1 < rest.len() {
                lemma_read_request_shift(w, rest, i + 2, RequestView { shells: r.shells.push(rest[i + 1]), ..r });
                lemma_read_request_shift(w, rest, i + 2, RequestView { line: rest[i + 1], ..r });
                lemma_read_request_shift(w, rest, i + 2, RequestView { cursor: parsed_usize(rest[i + 1]), ..r });
                lemma_read_request_shift(w, rest, i + 2, RequestView { candidates_for: Some(rest[i + 1]), ..r });
            }
        } else if a != "--words"@ {
            lemma_read_request_shift(w, rest, i + 1, r);
        }
    }
}

/// A word the request does not know is ignored rather than refused: putting one in front of
/// the flags changes nothing they say. A request is recognized only by its first word.
pub proof fn lemma_unknown_words_are_ignored(w: Seq<char>, rest: Seq<Seq<char>>, r: RequestView, argv: Seq<Seq<char>>)
    requires
        w != "--shell"@,
        w != "--line"@,
        w != "--cursor"@,
        w != "--candidates"@,
        w != "--words"@,
    ensures
        read_request(seq![w] + rest, 0, r) == read_request(rest, 0, r),
        completion_request_of(argv) is Some <==> (argv.len() > 0 && argv[0] == "__complete_word__"@),
        argv.len() > 0 && argv[0] == "__complete_word__"@ ==> completion_request_of(argv) == Some(
            read_request(argv, 1, empty_request()),
        ),
{
    let args = seq![w] + rest;
    assert(args[0] == w);
    lemma_read_request_shift(w, rest, 0, r);
}

/// A cursor reads as `str::parse::<usize>` reads it: digits are their decimal number while it
/// fits, one leading `+` changes nothing, and a leading `-`, a bare `+`, or nothing at all is
/// no number.
pub proof fn lemma_cursor_numbers(d: Seq<char>, rest: Seq<char>)
    requires
        d.len() > 0,
        forall|k: int| 0 <= k < d.len() ==> is_digit(#[trigger] d[k]),
    ensures
        digits_value(d) <= usize::MAX ==> parsed_usize(d) == Some(digits_value(d) as usize),
        digits_value(d) > usize::MAX ==> parsed_usize(d) is None,
        parsed_usize(seq!['+'] + d) == parsed_usize(d),
        parsed_usize(seq!['-'] + rest) is None,
        parsed_usize(seq!['+']) is None,
        parsed_usize(Seq::<char>::empty()) is None,
        digits_value(d.push('7')) == digits_value(d) * 10 + 7,
{
    reveal(parsed_usize);
    assert((seq!['+'] + d).drop_first() =~= d);
    assert(d[0] != '+');
    let m = seq!['-'] + rest;
    assert(m[0] == '-');
    assert(!is_digit(m[0]));
    assert(seq!['+'].drop_first() =~= Seq::<char>::empty());
    assert(d.push('7').drop_last() =~= d);
}

} // verus!
