//! What generated code decides about values and keys: the key each flag, argument and
//! command is minted, what a field contributes to the settings layer built from what the
//! parser saw, and how a typed word becomes text.
//!
//! A word is held as the bytes that were typed. Where it has to be text, bytes that are not
//! UTF-8 are reported rather than replaced.

use vstd::prelude::*;

verus! {

broadcast use vstd::seq_lib::group_seq_properties;

/// Which kind of thing a key belongs to.
#[derive(Clone, Copy, PartialEq, Eq, Structural, Debug)]
pub enum KeyKind {
    Flag,
    Arg,
    Command,
}

/// The bits above a key's index that say its kind: a command, a flag and an argument each
/// get their own space, so no two things in one command share a key though each counts from
/// zero.
pub open spec fn kind_bits(kind: KeyKind) -> u64 {
    match kind {
        KeyKind::Flag => 0,
        KeyKind::Arg => 0x4000_0000,
        KeyKind::Command => 0x8000_0000,
    }
}

/// The largest index a key can hold below its kind's bits.
pub const KEY_INDEX_LIMIT: u64 = 0x4000_0000;

/// The part of a key the declaration decides: its kind's bits and its index. The rest is a
/// base mixed from the declaration's hash and its module where the generated code runs.
pub open spec fn key_suffix_of(kind: KeyKind, index: u64) -> u64 {
    kind_bits(kind) | index
}

/// The part of a key the declaration decides, for the `index`th flag or argument, or for the
/// command itself at index 0.
pub fn key_suffix(kind: KeyKind, index: u64) -> (res: u64)
    requires
        index < KEY_INDEX_LIMIT,
    ensures
        res == key_suffix_of(kind, index),
{
    let bits: u64 = match kind {
        KeyKind::Flag => 0,
        KeyKind::Arg => 0x4000_0000,
        KeyKind::Command => 0x8000_0000,
    };
    bits | index
}

/// The keys of a command's `count` flags, or arguments, in order.
pub fn key_suffixes(kind: KeyKind, count: u64) -> (res: Vec<u64>)
    requires
        count <= KEY_INDEX_LIMIT,
    ensures
        res@.len() == count,
        forall|i: int| 0 <= i < count ==> #[trigger] res@[i] == key_suffix_of(kind, i as u64),
{
    let mut out: Vec<u64> = Vec::new();
    let mut i: u64 = 0;
    while i < count
        invariant
            i <= count <= KEY_INDEX_LIMIT,
            out@.len() == i,
            forall|k: int| 0 <= k < i ==> #[trigger] out@[k] == key_suffix_of(kind, k as u64),
        decreases count - i,
    {
        out.push(key_suffix(kind, i));
        i = i + 1;
    }
    out
}

proof fn lemma_kind_bits_differ(a: KeyKind, b: KeyKind)
    requires
        a != b,
    ensures
        kind_bits(a) != kind_bits(b),
{
}

/// Keys are distinct within a command: two different things, by kind or by index, never
/// share a key, whatever base the command's keys are minted on as long as the base leaves
/// the kind and index bits clear.
pub proof fn lemma_keys_are_distinct(base: u64, a: KeyKind, i: u64, b: KeyKind, j: u64)
    requires
        i < KEY_INDEX_LIMIT,
        j < KEY_INDEX_LIMIT,
        a != b || i != j,
        base & 0xffff_ffff == 0,
    ensures
        base | key_suffix_of(a, i) != base | key_suffix_of(b, j),
{
    let x = kind_bits(a);
    let y = kind_bits(b);
    assert(x == 0 || x == 0x4000_0000 || x == 0x8000_0000);
    assert(y == 0 || y == 0x4000_0000 || y == 0x8000_0000);
    if a != b {
        lemma_kind_bits_differ(a, b);
    }
    assert(base | (x | i) != base | (y | j)) by (bit_vector)
        requires
            i < 0x4000_0000u64,
            j < 0x4000_0000u64,
            x == 0 || x == 0x4000_0000u64 || x == 0x8000_0000u64,
            y == 0 || y == 0x4000_0000u64 || y == 0x8000_0000u64,
            x != y || i != j,
            base & 0xffff_ffffu64 == 0,
    ;
}

/// What UTF-8 decoding makes of `bytes`: the text they spell, or `None` where they are not
/// well-formed UTF-8 (a bad lead or continuation byte, an overlong form, a surrogate, or a
/// code point past U+10FFFF).
#[verifier::opaque]
pub open spec fn utf8_text(bytes: Seq<u8>) -> Option<Seq<char>> {
    if vstd::utf8::valid_utf8(bytes) {
        Some(vstd::utf8::decode_utf8(bytes))
    } else {
        None
    }
}

/// Calls `std::str::from_utf8` and copies the text out; claims what its documentation says:
/// it succeeds exactly on well-formed UTF-8, and the text is the scalars the bytes encode.
#[verifier::external_body]
fn decode_utf8(bytes: &[u8]) -> (res: Option<String>)
    ensures
        match res {
            Some(s) => utf8_text(bytes@) == Some(s@),
            None => utf8_text(bytes@) is None,
        },
{
    std::str::from_utf8(bytes).ok().map(|text| text.to_string())
}

/// What a field's partial holds once the command line is read.
pub enum PartialValue {
    /// A switch: the bool the parser landed on, `false` for its negation.
    Bool(bool),
    /// How often a counted flag was given.
    Count(u64),
    /// A value that may be absent; absent reads as no bytes.
    Optional(Option<Vec<u8>>),
    /// A value that is present.
    Required(Vec<u8>),
    /// Every value given, in order.
    Many(Vec<Vec<u8>>),
}

/// What a field contributes to the settings layer.
#[derive(Debug)]
pub enum SettingGiven {
    Bool(bool),
    Int(i64),
    Text(String),
    List(Vec<String>),
    /// Bytes that are not text: a setting cannot hold them, and they are not replaced.
    NotText,
}

/// What the field contributes, by the text its bytes spell.
pub open spec fn given_text_of(bytes: Seq<u8>) -> Option<Seq<char>> {
    utf8_text(bytes)
}

/// Every item spells text.
pub open spec fn all_text(items: Seq<Vec<u8>>) -> bool {
    forall|i: int| 0 <= i < items.len() ==> (#[trigger] utf8_text(items[i]@)) is Some
}

/// What a field contributes to the settings layer: the bool as the parser landed on it, a
/// count (saturating at the largest `i64`), text, or a list item by item; and `NotText` for
/// bytes that are not UTF-8, a list costing the whole list for one such item.
pub open spec fn setting_given_matches(v: PartialValue, g: SettingGiven) -> bool {
    match v {
        PartialValue::Bool(b) => g == SettingGiven::Bool(b),
        PartialValue::Count(n) => g == SettingGiven::Int(
            if n <= i64::MAX {
                n as i64
            } else {
                i64::MAX
            },
        ),
        PartialValue::Optional(o) => {
            let bytes = match o {
                Some(b) => b@,
                None => Seq::<u8>::empty(),
            };
            match utf8_text(bytes) {
                Some(t) => g matches SettingGiven::Text(s) && s@ == t,
                None => g is NotText,
            }
        },
        PartialValue::Required(b) => match utf8_text(b@) {
            Some(t) => g matches SettingGiven::Text(s) && s@ == t,
            None => g is NotText,
        },
        PartialValue::Many(items) => if all_text(items@) {
            g matches SettingGiven::List(l) && l@.len() == items@.len() && forall|i: int|
                0 <= i < items@.len() ==> utf8_text(#[trigger] items@[i]@) == Some(l@[i]@)
        } else {
            g is NotText
        },
    }
}

fn given_bytes(bytes: &[u8]) -> (res: SettingGiven)
    ensures
        match utf8_text(bytes@) {
            Some(t) => res matches SettingGiven::Text(s) && s@ == t,
            None => res is NotText,
        },
{
    match decode_utf8(bytes) {
        Some(text) => SettingGiven::Text(text),
        None => SettingGiven::NotText,
    }
}

/// What a field contributes to the settings layer built from what the parser saw.
pub fn setting_given(v: &PartialValue) -> (res: SettingGiven)
    ensures
        setting_given_matches(*v, res),
{
    match v {
        PartialValue::Bool(b) => SettingGiven::Bool(*b),
        PartialValue::Count(n) => if *n <= 0x7fff_ffff_ffff_ffffu64 {
            SettingGiven::Int(*n as i64)
        } else {
            SettingGiven::Int(0x7fff_ffff_ffff_ffffi64)
        },
        PartialValue::Optional(o) => match o {
            Some(b) => given_bytes(b.as_slice()),
            None => {
                let empty: Vec<u8> = Vec::new();
                assert(empty@ =~= Seq::<u8>::empty());
                given_bytes(empty.as_slice())
            },
        },
        PartialValue::Required(b) => given_bytes(b.as_slice()),
        PartialValue::Many(items) => {
            let mut out: Vec<String> = Vec::new();
            let mut i: usize = 0;
            while i < items.len()
                invariant
                    *v == PartialValue::Many(*items),
                    i <= items@.len(),
                    out@.len() == i,
                    forall|k: int| 0 <= k < i ==> utf8_text(#[trigger] items@[k]@) == Some(out@[k]@),
                decreases items@.len() - i,
            {
                match decode_utf8(items[i].as_slice()) {
                    Some(text) => out.push(text),
                    None => {
                        assert(utf8_text(items@[i as int]@) is None);
                        assert(!all_text(items@));
                        return SettingGiven::NotText;
                    },
                }
                i = i + 1;
            }
            SettingGiven::List(out)
        },
    }
}

/// A switch contributes exactly the bool the parser landed on: `false` for its negation,
/// `true` for the flag itself, never nothing or text.
pub proof fn lemma_a_negation_contributes_false(g: SettingGiven)
    requires
        setting_given_matches(PartialValue::Bool(false), g),
    ensures
        g == SettingGiven::Bool(false),
{
}

/// Bytes that are not UTF-8 are never contributed as text: they are reported as `NotText`,
/// and a list with one such item contributes no list at all.
pub proof fn lemma_bytes_that_are_not_text_are_reported(v: PartialValue, g: SettingGiven)
    requires
        setting_given_matches(v, g),
        match v {
            PartialValue::Required(b) => utf8_text(b@) is None,
            PartialValue::Optional(Some(b)) => utf8_text(b@) is None,
            PartialValue::Many(items) => !all_text(items@),
            _ => false,
        },
    ensures
        g is NotText,
{
}

/// Why a typed word could not become the field's text: the argument's name, and the bytes.
pub struct InvalidUtf8 {
    pub name: String,
    pub bytes: Vec<u8>,
}

/// A typed word as the text a field converts from, or the report that it is not UTF-8,
/// naming the argument and keeping the bytes rather than replacing them.
pub fn word_text(name: &str, bytes: Vec<u8>) -> (res: Result<String, InvalidUtf8>)
    ensures
        match res {
            Ok(s) => utf8_text(bytes@) == Some(s@),
            Err(e) => utf8_text(bytes@) is None && e.name@ == name@ && e.bytes@ == bytes@,
        },
{
    match decode_utf8(bytes.as_slice()) {
        Some(text) => Ok(text),
        None => Err(InvalidUtf8 { name: name.to_owned(), bytes }),
    }
}

/// `true`, as bytes.
pub open spec fn true_bytes() -> Seq<u8> {
    seq![116u8, 114u8, 117u8, 101u8]
}

/// `false`, as bytes.
pub open spec fn false_bytes() -> Seq<u8> {
    seq![102u8, 97u8, 108u8, 115u8, 101u8]
}

/// Whether what a field holds is `value`, as a `requires_if` or `default_if` asks: a value
/// equal to it, any of several, or a switch or count read as `true` or `false`.
pub open spec fn holds_value(v: PartialValue, value: Seq<u8>) -> bool {
    match v {
        PartialValue::Optional(o) => o is Some && o->0@ == value,
        PartialValue::Required(b) => b@ == value,
        PartialValue::Many(items) => exists|i: int| 0 <= i < items@.len() && #[trigger] items@[i].view() == value,
        PartialValue::Bool(b) => (value == true_bytes() && b) || (value == false_bytes() && !b),
        PartialValue::Count(n) => (value == true_bytes() && n > 0) || (value == false_bytes() && n == 0),
    }
}

fn bytes_eq(a: &[u8], b: &[u8]) -> (res: bool)
    ensures
        res == (a@ == b@),
{
    if a.len() != b.len() {
        return false;
    }
    let mut i: usize = 0;
    while i < a.len()
        invariant
            a@.len() == b@.len(),
            i <= a@.len(),
            forall|k: int| 0 <= k < i ==> a@[k] == b@[k],
        decreases a@.len() - i,
    {
        if a[i] != b[i] {
            return false;
        }
        i = i + 1;
    }
    assert(a@ =~= b@);
    true
}

fn is_true_word(value: &[u8]) -> (res: bool)
    ensures
        res == (value@ == true_bytes()),
{
    let r = value.len() == 4 && value[0] == 116u8 && value[1] == 114u8 && value[2] == 117u8
        && value[3] == 101u8;
    if r {
        assert(value@ =~= true_bytes());
    }
    r
}

fn is_false_word(value: &[u8]) -> (res: bool)
    ensures
        res == (value@ == false_bytes()),
{
    let r = value.len() == 5 && value[0] == 102u8 && value[1] == 97u8 && value[2] == 108u8
        && value[3] == 115u8 && value[4] == 101u8;
    if r {
        assert(value@ =~= false_bytes());
    }
    r
}

/// Whether a field named in a relationship was given with `value`: it has to have been
/// given, and hold the value.
pub fn argument_matches(given: bool, v: &PartialValue, value: &[u8]) -> (res: bool)
    ensures
        res == (given && holds_value(*v, value@)),
{
    if !given {
        return false;
    }
    match v {
        PartialValue::Optional(o) => match o {
            Some(b) => bytes_eq(b.as_slice(), value),
            None => false,
        },
        PartialValue::Required(b) => bytes_eq(b.as_slice(), value),
        PartialValue::Many(items) => {
            let mut i: usize = 0;
            while i < items.len()
                invariant
                    given,
                    *v == PartialValue::Many(*items),
                    i <= items@.len(),
                    forall|k: int| 0 <= k < i ==> (#[trigger] items@[k])@ != value@,
                decreases items@.len() - i,
            {
                if bytes_eq(items[i].as_slice(), value) {
                    assert(items@[i as int].view() == value@);
                    assert(exists|k: int| 0 <= k < items@.len() && #[trigger] items@[k].view() == value@);
                    let ghost pv = PartialValue::Many(*items);
                    assert(pv matches PartialValue::Many(its) && its == *items);
                    assert(holds_value(pv, value@));
                    return true;
                }
                i = i + 1;
            }
            false
        },
        PartialValue::Bool(b) => (is_true_word(value) && *b) || (is_false_word(value) && !*b),
        PartialValue::Count(n) => (is_true_word(value) && *n > 0) || (is_false_word(value) && *n
            == 0),
    }
}

/// A switch given as its negation holds `false` and not `true`, as a relationship sees it.
pub proof fn lemma_a_negated_switch_holds_false()
    ensures
        holds_value(PartialValue::Bool(false), false_bytes()),
        !holds_value(PartialValue::Bool(false), true_bytes()),
{
    assert(true_bytes() != false_bytes()) by {
        assert(true_bytes().len() != false_bytes().len());
    }
}

/// A field matches a relationship's value exactly when it holds that value byte for byte: a
/// given option or single value matches itself and nothing else, a collection matches each of
/// its items and nothing else, an absent option matches nothing, and a switch or count matches
/// `true` when on and `false` when off, and no other word.
pub proof fn lemma_a_field_matches_exactly_what_it_holds(v: PartialValue, value: Seq<u8>)
    ensures
        v matches PartialValue::Optional(Some(b)) ==> (holds_value(v, value) <==> b@ == value),
        v matches PartialValue::Optional(None) ==> !holds_value(v, value),
        v matches PartialValue::Required(b) ==> (holds_value(v, value) <==> b@ == value),
        v matches PartialValue::Many(items) ==> (holds_value(v, value) <==> exists|i: int|
            0 <= i < items@.len() && #[trigger] items@[i]@ == value),
        v matches PartialValue::Bool(on) ==> (holds_value(v, value) <==> value == (if on {
            seq![116u8, 114u8, 117u8, 101u8]
        } else {
            seq![102u8, 97u8, 108u8, 115u8, 101u8]
        })),
        v matches PartialValue::Count(n) ==> (holds_value(v, value) <==> value == (if n > 0 {
            seq![116u8, 114u8, 117u8, 101u8]
        } else {
            seq![102u8, 97u8, 108u8, 115u8, 101u8]
        })),
{
    assert(true_bytes() != false_bytes()) by {
        assert(true_bytes().len() != false_bytes().len());
    }
}

/// Decoding is exact: the UTF-8 encoding of any text decodes to that text, and bytes that
/// decode to a text are that text's encoding, so no two byte strings decode to the same text.
pub proof fn lemma_utf8_text_is_exact(t: Seq<char>, bytes: Seq<u8>)
    ensures
        utf8_text(vstd::utf8::encode_utf8(t)) == Some(t),
        utf8_text(bytes) == Some(t) ==> bytes == vstd::utf8::encode_utf8(t),
        utf8_text(Seq::<u8>::empty()) == Some(Seq::<char>::empty()),
{
    reveal(utf8_text);
    vstd::utf8::encode_utf8_valid_utf8(t);
    vstd::utf8::encode_utf8_decode_utf8(t);
    if vstd::utf8::valid_utf8(bytes) {
        vstd::utf8::decode_utf8_encode_utf8(bytes);
    }
    vstd::utf8::encode_utf8_valid_utf8(Seq::<char>::empty());
    vstd::utf8::encode_utf8_decode_utf8(Seq::<char>::empty());
    assert(vstd::utf8::encode_utf8(Seq::<char>::empty()) =~= Seq::<u8>::empty());
}

/// What a field contributes: a switch the bool it landed on; a count its number, capped at the
/// largest `i64`; a value that spells text that text, an absent option the empty text; a list
/// whose items all spell text those texts in order; and bytes that do not spell text are never
/// contributed as text.
pub proof fn lemma_contributions(v: PartialValue, g: SettingGiven, t: Seq<char>)
    requires
        setting_given_matches(v, g),
    ensures
        v matches PartialValue::Bool(b) ==> g == SettingGiven::Bool(b),
        v matches PartialValue::Count(n) ==> (n <= 0x7fff_ffff_ffff_ffff ==> g == SettingGiven::Int(n as i64)),
        v matches PartialValue::Count(n) ==> (n > 0x7fff_ffff_ffff_ffff ==> g == SettingGiven::Int(0x7fff_ffff_ffff_ffff)),
        v matches PartialValue::Required(b) ==> (b@ == vstd::utf8::encode_utf8(t) ==> (g matches SettingGiven::Text(s) && s@ == t)),
        v matches PartialValue::Optional(Some(b)) ==> (b@ == vstd::utf8::encode_utf8(t) ==> (g matches SettingGiven::Text(s) && s@ == t)),
        v matches PartialValue::Optional(None) ==> g matches SettingGiven::Text(s) && s@.len() == 0,
        g matches SettingGiven::Text(s) ==> (v matches PartialValue::Required(b) ==> b@ == vstd::utf8::encode_utf8(s@)),
{
    lemma_utf8_text_is_exact(t, Seq::<u8>::empty());
    if let SettingGiven::Text(s) = g {
        if let PartialValue::Required(b) = v {
            lemma_utf8_text_is_exact(s@, b@);
        }
    }
}

/// A key keeps its index in the low 30 bits and says its kind in the two above: a flag has
/// neither, an argument bit 30, a command bit 31; nothing reaches above bit 31, so the base
/// the generated code mixes in from the declaration owns the upper half.
pub proof fn lemma_key_layout(kind: KeyKind, index: u64)
    requires
        index < KEY_INDEX_LIMIT,
    ensures
        key_suffix_of(kind, index) & 0x3fff_ffff == index,
        (key_suffix_of(kind, index) >> 30) == (match kind {
            KeyKind::Flag => 0u64,
            KeyKind::Arg => 1u64,
            KeyKind::Command => 2u64,
        }),
        key_suffix_of(kind, index) < 0x1_0000_0000,
{
    let k = key_suffix_of(kind, index);
    match kind {
        KeyKind::Flag => {
            assert(k == 0u64 | index);
            assert((0u64 | index) & 0x3fff_ffff == index && (0u64 | index) >> 30 == 0u64 && (0u64 | index) < 0x1_0000_0000)
                by (bit_vector)
                requires
                    index < 0x4000_0000u64,
            ;
        },
        KeyKind::Arg => {
            assert(k == 0x4000_0000u64 | index);
            assert((0x4000_0000u64 | index) & 0x3fff_ffff == index && (0x4000_0000u64 | index) >> 30 == 1u64
                && (0x4000_0000u64 | index) < 0x1_0000_0000) by (bit_vector)
                requires
                    index < 0x4000_0000u64,
            ;
        },
        KeyKind::Command => {
            assert(k == 0x8000_0000u64 | index);
            assert((0x8000_0000u64 | index) & 0x3fff_ffff == index && (0x8000_0000u64 | index) >> 30 == 2u64
                && (0x8000_0000u64 | index) < 0x1_0000_0000) by (bit_vector)
                requires
                    index < 0x4000_0000u64,
            ;
        },
    }
}

} // verus!
