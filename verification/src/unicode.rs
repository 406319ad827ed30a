//! The Unicode character properties and case mappings that naming rules depend on.
//!
//! Each property is std's. On ASCII it is decided here, as std documents it; beyond ASCII it
//! takes Unicode's tables to state, so std is asked through one small trusted function per
//! method, its answer gets a name, and the rest of the library is proved over those names.

use vstd::prelude::*;

verus! {

/// What `char::is_alphanumeric` answers for `c` (Unicode `Alphabetic` or `Numeric`).
pub uninterp spec fn std_alphanumeric(c: char) -> bool;

/// What `char::is_lowercase` answers for `c` (Unicode `Lowercase`).
pub uninterp spec fn std_lowercase(c: char) -> bool;

/// What `char::is_uppercase` answers for `c` (Unicode `Uppercase`).
pub uninterp spec fn std_uppercase(c: char) -> bool;

/// What `char::is_whitespace` answers for `c` (Unicode `White_Space`).
pub uninterp spec fn std_whitespace(c: char) -> bool;

/// The chars `char::to_lowercase` yields for `c`.
pub uninterp spec fn std_lowercase_mapping(c: char) -> Seq<char>;

/// The chars `char::to_uppercase` yields for `c`.
pub uninterp spec fn std_uppercase_mapping(c: char) -> Seq<char>;

/// Calls `char::is_alphanumeric`; claims only that the answer is the one `std_alphanumeric`
/// names for `c`.
#[verifier::external_body]
fn std_is_alphanumeric(c: char) -> (b: bool)
    ensures
        b == std_alphanumeric(c),
{
    c.is_alphanumeric()
}

/// Calls `char::is_lowercase`; claims only that the answer is the one `std_lowercase` names.
#[verifier::external_body]
fn std_is_lowercase(c: char) -> (b: bool)
    ensures
        b == std_lowercase(c),
{
    c.is_lowercase()
}

/// Calls `char::is_uppercase`; claims only that the answer is the one `std_uppercase` names.
#[verifier::external_body]
fn std_is_uppercase(c: char) -> (b: bool)
    ensures
        b == std_uppercase(c),
{
    c.is_uppercase()
}

/// Calls `char::is_whitespace`; claims only that the answer is the one `std_whitespace` names.
#[verifier::external_body]
fn std_is_whitespace(c: char) -> (b: bool)
    ensures
        b == std_whitespace(c),
{
    c.is_whitespace()
}

/// Calls `char::to_lowercase` and collects what it yields; claims that the chars are the
/// ones `std_lowercase_mapping` names for `c`.
#[verifier::external_body]
fn std_to_lowercase(c: char) -> (s: String)
    ensures
        s@ == std_lowercase_mapping(c),
{
    c.to_lowercase().collect()
}

/// Calls `char::to_uppercase` and collects what it yields; claims that the chars are the
/// ones `std_uppercase_mapping` names for `c`.
#[verifier::external_body]
fn std_to_uppercase(c: char) -> (s: String)
    ensures
        s@ == std_uppercase_mapping(c),
{
    c.to_uppercase().collect()
}

/// Calls `String::push`, which appends one char.
#[verifier::external_body]
pub(crate) fn push_char(s: &mut String, c: char)
    ensures
        final(s)@ == old(s)@.push(c),
{
    s.push(c)
}

pub open spec fn is_ascii(c: char) -> bool {
    (c as u32) < 128
}

/// Whether `c` is a letter or digit: on ASCII `a`–`z`, `A`–`Z`, `0`–`9`, elsewhere what std
/// answers.
pub open spec fn alphanumeric(c: char) -> bool {
    if is_ascii(c) {
        ('a' <= c && c <= 'z') || ('A' <= c && c <= 'Z') || ('0' <= c && c <= '9')
    } else {
        std_alphanumeric(c)
    }
}

/// Whether `c` is lowercase: on ASCII `a`–`z`, elsewhere what std answers.
pub open spec fn lowercase(c: char) -> bool {
    if is_ascii(c) {
        'a' <= c && c <= 'z'
    } else {
        std_lowercase(c)
    }
}

/// Whether `c` is uppercase: on ASCII `A`–`Z`, elsewhere what std answers.
pub open spec fn uppercase(c: char) -> bool {
    if is_ascii(c) {
        'A' <= c && c <= 'Z'
    } else {
        std_uppercase(c)
    }
}

/// Whether `c` is whitespace: on ASCII space and U+0009 to U+000D, elsewhere what std answers.
pub open spec fn whitespace(c: char) -> bool {
    if is_ascii(c) {
        c == ' ' || ('\t' <= c && c <= '\r')
    } else {
        std_whitespace(c)
    }
}

/// `c` lowercased: on ASCII `A`–`Z` become `a`–`z` and the rest stay, elsewhere what std
/// gives.
pub open spec fn lowercase_mapping(c: char) -> Seq<char> {
    if is_ascii(c) {
        if 'A' <= c && c <= 'Z' {
            seq![((c as u32) + 32) as char]
        } else {
            seq![c]
        }
    } else {
        std_lowercase_mapping(c)
    }
}

/// `c` uppercased: on ASCII `a`–`z` become `A`–`Z` and the rest stay, elsewhere what std
/// gives.
pub open spec fn uppercase_mapping(c: char) -> Seq<char> {
    if is_ascii(c) {
        if 'a' <= c && c <= 'z' {
            seq![((c as u32) - 32) as char]
        } else {
            seq![c]
        }
    } else {
        std_uppercase_mapping(c)
    }
}

pub(crate) fn is_alphanumeric(c: char) -> (b: bool)
    ensures
        b == alphanumeric(c),
{
    if (c as u32) < 128 {
        ('a' <= c && c <= 'z') || ('A' <= c && c <= 'Z') || ('0' <= c && c <= '9')
    } else {
        std_is_alphanumeric(c)
    }
}

pub(crate) fn is_lowercase(c: char) -> (b: bool)
    ensures
        b == lowercase(c),
{
    if (c as u32) < 128 {
        'a' <= c && c <= 'z'
    } else {
        std_is_lowercase(c)
    }
}

pub(crate) fn is_uppercase(c: char) -> (b: bool)
    ensures
        b == uppercase(c),
{
    if (c as u32) < 128 {
        'A' <= c && c <= 'Z'
    } else {
        std_is_uppercase(c)
    }
}

pub(crate) fn is_whitespace(c: char) -> (b: bool)
    ensures
        b == whitespace(c),
{
    if (c as u32) < 128 {
        c == ' ' || ('\t' <= c && c <= '\r')
    } else {
        std_is_whitespace(c)
    }
}

fn ascii_char(b: u8) -> (c: char)
    requires
        b < 128,
    ensures
        c as u32 == b as u32,
{
    b as char
}

pub(crate) fn to_lowercase(c: char) -> (s: String)
    ensures
        s@ == lowercase_mapping(c),
{
    if (c as u32) < 128 {
        let mut s = String::new();
        if 'A' <= c && c <= 'Z' {
            let lowered = ascii_char(((c as u32) + 32) as u8);
            push_char(&mut s, lowered);
            assert(lowered == ((c as u32) + 32) as char);
        } else {
            push_char(&mut s, c);
        }
        assert(s@ =~= lowercase_mapping(c));
        s
    } else {
        std_to_lowercase(c)
    }
}

pub(crate) fn to_uppercase(c: char) -> (s: String)
    ensures
        s@ == uppercase_mapping(c),
{
    if (c as u32) < 128 {
        let mut s = String::new();
        if 'a' <= c && c <= 'z' {
            let raised = ascii_char(((c as u32) - 32) as u8);
            push_char(&mut s, raised);
            assert(raised == ((c as u32) - 32) as char);
        } else {
            push_char(&mut s, c);
        }
        assert(s@ =~= uppercase_mapping(c));
        s
    } else {
        std_to_uppercase(c)
    }
}

} // verus!
