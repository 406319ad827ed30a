//! The declared types of `usage::Config` settings, by the names a spec writes them.
//!
//! A setting's type is `bool`, `int`, `uint`, `float`, `string`, `path`, `url`, `duration`,
//! `object`, `any`, or a `list<T>`, `set<T>` or `map<string, T>` of one of them.

use vstd::prelude::*;
use vstd::string::*;

use crate::text::{
    find_char, first_index, lemma_first_index, lemma_trim_drops_leading_whitespace,
    lemma_trim_shorter, lemma_trim_unchanged, str_eq, strip_prefix, strip_suffix_char, trim,
    trim_of,
};
use crate::unicode::whitespace;

verus! {

broadcast use vstd::seq_lib::group_seq_properties;

/// The declared type, mirroring `usage_config::Ty`.
#[derive(Debug)]
pub enum Ty {
    Bool,
    Int,
    Uint,
    Float,
    String,
    Path,
    Url,
    Duration,
    Object,
    Any,
    List(Box<Ty>),
    SetOf(Box<Ty>),
    MapOf(Box<Ty>),
}

/// The `Value` variant the merge hands a setting of a given spec type.
#[derive(Clone, Copy, PartialEq, Eq, Structural, Debug)]
pub enum Shape {
    Bool,
    Int,
    Float,
    Str,
    List,
    Mapping,
}

pub open spec fn list_open() -> Seq<char> {
    seq!['l', 'i', 's', 't', '<']
}

pub open spec fn set_open() -> Seq<char> {
    seq!['s', 'e', 't', '<']
}

pub open spec fn map_open() -> Seq<char> {
    seq!['m', 'a', 'p', '<']
}

pub open spec fn string_name() -> Seq<char> {
    seq!['s', 't', 'r', 'i', 'n', 'g']
}

/// The spec's name of a type that has no parameter.
pub open spec fn scalar_name(ty: Ty) -> Seq<char> {
    match ty {
        Ty::Bool => seq!['b', 'o', 'o', 'l'],
        Ty::Int => seq!['i', 'n', 't'],
        Ty::Uint => seq!['u', 'i', 'n', 't'],
        Ty::Float => seq!['f', 'l', 'o', 'a', 't'],
        Ty::String => string_name(),
        Ty::Path => seq!['p', 'a', 't', 'h'],
        Ty::Url => seq!['u', 'r', 'l'],
        Ty::Duration => seq!['d', 'u', 'r', 'a', 't', 'i', 'o', 'n'],
        Ty::Object => seq!['o', 'b', 'j', 'e', 'c', 't'],
        Ty::Any => seq!['a', 'n', 'y'],
        _ => seq![],
    }
}

/// The name a spec writes for `ty`: `uint`, `list<string>`, `map<string, path>`.
pub open spec fn type_name_of(ty: Ty) -> Seq<char>
    decreases ty,
{
    match ty {
        Ty::List(inner) => list_open() + type_name_of(*inner) + seq!['>'],
        Ty::SetOf(inner) => set_open() + type_name_of(*inner) + seq!['>'],
        Ty::MapOf(inner) => map_open() + string_name() + seq![',', ' '] + type_name_of(*inner) + seq![
            '>',
        ],
        _ => scalar_name(ty),
    }
}

/// The type of a scalar name, if it is one.
pub open spec fn scalar_of(name: Seq<char>) -> Option<Ty> {
    if name == scalar_name(Ty::Bool) {
        Some(Ty::Bool)
    } else if name == scalar_name(Ty::Int) {
        Some(Ty::Int)
    } else if name == scalar_name(Ty::Uint) {
        Some(Ty::Uint)
    } else if name == scalar_name(Ty::Float) {
        Some(Ty::Float)
    } else if name == scalar_name(Ty::String) {
        Some(Ty::String)
    } else if name == scalar_name(Ty::Path) {
        Some(Ty::Path)
    } else if name == scalar_name(Ty::Url) {
        Some(Ty::Url)
    } else if name == scalar_name(Ty::Duration) {
        Some(Ty::Duration)
    } else if name == scalar_name(Ty::Object) {
        Some(Ty::Object)
    } else if name == scalar_name(Ty::Any) {
        Some(Ty::Any)
    } else {
        None
    }
}

/// Whether `t` is `open … >`, with something or nothing between.
pub open spec fn wraps(t: Seq<char>, open: Seq<char>) -> bool {
    open.is_prefix_of(t) && t.len() > open.len() && t.last() == '>'
}

/// What stands between `open` and the closing `>` of `t`.
pub open spec fn wrapped(t: Seq<char>, open: Seq<char>) -> Seq<char> {
    t.subrange(open.len() as int, t.len() - 1)
}

/// A spec type by the name a spec writes, surrounding whitespace ignored.
#[verifier::opaque]
pub open spec fn parse_ty_name_of(name: Seq<char>) -> Option<Ty>
    decreases name.len(),
{
    let t = trim_of(name);
    proof {
        lemma_trim_shorter(name);
    }
    if wraps(t, list_open()) {
        match parse_ty_name_of(wrapped(t, list_open())) {
            Some(item) => Some(Ty::List(Box::new(item))),
            None => None,
        }
    } else if wraps(t, set_open()) {
        match parse_ty_name_of(wrapped(t, set_open())) {
            Some(item) => Some(Ty::SetOf(Box::new(item))),
            None => None,
        }
    } else if wraps(t, map_open()) {
        let inner = wrapped(t, map_open());
        if !inner.contains(',') {
            None
        } else {
            let comma = first_index(inner, ',');
            if trim_of(inner.take(comma)) != string_name() {
                None
            } else {
                proof {
                    lemma_first_index_bounds(inner, ',');
                }
                match parse_ty_name_of(inner.skip(comma + 1)) {
                    Some(value) => Some(Ty::MapOf(Box::new(value))),
                    None => None,
                }
            }
        }
    } else {
        scalar_of(t)
    }
}

pub proof fn lemma_first_index_bounds(s: Seq<char>, c: char)
    requires
        s.contains(c),
    ensures
        0 <= first_index(s, c) < s.len(),
{
    lemma_first_index_from(s, c, 0);
}

proof fn lemma_first_index_from(s: Seq<char>, c: char, k: int)
    requires
        0 <= k <= s.len(),
        s.contains(c),
        forall|j: int| 0 <= j < k ==> s[j] != c,
    ensures
        0 <= first_index(s, c) < s.len(),
    decreases s.len() - k,
{
    if k == s.len() {
        let w = choose|i: int| 0 <= i < s.len() && s[i] == c;
        assert(s[w] != c);
    } else if s[k] == c {
        lemma_first_index(s, c, k);
    } else {
        lemma_first_index_from(s, c, k + 1);
    }
}

/// Whether values of this type are a collection, which is what `merge` policies and
/// named parsers are about.
pub open spec fn is_collection_of(ty: Ty) -> bool {
    match ty {
        Ty::List(_) | Ty::SetOf(_) | Ty::MapOf(_) | Ty::Object => true,
        _ => false,
    }
}

/// The shape the merge hands a setting of this type; `None` for `any`, which it does not
/// coerce.
pub open spec fn shape_of(ty: Ty) -> Option<Shape> {
    match ty {
        Ty::Any => None,
        Ty::Bool => Some(Shape::Bool),
        Ty::Int | Ty::Uint => Some(Shape::Int),
        Ty::Float => Some(Shape::Float),
        Ty::String | Ty::Path | Ty::Url | Ty::Duration => Some(Shape::Str),
        Ty::Object | Ty::MapOf(_) => Some(Shape::Mapping),
        Ty::List(_) | Ty::SetOf(_) => Some(Shape::List),
    }
}

impl Ty {
    /// Whether values of this type are a collection.
    pub fn is_collection(&self) -> (res: bool)
        ensures
            res == is_collection_of(*self),
    {
        match self {
            Ty::List(_) | Ty::SetOf(_) | Ty::MapOf(_) | Ty::Object => true,
            _ => false,
        }
    }

    /// The shape the merge hands a setting of this type.
    pub fn shape(&self) -> (res: Option<Shape>)
        ensures
            res == shape_of(*self),
    {
        Some(
            match self {
                Ty::Any => return None,
                Ty::Bool => Shape::Bool,
                Ty::Int | Ty::Uint => Shape::Int,
                Ty::Float => Shape::Float,
                Ty::String | Ty::Path | Ty::Url | Ty::Duration => Shape::Str,
                Ty::Object | Ty::MapOf(_) => Shape::Mapping,
                Ty::List(_) | Ty::SetOf(_) => Shape::List,
            },
        )
    }
}

/// A collection is exactly a type the merge hands a list or a map.
pub proof fn lemma_collections_are_lists_and_maps(ty: Ty)
    ensures
        is_collection_of(ty) <==> (shape_of(ty) == Some(Shape::List) || shape_of(ty) == Some(
            Shape::Mapping,
        )),
{
}

fn owned(s: &str) -> (res: String)
    ensures
        res@ == s@,
{
    s.to_owned()
}

/// The name a spec writes for `ty`.
pub fn ty_name(ty: &Ty) -> (res: String)
    ensures
        res@ == type_name_of(*ty),
    decreases ty,
{
    proof {
        reveal_strlit("bool");
        reveal_strlit("int");
        reveal_strlit("uint");
        reveal_strlit("float");
        reveal_strlit("string");
        reveal_strlit("path");
        reveal_strlit("url");
        reveal_strlit("duration");
        reveal_strlit("object");
        reveal_strlit("any");
        reveal_strlit("list<");
        reveal_strlit("set<");
        reveal_strlit("map<string, ");
        reveal_strlit(">");
    }
    match ty {
        Ty::Bool => owned("bool"),
        Ty::Int => owned("int"),
        Ty::Uint => owned("uint"),
        Ty::Float => owned("float"),
        Ty::String => owned("string"),
        Ty::Path => owned("path"),
        Ty::Url => owned("url"),
        Ty::Duration => owned("duration"),
        Ty::Object => owned("object"),
        Ty::Any => owned("any"),
        Ty::List(inner) => {
            let mut out = owned("list<");
            let item = ty_name(inner);
            out.append(item.as_str());
            out.append(">");
            out
        },
        Ty::SetOf(inner) => {
            let mut out = owned("set<");
            let item = ty_name(inner);
            out.append(item.as_str());
            out.append(">");
            out
        },
        Ty::MapOf(inner) => {
            let mut out = owned("map<string, ");
            let value = ty_name(inner);
            out.append(value.as_str());
            out.append(">");
            assert(out@ =~= type_name_of(*ty));
            out
        },
    }
}

/// `t` between `open` and a closing `>`, when it has that form.
fn unwrap_angle<'a>(t: &'a str, open: &str) -> (res: Option<&'a str>)
    ensures
        match res {
            Some(inner) => wraps(t@, open@) && inner@ == wrapped(t@, open@),
            None => !wraps(t@, open@),
        },
{
    match strip_prefix(t, open) {
        Some(rest) => match strip_suffix_char(rest, '>') {
            Some(inner) => {
                assert(inner@ =~= wrapped(t@, open@));
                Some(inner)
            },
            None => None,
        },
        None => None,
    }
}

fn scalar(t: &str) -> (res: Option<Ty>)
    ensures
        res == scalar_of(t@),
{
    proof {
        reveal_strlit("bool");
        reveal_strlit("int");
        reveal_strlit("uint");
        reveal_strlit("float");
        reveal_strlit("string");
        reveal_strlit("path");
        reveal_strlit("url");
        reveal_strlit("duration");
        reveal_strlit("object");
        reveal_strlit("any");
    }
    assert("bool"@ =~= scalar_name(Ty::Bool));
    assert("int"@ =~= scalar_name(Ty::Int));
    assert("uint"@ =~= scalar_name(Ty::Uint));
    assert("float"@ =~= scalar_name(Ty::Float));
    assert("string"@ =~= scalar_name(Ty::String));
    assert("path"@ =~= scalar_name(Ty::Path));
    assert("url"@ =~= scalar_name(Ty::Url));
    assert("duration"@ =~= scalar_name(Ty::Duration));
    assert("object"@ =~= scalar_name(Ty::Object));
    assert("any"@ =~= scalar_name(Ty::Any));
    Some(
        if str_eq(t, "bool") {
            Ty::Bool
        } else if str_eq(t, "int") {
            Ty::Int
        } else if str_eq(t, "uint") {
            Ty::Uint
        } else if str_eq(t, "float") {
            Ty::Float
        } else if str_eq(t, "string") {
            Ty::String
        } else if str_eq(t, "path") {
            Ty::Path
        } else if str_eq(t, "url") {
            Ty::Url
        } else if str_eq(t, "duration") {
            Ty::Duration
        } else if str_eq(t, "object") {
            Ty::Object
        } else if str_eq(t, "any") {
            Ty::Any
        } else {
            return None;
        },
    )
}

/// A spec type by the name a spec writes: `uint`, `list<string>`, `map<string, path>`.
pub fn parse_ty_name(name: &str) -> (res: Option<Ty>)
    ensures
        res == parse_ty_name_of(name@),
    decreases name@.len(),
{
    proof {
        reveal(parse_ty_name_of);
        reveal_strlit("list<");
        reveal_strlit("set<");
        reveal_strlit("map<");
        reveal_strlit("string");
        lemma_trim_shorter(name@);
    }
    assert("list<"@ =~= list_open());
    assert("set<"@ =~= set_open());
    assert("map<"@ =~= map_open());
    assert("string"@ =~= string_name());
    let t = trim(name);
    if let Some(inner) = unwrap_angle(t, "list<") {
        return match parse_ty_name(inner) {
            Some(item) => Some(Ty::List(Box::new(item))),
            None => None,
        };
    }
    if let Some(inner) = unwrap_angle(t, "set<") {
        return match parse_ty_name(inner) {
            Some(item) => Some(Ty::SetOf(Box::new(item))),
            None => None,
        };
    }
    if let Some(inner) = unwrap_angle(t, "map<") {
        let comma = match find_char(inner, ',') {
            Some(comma) => comma,
            None => return None,
        };
        proof {
            lemma_first_index(inner@, ',', comma as int);
        }
        let n = inner.unicode_len();
        let key = inner.substring_char(0, comma);
        let value = inner.substring_char(comma + 1, n);
        assert(value@ =~= inner@.skip(comma + 1));
        if !str_eq(trim(key), "string") {
            return None;
        }
        return match parse_ty_name(value) {
            Some(value) => Some(Ty::MapOf(Box::new(value))),
            None => None,
        };
    }
    scalar(t)
}

/// Whitespace as std decides it, on ASCII: space, tab, and `\n` through `\r`.
pub open spec fn ascii_whitespace_is_standard() -> bool {
    forall|c: char|
        (c as u32) < 128 ==> (#[trigger] whitespace(c) <==> (c == ' ' || ('\t' <= c <= '\r')))
}

proof fn lemma_type_name_ends(ty: Ty)
    ensures
        type_name_of(ty).len() > 0,
        'a' <= type_name_of(ty)[0] <= 'z',
        ('a' <= type_name_of(ty).last() <= 'z') || type_name_of(ty).last() == '>',
    decreases ty,
{
    match ty {
        Ty::List(inner) => lemma_type_name_ends(*inner),
        Ty::SetOf(inner) => lemma_type_name_ends(*inner),
        Ty::MapOf(inner) => lemma_type_name_ends(*inner),
        _ => {},
    }
}

/// A type name has nothing to trim.
proof fn lemma_type_name_trimmed(ty: Ty)
    requires
        ascii_whitespace_is_standard(),
    ensures
        trim_of(type_name_of(ty)) == type_name_of(ty),
{
    let name = type_name_of(ty);
    lemma_type_name_ends(ty);
    assert(!whitespace(name[0]));
    assert(!whitespace(name.last()));
    lemma_trim_unchanged(name);
}

proof fn lemma_map_value_roundtrip(item: Seq<char>)
    requires
        ascii_whitespace_is_standard(),
        item.len() > 0,
        trim_of(item) == item,
    ensures
        ({
            let body = string_name() + seq![',', ' '] + item;
            &&& body.contains(',')
            &&& first_index(body, ',') == 6
            &&& trim_of(body.take(6)) == string_name()
            &&& trim_of(body.skip(7)) == item
        }),
{
    let body = string_name() + seq![',', ' '] + item;
    assert(body[6] == ',');
    lemma_first_index(body, ',', 6);
    assert(body.take(6) =~= string_name());
    lemma_trim_unchanged(string_name());
    let rest = body.skip(7);
    assert(rest =~= seq![' '] + item);
    assert(whitespace(' '));
    lemma_trim_drops_leading_whitespace(rest);
    assert(rest.drop_first() =~= item);
}

#[verifier::rlimit(40)]
proof fn lemma_roundtrip_list(inner: Ty)
    requires
        ascii_whitespace_is_standard(),
        parse_ty_name_of(type_name_of(inner)) == Some(inner),
    ensures
        parse_ty_name_of(type_name_of(Ty::List(Box::new(inner)))) == Some(Ty::List(Box::new(inner))),
{
    reveal(parse_ty_name_of);
    let ty = Ty::List(Box::new(inner));
    let name = type_name_of(ty);
    lemma_type_name_trimmed(ty);
    assert(wraps(name, list_open()));
    assert(wrapped(name, list_open()) =~= type_name_of(inner));
}

#[verifier::rlimit(30)]
proof fn lemma_roundtrip_set(inner: Ty)
    requires
        ascii_whitespace_is_standard(),
        parse_ty_name_of(type_name_of(inner)) == Some(inner),
    ensures
        parse_ty_name_of(type_name_of(Ty::SetOf(Box::new(inner)))) == Some(
            Ty::SetOf(Box::new(inner)),
        ),
{
    reveal(parse_ty_name_of);
    let ty = Ty::SetOf(Box::new(inner));
    let name = type_name_of(ty);
    lemma_type_name_trimmed(ty);
    assert(name[0] != list_open()[0]);
    assert(!wraps(name, list_open()));
    assert(wraps(name, set_open()));
    assert(wrapped(name, set_open()) =~= type_name_of(inner));
}

#[verifier::rlimit(40)]
proof fn lemma_roundtrip_map(inner: Ty)
    requires
        ascii_whitespace_is_standard(),
        parse_ty_name_of(type_name_of(inner)) == Some(inner),
    ensures
        parse_ty_name_of(type_name_of(Ty::MapOf(Box::new(inner)))) == Some(
            Ty::MapOf(Box::new(inner)),
        ),
{
    reveal(parse_ty_name_of);
    let ty = Ty::MapOf(Box::new(inner));
    let name = type_name_of(ty);
    let item = type_name_of(inner);
    lemma_type_name_trimmed(ty);
    lemma_type_name_trimmed(inner);
    lemma_type_name_ends(inner);
    assert(name[0] != list_open()[0]);
    assert(name[0] != set_open()[0]);
    assert(!wraps(name, list_open()));
    assert(!wraps(name, set_open()));
    assert(wraps(name, map_open()));
    let body = wrapped(name, map_open());
    assert(body =~= string_name() + seq![',', ' '] + item);
    lemma_map_value_roundtrip(item);
    let rest = body.skip(7);
    lemma_parse_sees_only_the_trimmed_name(rest, item);
}

proof fn lemma_parse_sees_only_the_trimmed_name(a: Seq<char>, b: Seq<char>)
    requires
        trim_of(a) == trim_of(b),
    ensures
        parse_ty_name_of(a) == parse_ty_name_of(b),
{
    reveal(parse_ty_name_of);
}

#[verifier::rlimit(40)]
proof fn lemma_roundtrip_scalar(ty: Ty)
    requires
        ascii_whitespace_is_standard(),
        !(ty is List || ty is SetOf || ty is MapOf),
    ensures
        parse_ty_name_of(type_name_of(ty)) == Some(ty),
{
    reveal(parse_ty_name_of);
    let name = type_name_of(ty);
    lemma_type_name_trimmed(ty);
    lemma_type_name_ends(ty);
    assert(name.last() != '>');
    assert(!wraps(name, list_open()));
    assert(!wraps(name, set_open()));
    assert(!wraps(name, map_open()));
    assert(scalar_of(name) == Some(ty));
}

proof fn lemma_ascii_whitespace_is_standard()
    ensures
        ascii_whitespace_is_standard(),
{
}

proof fn lemma_roundtrip(ty: Ty)
    requires
        ascii_whitespace_is_standard(),
    ensures
        parse_ty_name_of(type_name_of(ty)) == Some(ty),
    decreases ty,
{
    match ty {
        Ty::List(inner) => {
            lemma_roundtrip(*inner);
            lemma_roundtrip_list(*inner);
        },
        Ty::SetOf(inner) => {
            lemma_roundtrip(*inner);
            lemma_roundtrip_set(*inner);
        },
        Ty::MapOf(inner) => {
            lemma_roundtrip(*inner);
            lemma_roundtrip_map(*inner);
        },
        _ => lemma_roundtrip_scalar(ty),
    }
}

/// Writing a type's name and reading it back gives the type.
pub proof fn lemma_type_name_roundtrip(ty: Ty)
    ensures
        parse_ty_name_of(type_name_of(ty)) == Some(ty),
{
    lemma_ascii_whitespace_is_standard();
    lemma_roundtrip(ty);
}

/// Where in a declaration a constant stands, which decides how strictly it is read.
#[derive(Clone, Copy, PartialEq, Eq, Structural, Debug)]
pub enum Position {
    /// A declared default, handed to the field as it stands.
    Default,
    /// One of the values a setting allows, compared after the merge has coerced it.
    Choice,
}

/// A literal a registry can hold as a `const`.
///
/// A float is held as what is read of it: the bits of its `f64`, and whether converting it to
/// an `f32` keeps it finite (or it was infinite to begin with), which is what an `f32` field
/// needs of a default.
#[derive(Debug)]
pub enum Const {
    Bool(bool),
    Int(i64),
    Float { bits: u64, fits_f32: bool },
    Str(String),
    List(Vec<Const>),
}

pub open spec fn is_text_type(ty: Ty) -> bool {
    match ty {
        Ty::String | Ty::Path | Ty::Url | Ty::Duration => true,
        _ => false,
    }
}

/// Whether `value` could be a value of `ty`, where the declaration puts it.
///
/// Permissive exactly where something coerces: on a list or set a *choice* names what one
/// item may be, while a default is the whole value. A `uint` refuses a negative, and a text
/// type refuses a bool or number spelled as anything but a string.
pub open spec fn admits_of(ty: Ty, value: Const, position: Position) -> bool
    decreases ty,
{
    match ty {
        Ty::Any => true,
        Ty::Bool => value is Bool,
        Ty::Int => value is Int,
        Ty::Float => value is Int || value is Float,
        Ty::Uint => match value {
            Const::Int(i) => i >= 0,
            _ => false,
        },
        Ty::String | Ty::Path | Ty::Url | Ty::Duration => value is Str,
        Ty::List(item) | Ty::SetOf(item) => match value {
            Const::List(items) => forall|i: int|
                0 <= i < items@.len() ==> admits_of(*item, #[trigger] items@[i], position),
            _ => position == Position::Choice && admits_of(*item, value, position),
        },
        _ => false,
    }
}

impl Ty {
    /// Whether `value` could be a value of this type, where the declaration puts it.
    pub fn admits(&self, value: &Const, position: Position) -> (res: bool)
        ensures
            res == admits_of(*self, *value, position),
        decreases self, 0nat,
    {
        let coerced = position == Position::Choice;
        match (self, value) {
            (Ty::Any, _) => true,
            (Ty::Bool, Const::Bool(_)) => true,
            (Ty::Int, Const::Int(_)) | (Ty::Float, Const::Int(_)) => true,
            (Ty::Uint, Const::Int(i)) => *i >= 0,
            (Ty::Float, Const::Float { .. }) => true,
            (Ty::String, Const::Str(_)) | (Ty::Path, Const::Str(_)) | (Ty::Url, Const::Str(_)) | (
                Ty::Duration,
                Const::Str(_),
            ) => true,
            (Ty::List(item), Const::List(items)) | (Ty::SetOf(item), Const::List(items)) => {
                all_admitted(item, items, position)
            },
            (Ty::List(item), scalar) | (Ty::SetOf(item), scalar) => coerced && item.admits(
                scalar,
                position,
            ),
            _ => false,
        }
    }
}

/// Whether every item is a value `item` admits.
fn all_admitted(item: &Ty, items: &Vec<Const>, position: Position) -> (res: bool)
    ensures
        res == forall|k: int| 0 <= k < items@.len() ==> admits_of(*item, #[trigger] items@[k], position),
    decreases item, 1nat,
{
    let mut i: usize = 0;
    while i < items.len()
        invariant
            i <= items@.len(),
            forall|k: int| 0 <= k < i ==> admits_of(*item, #[trigger] items@[k], position),
        decreases items@.len() - i,
    {
        if !item.admits(&items[i], position) {
            return false;
        }
        i = i + 1;
    }
    true
}

/// A field's Rust type, as much of it as this derive reads: the last path segment's name and
/// the type arguments in its angle brackets, or `Other` for a type that is not a path.
pub enum RustType {
    Path { name: String, args: Vec<RustType> },
    Other,
}

/// The `index`th type argument of the type's last path segment, as the `u64` of `Vec<u64>`.
pub open spec fn generic_arg_of(ty: RustType, index: int) -> Option<RustType> {
    match ty {
        RustType::Path { args, .. } => if 0 <= index < args@.len() {
            Some(args@[index])
        } else {
            None
        },
        RustType::Other => None,
    }
}

/// The `index`th type argument of the type's last path segment.
pub fn generic_arg(ty: &RustType, index: usize) -> (res: Option<&RustType>)
    ensures
        match res {
            Some(arg) => generic_arg_of(*ty, index as int) == Some(*arg),
            None => generic_arg_of(*ty, index as int) is None,
        },
{
    match ty {
        RustType::Path { args, .. } => if index < args.len() {
            Some(&args[index])
        } else {
            None
        },
        RustType::Other => None,
    }
}

pub open spec fn is_named(ty: RustType, name: Seq<char>) -> bool {
    match ty {
        RustType::Path { name: n, .. } => n@ == name,
        RustType::Other => false,
    }
}

/// `Option<T>` peeled to `T`, and whether there was one to peel.
pub open spec fn peel_option_of(ty: RustType) -> (bool, RustType) {
    if is_named(ty, "Option"@) && generic_arg_of(ty, 0) is Some {
        (true, generic_arg_of(ty, 0)->0)
    } else {
        (false, ty)
    }
}

/// `Option<T>` peeled to `T`, and whether there was one to peel.
pub fn peel_option(ty: &RustType) -> (res: (bool, &RustType))
    ensures
        (res.0, *res.1) == peel_option_of(*ty),
{
    if let RustType::Path { name, .. } = ty {
        if str_eq(name.as_str(), "Option") {
            if let Some(inner) = generic_arg(ty, 0) {
                return (true, inner);
            }
        }
    }
    (false, ty)
}

pub open spec fn is_unsigned_name(n: Seq<char>) -> bool {
    n == "u8"@ || n == "u16"@ || n == "u32"@ || n == "u64"@ || n == "usize"@
}

pub open spec fn is_signed_name(n: Seq<char>) -> bool {
    n == "i8"@ || n == "i16"@ || n == "i32"@ || n == "i64"@ || n == "isize"@
}

pub open spec fn is_float_name(n: Seq<char>) -> bool {
    n == "f32"@ || n == "f64"@
}

fn is_unsigned(n: &str) -> (res: bool)
    ensures
        res == is_unsigned_name(n@),
{
    str_eq(n, "u8") || str_eq(n, "u16") || str_eq(n, "u32") || str_eq(n, "u64") || str_eq(
        n,
        "usize",
    )
}

fn is_signed(n: &str) -> (res: bool)
    ensures
        res == is_signed_name(n@),
{
    str_eq(n, "i8") || str_eq(n, "i16") || str_eq(n, "i32") || str_eq(n, "i64") || str_eq(
        n,
        "isize",
    )
}

fn is_float(n: &str) -> (res: bool)
    ensures
        res == is_float_name(n@),
{
    str_eq(n, "f32") || str_eq(n, "f64")
}

/// The spec type a Rust type names on its own, or `None` for one that needs `ty = "..."`.
pub open spec fn infer_ty_of(ty: RustType) -> Option<Ty>
    decreases ty,
{
    match ty {
        RustType::Other => None,
        RustType::Path { name, args } => {
            let n = name@;
            if n == "bool"@ {
                Some(Ty::Bool)
            } else if is_unsigned_name(n) {
                Some(Ty::Uint)
            } else if is_signed_name(n) {
                Some(Ty::Int)
            } else if is_float_name(n) {
                Some(Ty::Float)
            } else if n == "String"@ {
                Some(Ty::String)
            } else if n == "PathBuf"@ {
                Some(Ty::Path)
            } else if n == "Value"@ {
                Some(Ty::Any)
            } else if n == "Vec"@ {
                if args@.len() > 0 {
                    match infer_ty_of(args@[0]) {
                        Some(item) => Some(Ty::List(Box::new(item))),
                        None => None,
                    }
                } else {
                    None
                }
            } else if n == "BTreeMap"@ {
                // A spec map is keyed by strings; a map keyed by anything else has no
                // spelling a config file could write.
                if args@.len() > 0 && infer_ty_of(args@[0]) == Some(Ty::String) {
                    if args@.len() > 1 {
                        match infer_ty_of(args@[1]) {
                            Some(value) => Some(Ty::MapOf(Box::new(value))),
                            None => None,
                        }
                    } else {
                        None
                    }
                } else {
                    None
                }
            } else {
                None
            }
        },
    }
}

/// The spec type a Rust type names on its own.
pub fn infer_ty(ty: &RustType) -> (res: Option<Ty>)
    ensures
        res == infer_ty_of(*ty),
    decreases ty,
{
    let (name, args) = match ty {
        RustType::Path { name, args } => (name.as_str(), args),
        RustType::Other => return None,
    };
    if str_eq(name, "bool") {
        Some(Ty::Bool)
    } else if is_unsigned(name) {
        Some(Ty::Uint)
    } else if is_signed(name) {
        Some(Ty::Int)
    } else if is_float(name) {
        Some(Ty::Float)
    } else if str_eq(name, "String") {
        Some(Ty::String)
    } else if str_eq(name, "PathBuf") {
        Some(Ty::Path)
    } else if str_eq(name, "Value") {
        Some(Ty::Any)
    } else if str_eq(name, "Vec") {
        if args.len() == 0 {
            return None;
        }
        match infer_ty(&args[0]) {
            Some(item) => Some(Ty::List(Box::new(item))),
            None => None,
        }
    } else if str_eq(name, "BTreeMap") {
        if args.len() == 0 {
            return None;
        }
        match infer_ty(&args[0]) {
            Some(Ty::String) => {},
            _ => return None,
        }
        if args.len() < 2 {
            return None;
        }
        match infer_ty(&args[1]) {
            Some(value) => Some(Ty::MapOf(Box::new(value))),
            None => None,
        }
    } else {
        None
    }
}

/// Whether the field's reader can take what a setting of type `declared` is handed;
/// `None` where that is not knowable from the type alone.
///
/// Structural: the merge coerces a list's items to the declared item type, so the field's
/// item type is what has to read them.
pub open spec fn reads_of(field: RustType, declared: Ty) -> Option<bool>
    decreases field,
{
    match shape_of(declared) {
        None => None,
        Some(shape) => match field {
            RustType::Other => None,
            RustType::Path { name, args } => {
                let n = name@;
                if n == "Value"@ {
                    Some(true)
                } else if n == "bool"@ {
                    Some(shape == Shape::Bool)
                } else if is_unsigned_name(n) || is_signed_name(n) {
                    Some(shape == Shape::Int)
                } else if is_float_name(n) {
                    Some(shape == Shape::Float || shape == Shape::Int)
                } else if n == "String"@ || n == "PathBuf"@ {
                    Some(shape == Shape::Str)
                } else if n == "Vec"@ {
                    match declared {
                        Ty::List(item) | Ty::SetOf(item) => if args@.len() > 0 {
                            reads_of(args@[0], *item)
                        } else {
                            None
                        },
                        _ => Some(false),
                    }
                } else if n == "BTreeMap"@ {
                    match declared {
                        Ty::MapOf(value) => if args@.len() > 1 {
                            reads_of(args@[1], *value)
                        } else {
                            None
                        },
                        Ty::Object => None,
                        _ => Some(false),
                    }
                } else {
                    None
                }
            },
        },
    }
}

/// Whether the field's reader can take what a setting of type `declared` is handed.
pub fn reads(field: &RustType, declared: &Ty) -> (res: Option<bool>)
    ensures
        res == reads_of(*field, *declared),
    decreases field,
{
    let shape = match declared.shape() {
        Some(shape) => shape,
        None => return None,
    };
    let (name, args) = match field {
        RustType::Path { name, args } => (name.as_str(), args),
        RustType::Other => return None,
    };
    if str_eq(name, "Value") {
        Some(true)
    } else if str_eq(name, "bool") {
        Some(shape == Shape::Bool)
    } else if is_unsigned(name) || is_signed(name) {
        Some(shape == Shape::Int)
    } else if is_float(name) {
        Some(shape == Shape::Float || shape == Shape::Int)
    } else if str_eq(name, "String") || str_eq(name, "PathBuf") {
        Some(shape == Shape::Str)
    } else if str_eq(name, "Vec") {
        match declared {
            Ty::List(item) | Ty::SetOf(item) => if args.len() > 0 {
                reads(&args[0], item)
            } else {
                None
            },
            _ => Some(false),
        }
    } else if str_eq(name, "BTreeMap") {
        match declared {
            Ty::MapOf(value) => if args.len() > 1 {
                reads(&args[1], value)
            } else {
                None
            },
            Ty::Object => None,
            _ => Some(false),
        }
    } else {
        None
    }
}

/// Whether the `f64` with these bits is a NaN.
pub open spec fn is_nan_bits(bits: u64) -> bool {
    (bits & 0x7ff0_0000_0000_0000) == 0x7ff0_0000_0000_0000 && (bits & 0x000f_ffff_ffff_ffff) != 0
}

/// `==` on two `f64`s, by their bits: a NaN equals nothing, and the two zeros are equal.
pub open spec fn float_bits_eq(a: u64, b: u64) -> bool {
    !is_nan_bits(a) && !is_nan_bits(b) && (a == b || ((a & 0x7fff_ffff_ffff_ffff) == 0 && (b
        & 0x7fff_ffff_ffff_ffff) == 0))
}

/// `==` on two constants: the same kind, and equal values of it.
pub open spec fn const_eq_of(a: Const, b: Const) -> bool
    decreases a,
{
    match (a, b) {
        (Const::Bool(x), Const::Bool(y)) => x == y,
        (Const::Int(x), Const::Int(y)) => x == y,
        (Const::Float { bits: x, .. }, Const::Float { bits: y, .. }) => float_bits_eq(x, y),
        (Const::Str(x), Const::Str(y)) => x@ == y@,
        (Const::List(xs), Const::List(ys)) => xs@.len() == ys@.len() && forall|i: int|
            0 <= i < xs@.len() ==> const_eq_of(#[trigger] xs@[i], ys@[i]),
        _ => false,
    }
}

fn float_eq(a: u64, b: u64) -> (res: bool)
    ensures
        res == float_bits_eq(a, b),
{
    let a_nan = (a & 0x7ff0_0000_0000_0000) == 0x7ff0_0000_0000_0000 && (a & 0x000f_ffff_ffff_ffff)
        != 0;
    let b_nan = (b & 0x7ff0_0000_0000_0000) == 0x7ff0_0000_0000_0000 && (b & 0x000f_ffff_ffff_ffff)
        != 0;
    !a_nan && !b_nan && (a == b || ((a & 0x7fff_ffff_ffff_ffff) == 0 && (b & 0x7fff_ffff_ffff_ffff)
        == 0))
}

/// `==` on two constants.
pub fn const_eq(a: &Const, b: &Const) -> (res: bool)
    ensures
        res == const_eq_of(*a, *b),
    decreases a, 0nat,
{
    match (a, b) {
        (Const::Bool(x), Const::Bool(y)) => *x == *y,
        (Const::Int(x), Const::Int(y)) => *x == *y,
        (Const::Float { bits: x, .. }, Const::Float { bits: y, .. }) => float_eq(*x, *y),
        (Const::Str(x), Const::Str(y)) => str_eq(x.as_str(), y.as_str()),
        (Const::List(xs), Const::List(ys)) => lists_eq(xs, ys),
        _ => false,
    }
}

fn lists_eq(xs: &Vec<Const>, ys: &Vec<Const>) -> (res: bool)
    ensures
        res == (xs@.len() == ys@.len() && forall|i: int|
            0 <= i < xs@.len() ==> const_eq_of(#[trigger] xs@[i], ys@[i])),
    decreases xs, 1nat,
{
    if xs.len() != ys.len() {
        return false;
    }
    let mut i: usize = 0;
    while i < xs.len()
        invariant
            i <= xs@.len(),
            xs@.len() == ys@.len(),
            forall|k: int| 0 <= k < i ==> const_eq_of(#[trigger] xs@[k], ys@[k]),
        decreases xs@.len() - i,
    {
        if !const_eq(&xs[i], &ys[i]) {
            return false;
        }
        i = i + 1;
    }
    true
}

/// Whether an integer constant fits the Rust integer type of this name; `true` for any
/// other constant, and for a name that is no integer type.
pub open spec fn int_fits(name: Seq<char>, value: Const) -> bool {
    match value {
        Const::Int(i) => if name == "u8"@ {
            0 <= i <= u8::MAX
        } else if name == "u16"@ {
            0 <= i <= u16::MAX
        } else if name == "u32"@ {
            0 <= i <= u32::MAX
        } else if name == "u64"@ {
            0 <= i
        } else if name == "usize"@ {
            0 <= i <= usize::MAX
        } else if name == "i8"@ {
            i8::MIN <= i <= i8::MAX
        } else if name == "i16"@ {
            i16::MIN <= i <= i16::MAX
        } else if name == "i32"@ {
            i32::MIN <= i <= i32::MAX
        } else if name == "isize"@ {
            isize::MIN <= i <= isize::MAX
        } else {
            true
        },
        _ => true,
    }
}

pub open spec fn is_int_name(n: Seq<char>) -> bool {
    is_unsigned_name(n) || is_signed_name(n)
}

pub open spec fn is_set_or_vec_name(n: Seq<char>) -> bool {
    n == "Vec"@ || n == "BTreeSet"@ || n == "HashSet"@
}

/// Whether the field's own Rust type can hold `value`, which the spec type alone cannot
/// say: `uint` covers every unsigned width, so 256 is a `uint` that no `u8` holds.
///
/// On a list or set a choice names one item, so it is the item type that has to hold it.
/// `true` for anything not recognized: the spec-level check has had its say.
pub open spec fn field_holds_of(ty: RustType, value: Const, position: Position) -> bool
    decreases ty,
{
    match ty {
        RustType::Other => true,
        RustType::Path { name, args } => {
            let n = name@;
            if is_int_name(n) {
                int_fits(n, value)
            } else if n == "f32"@ {
                match value {
                    Const::Float { fits_f32, .. } => fits_f32,
                    _ => true,
                }
            } else if is_set_or_vec_name(n) {
                if args@.len() == 0 {
                    true
                } else {
                    match value {
                        Const::List(items) => forall|i: int|
                            0 <= i < items@.len() ==> field_holds_of(
                                args@[0],
                                #[trigger] items@[i],
                                position,
                            ),
                        _ => position == Position::Choice && field_holds_of(
                            args@[0],
                            value,
                            position,
                        ),
                    }
                }
            } else {
                true
            }
        },
    }
}

fn int_fits_exec(name: &str, value: &Const) -> (res: bool)
    ensures
        res == int_fits(name@, *value),
{
    let i = match value {
        Const::Int(i) => *i,
        _ => return true,
    };
    if str_eq(name, "u8") {
        0 <= i && i <= 255
    } else if str_eq(name, "u16") {
        0 <= i && i <= 65535
    } else if str_eq(name, "u32") {
        0 <= i && i <= 0xffff_ffff
    } else if str_eq(name, "u64") {
        0 <= i
    } else if str_eq(name, "usize") {
        0 <= i && (i as u64) <= (usize::MAX as u64)
    } else if str_eq(name, "i8") {
        -128 <= i && i <= 127
    } else if str_eq(name, "i16") {
        -32768 <= i && i <= 32767
    } else if str_eq(name, "i32") {
        -2147483648 <= i && i <= 2147483647
    } else if str_eq(name, "isize") {
        (isize::MIN as i64) <= i && i <= (isize::MAX as i64)
    } else {
        true
    }
}

/// Whether the field's own Rust type can hold `value`.
pub fn field_holds(ty: &RustType, value: &Const, position: Position) -> (res: bool)
    ensures
        res == field_holds_of(*ty, *value, position),
    decreases ty, 0nat,
{
    let (name, args) = match ty {
        RustType::Path { name, args } => (name.as_str(), args),
        RustType::Other => return true,
    };
    if is_unsigned(name) || is_signed(name) {
        int_fits_exec(name, value)
    } else if str_eq(name, "f32") {
        match value {
            Const::Float { fits_f32, .. } => *fits_f32,
            _ => true,
        }
    } else if str_eq(name, "Vec") || str_eq(name, "BTreeSet") || str_eq(name, "HashSet") {
        if args.len() == 0 {
            return true;
        }
        match value {
            Const::List(items) => all_held(&args[0], items, position),
            _ => position == Position::Choice && field_holds(&args[0], value, position),
        }
    } else {
        true
    }
}

fn all_held(item: &RustType, items: &Vec<Const>, position: Position) -> (res: bool)
    ensures
        res == forall|i: int|
            0 <= i < items@.len() ==> field_holds_of(*item, #[trigger] items@[i], position),
    decreases item, 1nat,
{
    let mut i: usize = 0;
    while i < items.len()
        invariant
            i <= items@.len(),
            forall|k: int| 0 <= k < i ==> field_holds_of(*item, #[trigger] items@[k], position),
        decreases items@.len() - i,
    {
        if !field_holds(item, &items[i], position) {
            return false;
        }
        i = i + 1;
    }
    true
}

/// What a `#[usage(...)]` field of a `usage::Config` struct declares, as the checks read it.
pub struct SettingDecl {
    /// The field's name as written, `r#` included.
    pub field_name: String,
    /// `key = "..."`.
    pub key: Option<String>,
    /// The struct's `prefix = "..."`.
    pub prefix: Option<String>,
    /// The field's type as written.
    pub field_type: RustType,
    /// `ty = "..."`.
    pub ty: Option<String>,
    /// `optional = ...`.
    pub optional: Option<bool>,
    /// `default = ...` or `default(...)`.
    pub default: Option<Const>,
    /// Whether `default_fn = ...` was given.
    pub default_fn: bool,
    /// `choices(...)`.
    pub choices: Vec<Const>,
    /// Whether `merge = ...` was given.
    pub merge: bool,
    /// Whether `parse = ...` was given.
    pub parse: bool,
}

/// Why a setting's declaration is refused.
#[derive(Clone, Copy, PartialEq, Eq, Structural, Debug)]
pub enum SettingError {
    /// `ty` names no spec type.
    UnknownTy,
    /// `ty` names a type the field could never read.
    UnreadableTy,
    /// No `ty`, and the field's type names no spec type on its own.
    NoSpecType,
    /// `optional` says other than whether the field is an `Option`.
    OptionalDisagrees,
    /// A `default` on an `Option` field.
    OptionalWithDefault,
    /// Both `default` and `default_fn`.
    DefaultAndDefaultFn,
    /// A `default_fn` on an `Option` field.
    OptionalWithDefaultFn,
    /// The default is not a value of the setting's type.
    DefaultNotAdmitted,
    /// The default does not fit the field's Rust type.
    DefaultDoesNotFit,
    /// The default is not one of the choices.
    DefaultNotAChoice,
    /// One of the default's several values is not one of the choices.
    DefaultItemNotAChoice,
    /// Choices on a `bool`.
    ChoicesOnBool,
    /// A choice is not a value of the setting's type.
    ChoiceNotAdmitted,
    /// A choice does not fit the field's Rust type.
    ChoiceDoesNotFit,
    /// `merge` on a setting that is not a collection.
    MergeOnScalar,
    /// `parse` on a setting that is not a collection.
    ParseOnScalar,
}

/// A declaration that passed: its registry key, its spec type, and whether it may be absent.
pub struct Setting {
    pub key: String,
    pub ty: Ty,
    pub optional: bool,
}

pub open spec fn opt_string(s: Option<String>) -> Option<Seq<char>> {
    match s {
        Some(s) => Some(s@),
        None => None,
    }
}

/// The field's name without a raw-identifier `r#`.
pub open spec fn unraw_of(name: Seq<char>) -> Seq<char> {
    if "r#"@.is_prefix_of(name) {
        name.skip(2)
    } else {
        name
    }
}

/// The registry key: `key`, else the field's name, under the struct's `prefix` if any.
pub open spec fn setting_key_of(d: SettingDecl) -> Seq<char> {
    let key = match d.key {
        Some(k) => k@,
        None => unraw_of(d.field_name@),
    };
    match d.prefix {
        Some(p) => p@ + seq!['.'] + key,
        None => key,
    }
}

/// The declared type: `ty` if given (and the field could read it), else inferred from the
/// field's type with `Option` peeled.
pub open spec fn setting_ty_of(d: SettingDecl) -> Result<Ty, SettingError> {
    let inner = peel_option_of(d.field_type).1;
    match d.ty {
        Some(name) => match parse_ty_name_of(name@) {
            None => Err(SettingError::UnknownTy),
            Some(declared) => if reads_of(inner, declared) == Some(false) {
                Err(SettingError::UnreadableTy)
            } else {
                Ok(declared)
            },
        },
        None => match infer_ty_of(inner) {
            Some(t) => Ok(t),
            None => Err(SettingError::NoSpecType),
        },
    }
}

/// The values of a default that have to be choices: a list default's items on a list or
/// set setting, else the default itself.
pub open spec fn declared_values(ty: Ty, default: Const) -> Seq<Const> {
    match default {
        Const::List(items) => if ty is List || ty is SetOf {
            items@
        } else {
            seq![default]
        },
        _ => seq![default],
    }
}

pub open spec fn is_a_choice(choices: Seq<Const>, value: Const) -> bool {
    exists|i: int| 0 <= i < choices.len() && const_eq_of(#[trigger] choices[i], value)
}

/// The first choice, from the `k`th on, that the setting's type or the field refuses.
pub open spec fn choice_error(ty: Ty, inner: RustType, choices: Seq<Const>, k: int) -> Option<
    SettingError,
>
    decreases choices.len() - k,
{
    if k < 0 || k >= choices.len() {
        None
    } else if !admits_of(ty, choices[k], Position::Choice) {
        Some(SettingError::ChoiceNotAdmitted)
    } else if !field_holds_of(inner, choices[k], Position::Choice) {
        Some(SettingError::ChoiceDoesNotFit)
    } else {
        choice_error(ty, inner, choices, k + 1)
    }
}

/// The checks on one setting, in the order they run, once its type is known.
pub open spec fn setting_error_of(d: SettingDecl, ty: Ty) -> Option<SettingError> {
    let (optional, inner) = peel_option_of(d.field_type);
    let choices = d.choices@;
    if d.optional is Some && d.optional->0 != optional {
        Some(SettingError::OptionalDisagrees)
    } else if optional && d.default is Some {
        Some(SettingError::OptionalWithDefault)
    } else if d.default is Some && d.default_fn {
        Some(SettingError::DefaultAndDefaultFn)
    } else if optional && d.default_fn {
        Some(SettingError::OptionalWithDefaultFn)
    } else if d.default is Some && !admits_of(ty, d.default->0, Position::Default) {
        Some(SettingError::DefaultNotAdmitted)
    } else if d.default is Some && !field_holds_of(inner, d.default->0, Position::Default) {
        Some(SettingError::DefaultDoesNotFit)
    } else if d.default is Some && choices.len() > 0 && !(forall|j: int|
        0 <= j < declared_values(ty, d.default->0).len() ==> is_a_choice(
            choices,
            #[trigger] declared_values(ty, d.default->0)[j],
        )) {
        if declared_values(ty, d.default->0).len() > 1 {
            Some(SettingError::DefaultItemNotAChoice)
        } else {
            Some(SettingError::DefaultNotAChoice)
        }
    } else if choices.len() > 0 && ty is Bool {
        Some(SettingError::ChoicesOnBool)
    } else if choice_error(ty, inner, choices, 0) is Some {
        choice_error(ty, inner, choices, 0)
    } else if d.merge && !is_collection_of(ty) {
        Some(SettingError::MergeOnScalar)
    } else if d.parse && !is_collection_of(ty) {
        Some(SettingError::ParseOnScalar)
    } else {
        None
    }
}

/// What the derive makes of one setting's declaration: its key, type and optionality, or
/// the first thing wrong with it.
pub open spec fn check_setting_of(d: SettingDecl) -> Result<(Seq<char>, Ty, bool), SettingError> {
    match setting_ty_of(d) {
        Err(e) => Err(e),
        Ok(ty) => match setting_error_of(d, ty) {
            Some(e) => Err(e),
            None => Ok((setting_key_of(d), ty, peel_option_of(d.field_type).0)),
        },
    }
}

fn setting_key(d: &SettingDecl) -> (res: String)
    ensures
        res@ == setting_key_of(*d),
{
    let name = d.field_name.as_str();
    let unraw = match strip_prefix(name, "r#") {
        Some(rest) => rest,
        None => name,
    };
    proof {
        reveal_strlit("r#");
    }
    assert(unraw@ == unraw_of(d.field_name@));
    let key = match &d.key {
        Some(k) => k.as_str(),
        None => unraw,
    };
    match &d.prefix {
        Some(p) => {
            let mut out = owned(p.as_str());
            out.append(".");
            out.append(key);
            proof {
                reveal_strlit(".");
            }
            assert(out@ =~= setting_key_of(*d));
            out
        },
        None => owned(key),
    }
}

fn setting_ty(d: &SettingDecl) -> (res: Result<Ty, SettingError>)
    ensures
        res == setting_ty_of(*d),
{
    let (_, inner) = peel_option(&d.field_type);
    match &d.ty {
        Some(name) => match parse_ty_name(name.as_str()) {
            None => Err(SettingError::UnknownTy),
            Some(declared) => {
                let readable = reads(inner, &declared);
                if readable == Some(false) {
                    Err(SettingError::UnreadableTy)
                } else {
                    Ok(declared)
                }
            },
        },
        None => match infer_ty(inner) {
            Some(t) => Ok(t),
            None => Err(SettingError::NoSpecType),
        },
    }
}

fn is_choice(choices: &Vec<Const>, value: &Const) -> (res: bool)
    ensures
        res == is_a_choice(choices@, *value),
{
    let mut i: usize = 0;
    while i < choices.len()
        invariant
            i <= choices@.len(),
            forall|k: int| 0 <= k < i ==> !const_eq_of(#[trigger] choices@[k], *value),
        decreases choices@.len() - i,
    {
        if const_eq(&choices[i], value) {
            return true;
        }
        i = i + 1;
    }
    false
}

/// Whether every value the default declares is one of the choices; and how many it declares.
fn default_within_choices(ty: &Ty, default: &Const, choices: &Vec<Const>) -> (res: (bool, usize))
    ensures
        res.0 == forall|j: int|
            0 <= j < declared_values(*ty, *default).len() ==> is_a_choice(
                choices@,
                #[trigger] declared_values(*ty, *default)[j],
            ),
        res.1 == declared_values(*ty, *default).len(),
{
    let collection = match ty {
        Ty::List(_) | Ty::SetOf(_) => true,
        _ => false,
    };
    match default {
        Const::List(items) => if collection {
            let mut i: usize = 0;
            while i < items.len()
                invariant
                    i <= items@.len(),
                    declared_values(*ty, *default) == items@,
                    forall|k: int| 0 <= k < i ==> is_a_choice(choices@, #[trigger] items@[k]),
                decreases items@.len() - i,
            {
                if !is_choice(choices, &items[i]) {
                    return (false, items.len());
                }
                i = i + 1;
            }
            return (true, items.len());
        },
        _ => {},
    }
    assert(declared_values(*ty, *default) == seq![*default]);
    let found = is_choice(choices, default);
    assert(declared_values(*ty, *default)[0] == *default);
    if !found {
        assert(!is_a_choice(choices@, declared_values(*ty, *default)[0]));
    }
    (found, 1)
}

fn first_choice_error(ty: &Ty, inner: &RustType, choices: &Vec<Const>) -> (res: Option<
    SettingError,
>)
    ensures
        res == choice_error(*ty, *inner, choices@, 0),
{
    let mut i: usize = 0;
    while i < choices.len()
        invariant
            i <= choices@.len(),
            choice_error(*ty, *inner, choices@, 0) == choice_error(*ty, *inner, choices@, i as int),
        decreases choices@.len() - i,
    {
        if !ty.admits(&choices[i], Position::Choice) {
            return Some(SettingError::ChoiceNotAdmitted);
        }
        if !field_holds(inner, &choices[i], Position::Choice) {
            return Some(SettingError::ChoiceDoesNotFit);
        }
        i = i + 1;
    }
    None
}

/// What the derive makes of one setting's declaration.
///
/// The type comes first: `ty` if given, refused when the field could never read it, else
/// what the field's type names. Then, in this order: `optional` against the field's
/// `Option`, a default or `default_fn` on an `Option`, both of them at once, the default
/// against the type and against the field, the default against the choices, choices on a
/// `bool`, each choice against the type and the field, and `merge` or `parse` on a setting
/// that is not a collection.
pub fn check_setting(d: &SettingDecl) -> (res: Result<Setting, SettingError>)
    ensures
        match res {
            Ok(s) => check_setting_of(*d) == Ok::<(Seq<char>, Ty, bool), SettingError>(
                (s.key@, s.ty, s.optional),
            ),
            Err(e) => check_setting_of(*d) == Err::<(Seq<char>, Ty, bool), SettingError>(e),
        },
{
    let ty = match setting_ty(d) {
        Ok(ty) => ty,
        Err(e) => return Err(e),
    };
    let (optional, inner) = peel_option(&d.field_type);
    let ghost err = setting_error_of(*d, ty);
    if let Some(explicit) = d.optional {
        if explicit != optional {
            return Err(SettingError::OptionalDisagrees);
        }
    }
    if optional && d.default.is_some() {
        return Err(SettingError::OptionalWithDefault);
    }
    if d.default.is_some() && d.default_fn {
        return Err(SettingError::DefaultAndDefaultFn);
    }
    if optional && d.default_fn {
        return Err(SettingError::OptionalWithDefaultFn);
    }
    if let Some(default) = &d.default {
        if !ty.admits(default, Position::Default) {
            return Err(SettingError::DefaultNotAdmitted);
        }
        if !field_holds(inner, default, Position::Default) {
            return Err(SettingError::DefaultDoesNotFit);
        }
        if d.choices.len() > 0 {
            let (within, count) = default_within_choices(&ty, default, &d.choices);
            if !within {
                if count > 1 {
                    return Err(SettingError::DefaultItemNotAChoice);
                } else {
                    return Err(SettingError::DefaultNotAChoice);
                }
            }
        }
    }
    let is_bool = match ty {
        Ty::Bool => true,
        _ => false,
    };
    if d.choices.len() > 0 && is_bool {
        return Err(SettingError::ChoicesOnBool);
    }
    if let Some(e) = first_choice_error(&ty, inner, &d.choices) {
        return Err(e);
    }
    if d.merge && !ty.is_collection() {
        return Err(SettingError::MergeOnScalar);
    }
    if d.parse && !ty.is_collection() {
        return Err(SettingError::ParseOnScalar);
    }
    let key = setting_key(d);
    Ok(Setting { key, ty, optional })
}

/// An accepted setting as the registry holds it: what the checks decided, and the default and
/// choices as declared, which nothing coerces.
pub struct Prop {
    pub key: String,
    pub ty: Ty,
    pub optional: bool,
    pub default: Option<Const>,
    pub choices: Vec<Const>,
}

/// One setting's declaration, checked and kept: on success the setting carries the declared
/// default and choices unchanged.
pub fn accept_setting(d: SettingDecl) -> (res: Result<Prop, SettingError>)
    ensures
        match res {
            Ok(p) => {
                &&& check_setting_of(d) == Ok::<(Seq<char>, Ty, bool), SettingError>(
                    (p.key@, p.ty, p.optional),
                )
                &&& p.default == d.default
                &&& p.choices == d.choices
            },
            Err(e) => check_setting_of(d) == Err::<(Seq<char>, Ty, bool), SettingError>(e),
        },
{
    match check_setting(&d) {
        Err(e) => Err(e),
        Ok(s) => {
            let SettingDecl { default, choices, .. } = d;
            Ok(Prop { key: s.key, ty: s.ty, optional: s.optional, default, choices })
        },
    }
}

/// Nothing coerces a declared default, so a default is never admitted where the same value
/// as a choice would not be.
pub proof fn lemma_default_is_stricter_than_choice(ty: Ty, value: Const)
    ensures
        admits_of(ty, value, Position::Default) ==> admits_of(ty, value, Position::Choice),
    decreases ty,
{
    match ty {
        Ty::List(item) | Ty::SetOf(item) => {
            match value {
                Const::List(items) => {
                    assert forall|i: int|
                        0 <= i < items@.len() && admits_of(*item, items@[i], Position::Default) implies admits_of(
                        *item,
                        #[trigger] items@[i],
                        Position::Choice,
                    ) by {
                        lemma_default_is_stricter_than_choice(*item, items@[i]);
                    }
                },
                _ => {},
            }
        },
        _ => {},
    }
}

/// A default for a list or set is the whole value: a lone scalar is refused.
pub proof fn lemma_a_scalar_default_never_fills_a_collection(ty: Ty, value: Const)
    requires
        ty is List || ty is SetOf,
        !(value is List),
    ensures
        !admits_of(ty, value, Position::Default),
{
}

/// A field never refuses the type it would be inferred to have.
pub proof fn lemma_a_field_reads_its_inferred_type(field: RustType)
    ensures
        infer_ty_of(field) matches Some(ty) ==> reads_of(field, ty) != Some(false),
    decreases field,
{
    if let RustType::Path { name, args } = field {
        if args@.len() > 0 {
            lemma_a_field_reads_its_inferred_type(args@[0]);
        }
        if args@.len() > 1 {
            lemma_a_field_reads_its_inferred_type(args@[1]);
        }
    }
}


/// The `ty` attribute's text, or nothing.
pub open spec fn ty_attr_of(d: SettingDecl) -> Seq<char> {
    match d.ty {
        Some(t) => t@,
        None => seq![],
    }
}

/// The name of the setting's spec type, where the declaration has one.
pub open spec fn setting_ty_name_of(d: SettingDecl) -> Seq<char> {
    match setting_ty_of(d) {
        Ok(ty) => type_name_of(ty),
        Err(_) => seq![],
    }
}

/// What the author of a refused declaration reads: `field_type` is the field's Rust type as
/// written, `Option` peeled.
pub open spec fn setting_message_of(e: SettingError, d: SettingDecl, field_type: Seq<char>) -> Seq<
    char,
> {
    match e {
        SettingError::UnknownTy => "`"@ + ty_attr_of(d) + "` is not a spec type"@,
        SettingError::UnreadableTy => "a `"@ + ty_attr_of(d) + "` setting cannot be read into `"@ + field_type + "`: `ty` renames what the spec calls a setting, and cannot change what the field holds"@,
        SettingError::NoSpecType => "this type does not name a spec type on its own; say what the spec should call it, as in `ty = \"duration\"` on a String field"@,
        SettingError::OptionalDisagrees => "`optional` and the field's type disagree: `Option<T>` is how a field says a setting may be absent"@,
        SettingError::OptionalWithDefault => "a setting with a `default` always has a value, so the field cannot be an `Option`: give it the inner type"@,
        SettingError::DefaultAndDefaultFn => "`default` and `default_fn` are two answers to the same question; declare one"@,
        SettingError::OptionalWithDefaultFn => "a setting with a `default_fn` always has a value, so the field cannot be an `Option`: give it the inner type"@,
        SettingError::DefaultNotAdmitted => "the default is not a value `"@ + setting_ty_name_of(d) + "` can hold. Nothing coerces a default — the resolver seeds it as written — so write it as the type the field holds"@,
        SettingError::DefaultDoesNotFit => "the default does not fit `"@ + field_type + "`, which is what this field holds"@,
        SettingError::DefaultNotAChoice => "the default is not one of the declared choices"@,
        SettingError::DefaultItemNotAChoice => "the default has a value that is not one of the declared choices"@,
        SettingError::ChoicesOnBool => "choices on a `bool` cannot say anything its two values do not already"@,
        SettingError::ChoiceNotAdmitted => "a choice is not a value `"@ + setting_ty_name_of(d) + "` can hold. Write it as the type the setting is — a `string` setting's choices are strings, quoted"@,
        SettingError::ChoiceDoesNotFit => "a choice does not fit `"@ + field_type + "`, so nothing could ever supply it"@,
        SettingError::MergeOnScalar => "`merge` says how a collection combines across layers, and this is not one"@,
        SettingError::ParseOnScalar => "`parse` splits one string into several values, and this field holds one"@,
    }
}

/// The message for a refused setting, naming the spec type where it is the reason.
pub fn setting_message(e: SettingError, d: &SettingDecl, field_type: &str) -> (res: String)
    ensures
        res@ == setting_message_of(e, *d, field_type@),
{
    let ty_attr: &str = match &d.ty {
        Some(t) => t.as_str(),
        None => "",
    };
    proof {
        reveal_strlit("");
    }
    let ty_text = match setting_ty(d) {
        Ok(t) => ty_name(&t),
        Err(_) => String::new(),
    };
    match e {
        SettingError::UnknownTy => {
            let mut s = String::from_str("`");
            s.append(ty_attr);
            s.append("` is not a spec type");
            s
        },
        SettingError::UnreadableTy => {
            let mut s = String::from_str("a `");
            s.append(ty_attr);
            s.append("` setting cannot be read into `");
            s.append(field_type);
            s.append("`: `ty` renames what the spec calls a setting, and cannot change what the field holds");
            s
        },
        SettingError::NoSpecType => {
            let mut s = String::from_str("this type does not name a spec type on its own; say what the spec should call it, as in `ty = \"duration\"` on a String field");
            s
        },
        SettingError::OptionalDisagrees => {
            let mut s = String::from_str("`optional` and the field's type disagree: `Option<T>` is how a field says a setting may be absent");
            s
        },
        SettingError::OptionalWithDefault => {
            let mut s = String::from_str("a setting with a `default` always has a value, so the field cannot be an `Option`: give it the inner type");
            s
        },
        SettingError::DefaultAndDefaultFn => {
            let mut s = String::from_str("`default` and `default_fn` are two answers to the same question; declare one");
            s
        },
        SettingError::OptionalWithDefaultFn => {
            let mut s = String::from_str("a setting with a `default_fn` always has a value, so the field cannot be an `Option`: give it the inner type");
            s
        },
        SettingError::DefaultNotAdmitted => {
            let mut s = String::from_str("the default is not a value `");
            s.append(ty_text.as_str());
            s.append("` can hold. Nothing coerces a default — the resolver seeds it as written — so write it as the type the field holds");
            s
        },
        SettingError::DefaultDoesNotFit => {
            let mut s = String::from_str("the default does not fit `");
            s.append(field_type);
            s.append("`, which is what this field holds");
            s
        },
        SettingError::DefaultNotAChoice => {
            let mut s = String::from_str("the default is not one of the declared choices");
            s
        },
        SettingError::DefaultItemNotAChoice => {
            let mut s = String::from_str("the default has a value that is not one of the declared choices");
            s
        },
        SettingError::ChoicesOnBool => {
            let mut s = String::from_str("choices on a `bool` cannot say anything its two values do not already");
            s
        },
        SettingError::ChoiceNotAdmitted => {
            let mut s = String::from_str("a choice is not a value `");
            s.append(ty_text.as_str());
            s.append("` can hold. Write it as the type the setting is — a `string` setting's choices are strings, quoted");
            s
        },
        SettingError::ChoiceDoesNotFit => {
            let mut s = String::from_str("a choice does not fit `");
            s.append(field_type);
            s.append("`, so nothing could ever supply it");
            s
        },
        SettingError::MergeOnScalar => {
            let mut s = String::from_str("`merge` says how a collection combines across layers, and this is not one");
            s
        },
        SettingError::ParseOnScalar => {
            let mut s = String::from_str("`parse` splits one string into several values, and this field holds one");
            s
        },
    }
}

/// A Rust integer type holds exactly the constants inside its own range: `u8` holds
/// 0 to 255, `u16` 0 to 65535, `u32` 0 to 4294967295, `u64` every non-negative constant,
/// `i8` -128 to 127, `i16` -32768 to 32767, `i32` -2147483648 to 2147483647, and `usize`
/// and `isize` their platform's ranges.
pub proof fn lemma_an_integer_type_holds_its_own_range(i: i64)
    ensures
        int_fits("u8"@, Const::Int(i)) <==> 0 <= i <= 255,
        int_fits("u16"@, Const::Int(i)) <==> 0 <= i <= 65535,
        int_fits("u32"@, Const::Int(i)) <==> 0 <= i <= 4294967295,
        int_fits("u64"@, Const::Int(i)) <==> 0 <= i,
        int_fits("usize"@, Const::Int(i)) <==> 0 <= i <= usize::MAX,
        int_fits("i8"@, Const::Int(i)) <==> -128 <= i <= 127,
        int_fits("i16"@, Const::Int(i)) <==> -32768 <= i <= 32767,
        int_fits("i32"@, Const::Int(i)) <==> -2147483648 <= i <= 2147483647,
        int_fits("isize"@, Const::Int(i)) <==> isize::MIN <= i <= isize::MAX,
        int_fits("i64"@, Const::Int(i)),
{
    reveal_strlit("u8");
    reveal_strlit("u16");
    reveal_strlit("u32");
    reveal_strlit("u64");
    reveal_strlit("usize");
    reveal_strlit("i8");
    reveal_strlit("i16");
    reveal_strlit("i32");
    reveal_strlit("isize");
    reveal_strlit("i64");
    assert("u16"@.len() != "u8"@.len());
    assert("u16"@ != "u8"@);
    assert("u32"@.len() != "u8"@.len());
    assert("u32"@ != "u8"@);
    assert("u32"@[1] != "u16"@[1]);
    assert("u32"@ != "u16"@);
    assert("u64"@.len() != "u8"@.len());
    assert("u64"@ != "u8"@);
    assert("u64"@[1] != "u16"@[1]);
    assert("u64"@ != "u16"@);
    assert("u64"@[1] != "u32"@[1]);
    assert("u64"@ != "u32"@);
    assert("usize"@.len() != "u8"@.len());
    assert("usize"@ != "u8"@);
    assert("usize"@.len() != "u16"@.len());
    assert("usize"@ != "u16"@);
    assert("usize"@.len() != "u32"@.len());
    assert("usize"@ != "u32"@);
    assert("usize"@.len() != "u64"@.len());
    assert("usize"@ != "u64"@);
    assert("i8"@[0] != "u8"@[0]);
    assert("i8"@ != "u8"@);
    assert("i8"@.len() != "u16"@.len());
    assert("i8"@ != "u16"@);
    assert("i8"@.len() != "u32"@.len());
    assert("i8"@ != "u32"@);
    assert("i8"@.len() != "u64"@.len());
    assert("i8"@ != "u64"@);
    assert("i8"@.len() != "usize"@.len());
    assert("i8"@ != "usize"@);
    assert("i16"@.len() != "u8"@.len());
    assert("i16"@ != "u8"@);
    assert("i16"@[0] != "u16"@[0]);
    assert("i16"@ != "u16"@);
    assert("i16"@[0] != "u32"@[0]);
    assert("i16"@ != "u32"@);
    assert("i16"@[0] != "u64"@[0]);
    assert("i16"@ != "u64"@);
    assert("i16"@.len() != "usize"@.len());
    assert("i16"@ != "usize"@);
    assert("i16"@.len() != "i8"@.len());
    assert("i16"@ != "i8"@);
    assert("i32"@.len() != "u8"@.len());
    assert("i32"@ != "u8"@);
    assert("i32"@[0] != "u16"@[0]);
    assert("i32"@ != "u16"@);
    assert("i32"@[0] != "u32"@[0]);
    assert("i32"@ != "u32"@);
    assert("i32"@[0] != "u64"@[0]);
    assert("i32"@ != "u64"@);
    assert("i32"@.len() != "usize"@.len());
    assert("i32"@ != "usize"@);
    assert("i32"@.len() != "i8"@.len());
    assert("i32"@ != "i8"@);
    assert("i32"@[1] != "i16"@[1]);
    assert("i32"@ != "i16"@);
    assert("isize"@.len() != "u8"@.len());
    assert("isize"@ != "u8"@);
    assert("isize"@.len() != "u16"@.len());
    assert("isize"@ != "u16"@);
    assert("isize"@.len() != "u32"@.len());
    assert("isize"@ != "u32"@);
    assert("isize"@.len() != "u64"@.len());
    assert("isize"@ != "u64"@);
    assert("isize"@[0] != "usize"@[0]);
    assert("isize"@ != "usize"@);
    assert("isize"@.len() != "i8"@.len());
    assert("isize"@ != "i8"@);
    assert("isize"@.len() != "i16"@.len());
    assert("isize"@ != "i16"@);
    assert("isize"@.len() != "i32"@.len());
    assert("isize"@ != "i32"@);
    assert("i64"@.len() != "u8"@.len());
    assert("i64"@ != "u8"@);
    assert("i64"@[0] != "u16"@[0]);
    assert("i64"@ != "u16"@);
    assert("i64"@[0] != "u32"@[0]);
    assert("i64"@ != "u32"@);
    assert("i64"@[0] != "u64"@[0]);
    assert("i64"@ != "u64"@);
    assert("i64"@.len() != "usize"@.len());
    assert("i64"@ != "usize"@);
    assert("i64"@.len() != "i8"@.len());
    assert("i64"@ != "i8"@);
    assert("i64"@[1] != "i16"@[1]);
    assert("i64"@ != "i16"@);
    assert("i64"@[1] != "i32"@[1]);
    assert("i64"@ != "i32"@);
    assert("i64"@.len() != "isize"@.len());
    assert("i64"@ != "isize"@);
}

proof fn lemma_choice_error(ty: Ty, inner: RustType, choices: Seq<Const>, k: int)
    requires
        0 <= k,
    ensures
        choice_error(ty, inner, choices, k) is None <==> forall|j: int|
            k <= j < choices.len() ==> admits_of(ty, #[trigger] choices[j], Position::Choice) && field_holds_of(
                inner,
                choices[j],
                Position::Choice,
            ),
    decreases choices.len() - k,
{
    if k < choices.len() {
        lemma_choice_error(ty, inner, choices, k + 1);
    }
}

/// A setting is accepted exactly when its type is known and it keeps every rule: `optional`,
/// when given, agrees with the field's `Option`; an `Option` field has neither a default nor a
/// `default_fn`, and no field has both; a default is admitted by the type, fits the field's
/// Rust type, and is (item by item, for a list) one of the choices when there are any; a `bool`
/// has no choices; every choice is admitted by the type and fits the field; and only a
/// collection is merged or parsed. An accepted setting is optional exactly when its field is an
/// `Option`.
pub proof fn lemma_accepted_exactly_when_every_rule_holds(d: SettingDecl)
    ensures
        ({
            let (optional, inner) = peel_option_of(d.field_type);
            let choices = d.choices@;
            let rules = |ty: Ty| {
                &&& (d.optional matches Some(o) ==> o == optional)
                &&& !(optional && d.default is Some)
                &&& !(d.default is Some && d.default_fn)
                &&& !(optional && d.default_fn)
                &&& (d.default matches Some(v) ==> admits_of(ty, v, Position::Default) && field_holds_of(
                    inner,
                    v,
                    Position::Default,
                ) && (choices.len() > 0 ==> forall|j: int|
                    0 <= j < declared_values(ty, v).len() ==> is_a_choice(
                        choices,
                        #[trigger] declared_values(ty, v)[j],
                    )))
                &&& !(choices.len() > 0 && ty is Bool)
                &&& (forall|j: int|
                    0 <= j < choices.len() ==> admits_of(ty, #[trigger] choices[j], Position::Choice)
                        && field_holds_of(inner, choices[j], Position::Choice))
                &&& (d.merge ==> is_collection_of(ty))
                &&& (d.parse ==> is_collection_of(ty))
            };
            &&& check_setting_of(d) matches Ok((key, ty, opt)) ==> (setting_ty_of(d) == Ok::<Ty, SettingError>(ty)
                && rules(ty) && opt == optional && key == setting_key_of(d))
            &&& setting_ty_of(d) matches Ok(ty) ==> (rules(ty) ==> check_setting_of(d) is Ok)
            &&& setting_ty_of(d) is Err ==> check_setting_of(d) is Err
        }),
{
    let inner = peel_option_of(d.field_type).1;
    match setting_ty_of(d) {
        Ok(ty) => lemma_choice_error(ty, inner, d.choices@, 0),
        Err(_) => {},
    }
}

/// The spec type a Rust type names: `bool` a bool, every unsigned integer `uint`, every signed
/// one `int`, `f32` and `f64` `float`, `String` a string, `PathBuf` a path, `Value` anything,
/// `Vec<T>` a list of what `T` names, and `BTreeMap<String, V>` a map of what `V` names; a type
/// outside these names none.
pub proof fn lemma_inferred_types(name: String, args: Vec<RustType>)
    ensures
        ({
            let ty = RustType::Path { name, args };
            let n = name@;
            &&& n == "bool"@ ==> infer_ty_of(ty) == Some(Ty::Bool)
            &&& (n == "u8"@ || n == "u16"@ || n == "u32"@ || n == "u64"@ || n == "usize"@) ==> infer_ty_of(ty) == Some(Ty::Uint)
            &&& (n == "i8"@ || n == "i16"@ || n == "i32"@ || n == "i64"@ || n == "isize"@) ==> infer_ty_of(ty) == Some(Ty::Int)
            &&& (n == "f32"@ || n == "f64"@) ==> infer_ty_of(ty) == Some(Ty::Float)
            &&& n == "String"@ ==> infer_ty_of(ty) == Some(Ty::String)
            &&& n == "PathBuf"@ ==> infer_ty_of(ty) == Some(Ty::Path)
            &&& n == "Value"@ ==> infer_ty_of(ty) == Some(Ty::Any)
            &&& n == "Vec"@ && args@.len() > 0 ==> infer_ty_of(ty) == (match infer_ty_of(args@[0]) {
                Some(item) => Some(Ty::List(Box::new(item))),
                None => None,
            })
            &&& n == "BTreeMap"@ && args@.len() > 1 && infer_ty_of(args@[0]) == Some(Ty::String) ==> infer_ty_of(ty) == (match infer_ty_of(args@[1]) {
                Some(v) => Some(Ty::MapOf(Box::new(v))),
                None => None,
            })
            &&& n == "BTreeMap"@ && args@.len() > 0 && infer_ty_of(args@[0]) != Some(Ty::String) ==> infer_ty_of(ty) is None
        }),
{
    reveal_strlit("bool");
    reveal_strlit("u8");
    reveal_strlit("u16");
    reveal_strlit("u32");
    reveal_strlit("u64");
    reveal_strlit("usize");
    reveal_strlit("i8");
    reveal_strlit("i16");
    reveal_strlit("i32");
    reveal_strlit("i64");
    reveal_strlit("isize");
    reveal_strlit("f32");
    reveal_strlit("f64");
    reveal_strlit("String");
    reveal_strlit("PathBuf");
    reveal_strlit("Value");
    reveal_strlit("Vec");
    reveal_strlit("BTreeMap");
    assert("u8"@.len() != "bool"@.len());
    assert("u8"@ != "bool"@);
    assert("u16"@.len() != "bool"@.len());
    assert("u16"@ != "bool"@);
    assert("u16"@.len() != "u8"@.len());
    assert("u16"@ != "u8"@);
    assert("u32"@.len() != "bool"@.len());
    assert("u32"@ != "bool"@);
    assert("u32"@.len() != "u8"@.len());
    assert("u32"@ != "u8"@);
    assert("u32"@[1] != "u16"@[1]);
    assert("u32"@ != "u16"@);
    assert("u64"@.len() != "bool"@.len());
    assert("u64"@ != "bool"@);
    assert("u64"@.len() != "u8"@.len());
    assert("u64"@ != "u8"@);
    assert("u64"@[1] != "u16"@[1]);
    assert("u64"@ != "u16"@);
    assert("u64"@[1] != "u32"@[1]);
    assert("u64"@ != "u32"@);
    assert("usize"@.len() != "bool"@.len());
    assert("usize"@ != "bool"@);
    assert("usize"@.len() != "u8"@.len());
    assert("usize"@ != "u8"@);
    assert("usize"@.len() != "u16"@.len());
    assert("usize"@ != "u16"@);
    assert("usize"@.len() != "u32"@.len());
    assert("usize"@ != "u32"@);
    assert("usize"@.len() != "u64"@.len());
    assert("usize"@ != "u64"@);
    assert("i8"@.len() != "bool"@.len());
    assert("i8"@ != "bool"@);
    assert("i8"@[0] != "u8"@[0]);
    assert("i8"@ != "u8"@);
    assert("i8"@.len() != "u16"@.len());
    assert("i8"@ != "u16"@);
    assert("i8"@.len() != "u32"@.len());
    assert("i8"@ != "u32"@);
    assert("i8"@.len() != "u64"@.len());
    assert("i8"@ != "u64"@);
    assert("i8"@.len() != "usize"@.len());
    assert("i8"@ != "usize"@);
    assert("i16"@.len() != "bool"@.len());
    assert("i16"@ != "bool"@);
    assert("i16"@.len() != "u8"@.len());
    assert("i16"@ != "u8"@);
    assert("i16"@[0] != "u16"@[0]);
    assert("i16"@ != "u16"@);
    assert("i16"@[0] != "u32"@[0]);
    assert("i16"@ != "u32"@);
    assert("i16"@[0] != "u64"@[0]);
    assert("i16"@ != "u64"@);
    assert("i16"@.len() != "usize"@.len());
    assert("i16"@ != "usize"@);
    assert("i16"@.len() != "i8"@.len());
    assert("i16"@ != "i8"@);
    assert("i32"@.len() != "bool"@.len());
    assert("i32"@ != "bool"@);
    assert("i32"@.len() != "u8"@.len());
    assert("i32"@ != "u8"@);
    assert("i32"@[0] != "u16"@[0]);
    assert("i32"@ != "u16"@);
    assert("i32"@[0] != "u32"@[0]);
    assert("i32"@ != "u32"@);
    assert("i32"@[0] != "u64"@[0]);
    assert("i32"@ != "u64"@);
    assert("i32"@.len() != "usize"@.len());
    assert("i32"@ != "usize"@);
    assert("i32"@.len() != "i8"@.len());
    assert("i32"@ != "i8"@);
    assert("i32"@[1] != "i16"@[1]);
    assert("i32"@ != "i16"@);
    assert("i64"@.len() != "bool"@.len());
    assert("i64"@ != "bool"@);
    assert("i64"@.len() != "u8"@.len());
    assert("i64"@ != "u8"@);
    assert("i64"@[0] != "u16"@[0]);
    assert("i64"@ != "u16"@);
    assert("i64"@[0] != "u32"@[0]);
    assert("i64"@ != "u32"@);
    assert("i64"@[0] != "u64"@[0]);
    assert("i64"@ != "u64"@);
    assert("i64"@.len() != "usize"@.len());
    assert("i64"@ != "usize"@);
    assert("i64"@.len() != "i8"@.len());
    assert("i64"@ != "i8"@);
    assert("i64"@[1] != "i16"@[1]);
    assert("i64"@ != "i16"@);
    assert("i64"@[1] != "i32"@[1]);
    assert("i64"@ != "i32"@);
    assert("isize"@.len() != "bool"@.len());
    assert("isize"@ != "bool"@);
    assert("isize"@.len() != "u8"@.len());
    assert("isize"@ != "u8"@);
    assert("isize"@.len() != "u16"@.len());
    assert("isize"@ != "u16"@);
    assert("isize"@.len() != "u32"@.len());
    assert("isize"@ != "u32"@);
    assert("isize"@.len() != "u64"@.len());
    assert("isize"@ != "u64"@);
    assert("isize"@[0] != "usize"@[0]);
    assert("isize"@ != "usize"@);
    assert("isize"@.len() != "i8"@.len());
    assert("isize"@ != "i8"@);
    assert("isize"@.len() != "i16"@.len());
    assert("isize"@ != "i16"@);
    assert("isize"@.len() != "i32"@.len());
    assert("isize"@ != "i32"@);
    assert("isize"@.len() != "i64"@.len());
    assert("isize"@ != "i64"@);
    assert("f32"@.len() != "bool"@.len());
    assert("f32"@ != "bool"@);
    assert("f32"@.len() != "u8"@.len());
    assert("f32"@ != "u8"@);
    assert("f32"@[0] != "u16"@[0]);
    assert("f32"@ != "u16"@);
    assert("f32"@[0] != "u32"@[0]);
    assert("f32"@ != "u32"@);
    assert("f32"@[0] != "u64"@[0]);
    assert("f32"@ != "u64"@);
    assert("f32"@.len() != "usize"@.len());
    assert("f32"@ != "usize"@);
    assert("f32"@.len() != "i8"@.len());
    assert("f32"@ != "i8"@);
    assert("f32"@[0] != "i16"@[0]);
    assert("f32"@ != "i16"@);
    assert("f32"@[0] != "i32"@[0]);
    assert("f32"@ != "i32"@);
    assert("f32"@[0] != "i64"@[0]);
    assert("f32"@ != "i64"@);
    assert("f32"@.len() != "isize"@.len());
    assert("f32"@ != "isize"@);
    assert("f64"@.len() != "bool"@.len());
    assert("f64"@ != "bool"@);
    assert("f64"@.len() != "u8"@.len());
    assert("f64"@ != "u8"@);
    assert("f64"@[0] != "u16"@[0]);
    assert("f64"@ != "u16"@);
    assert("f64"@[0] != "u32"@[0]);
    assert("f64"@ != "u32"@);
    assert("f64"@[0] != "u64"@[0]);
    assert("f64"@ != "u64"@);
    assert("f64"@.len() != "usize"@.len());
    assert("f64"@ != "usize"@);
    assert("f64"@.len() != "i8"@.len());
    assert("f64"@ != "i8"@);
    assert("f64"@[0] != "i16"@[0]);
    assert("f64"@ != "i16"@);
    assert("f64"@[0] != "i32"@[0]);
    assert("f64"@ != "i32"@);
    assert("f64"@[0] != "i64"@[0]);
    assert("f64"@ != "i64"@);
    assert("f64"@.len() != "isize"@.len());
    assert("f64"@ != "isize"@);
    assert("f64"@[1] != "f32"@[1]);
    assert("f64"@ != "f32"@);
    assert("String"@.len() != "bool"@.len());
    assert("String"@ != "bool"@);
    assert("String"@.len() != "u8"@.len());
    assert("String"@ != "u8"@);
    assert("String"@.len() != "u16"@.len());
    assert("String"@ != "u16"@);
    assert("String"@.len() != "u32"@.len());
    assert("String"@ != "u32"@);
    assert("String"@.len() != "u64"@.len());
    assert("String"@ != "u64"@);
    assert("String"@.len() != "usize"@.len());
    assert("String"@ != "usize"@);
    assert("String"@.len() != "i8"@.len());
    assert("String"@ != "i8"@);
    assert("String"@.len() != "i16"@.len());
    assert("String"@ != "i16"@);
    assert("String"@.len() != "i32"@.len());
    assert("String"@ != "i32"@);
    assert("String"@.len() != "i64"@.len());
    assert("String"@ != "i64"@);
    assert("String"@.len() != "isize"@.len());
    assert("String"@ != "isize"@);
    assert("String"@.len() != "f32"@.len());
    assert("String"@ != "f32"@);
    assert("String"@.len() != "f64"@.len());
    assert("String"@ != "f64"@);
    assert("PathBuf"@.len() != "bool"@.len());
    assert("PathBuf"@ != "bool"@);
    assert("PathBuf"@.len() != "u8"@.len());
    assert("PathBuf"@ != "u8"@);
    assert("PathBuf"@.len() != "u16"@.len());
    assert("PathBuf"@ != "u16"@);
    assert("PathBuf"@.len() != "u32"@.len());
    assert("PathBuf"@ != "u32"@);
    assert("PathBuf"@.len() != "u64"@.len());
    assert("PathBuf"@ != "u64"@);
    assert("PathBuf"@.len() != "usize"@.len());
    assert("PathBuf"@ != "usize"@);
    assert("PathBuf"@.len() != "i8"@.len());
    assert("PathBuf"@ != "i8"@);
    assert("PathBuf"@.len() != "i16"@.len());
    assert("PathBuf"@ != "i16"@);
    assert("PathBuf"@.len() != "i32"@.len());
    assert("PathBuf"@ != "i32"@);
    assert("PathBuf"@.len() != "i64"@.len());
    assert("PathBuf"@ != "i64"@);
    assert("PathBuf"@.len() != "isize"@.len());
    assert("PathBuf"@ != "isize"@);
    assert("PathBuf"@.len() != "f32"@.len());
    assert("PathBuf"@ != "f32"@);
    assert("PathBuf"@.len() != "f64"@.len());
    assert("PathBuf"@ != "f64"@);
    assert("PathBuf"@.len() != "String"@.len());
    assert("PathBuf"@ != "String"@);
    assert("Value"@.len() != "bool"@.len());
    assert("Value"@ != "bool"@);
    assert("Value"@.len() != "u8"@.len());
    assert("Value"@ != "u8"@);
    assert("Value"@.len() != "u16"@.len());
    assert("Value"@ != "u16"@);
    assert("Value"@.len() != "u32"@.len());
    assert("Value"@ != "u32"@);
    assert("Value"@.len() != "u64"@.len());
    assert("Value"@ != "u64"@);
    assert("Value"@[0] != "usize"@[0]);
    assert("Value"@ != "usize"@);
    assert("Value"@.len() != "i8"@.len());
    assert("Value"@ != "i8"@);
    assert("Value"@.len() != "i16"@.len());
    assert("Value"@ != "i16"@);
    assert("Value"@.len() != "i32"@.len());
    assert("Value"@ != "i32"@);
    assert("Value"@.len() != "i64"@.len());
    assert("Value"@ != "i64"@);
    assert("Value"@[0] != "isize"@[0]);
    assert("Value"@ != "isize"@);
    assert("Value"@.len() != "f32"@.len());
    assert("Value"@ != "f32"@);
    assert("Value"@.len() != "f64"@.len());
    assert("Value"@ != "f64"@);
    assert("Value"@.len() != "String"@.len());
    assert("Value"@ != "String"@);
    assert("Value"@.len() != "PathBuf"@.len());
    assert("Value"@ != "PathBuf"@);
    assert("Vec"@.len() != "bool"@.len());
    assert("Vec"@ != "bool"@);
    assert("Vec"@.len() != "u8"@.len());
    assert("Vec"@ != "u8"@);
    assert("Vec"@[0] != "u16"@[0]);
    assert("Vec"@ != "u16"@);
    assert("Vec"@[0] != "u32"@[0]);
    assert("Vec"@ != "u32"@);
    assert("Vec"@[0] != "u64"@[0]);
    assert("Vec"@ != "u64"@);
    assert("Vec"@.len() != "usize"@.len());
    assert("Vec"@ != "usize"@);
    assert("Vec"@.len() != "i8"@.len());
    assert("Vec"@ != "i8"@);
    assert("Vec"@[0] != "i16"@[0]);
    assert("Vec"@ != "i16"@);
    assert("Vec"@[0] != "i32"@[0]);
    assert("Vec"@ != "i32"@);
    assert("Vec"@[0] != "i64"@[0]);
    assert("Vec"@ != "i64"@);
    assert("Vec"@.len() != "isize"@.len());
    assert("Vec"@ != "isize"@);
    assert("Vec"@[0] != "f32"@[0]);
    assert("Vec"@ != "f32"@);
    assert("Vec"@[0] != "f64"@[0]);
    assert("Vec"@ != "f64"@);
    assert("Vec"@.len() != "String"@.len());
    assert("Vec"@ != "String"@);
    assert("Vec"@.len() != "PathBuf"@.len());
    assert("Vec"@ != "PathBuf"@);
    assert("Vec"@.len() != "Value"@.len());
    assert("Vec"@ != "Value"@);
    assert("BTreeMap"@.len() != "bool"@.len());
    assert("BTreeMap"@ != "bool"@);
    assert("BTreeMap"@.len() != "u8"@.len());
    assert("BTreeMap"@ != "u8"@);
    assert("BTreeMap"@.len() != "u16"@.len());
    assert("BTreeMap"@ != "u16"@);
    assert("BTreeMap"@.len() != "u32"@.len());
    assert("BTreeMap"@ != "u32"@);
    assert("BTreeMap"@.len() != "u64"@.len());
    assert("BTreeMap"@ != "u64"@);
    assert("BTreeMap"@.len() != "usize"@.len());
    assert("BTreeMap"@ != "usize"@);
    assert("BTreeMap"@.len() != "i8"@.len());
    assert("BTreeMap"@ != "i8"@);
    assert("BTreeMap"@.len() != "i16"@.len());
    assert("BTreeMap"@ != "i16"@);
    assert("BTreeMap"@.len() != "i32"@.len());
    assert("BTreeMap"@ != "i32"@);
    assert("BTreeMap"@.len() != "i64"@.len());
    assert("BTreeMap"@ != "i64"@);
    assert("BTreeMap"@.len() != "isize"@.len());
    assert("BTreeMap"@ != "isize"@);
    assert("BTreeMap"@.len() != "f32"@.len());
    assert("BTreeMap"@ != "f32"@);
    assert("BTreeMap"@.len() != "f64"@.len());
    assert("BTreeMap"@ != "f64"@);
    assert("BTreeMap"@.len() != "String"@.len());
    assert("BTreeMap"@ != "String"@);
    assert("BTreeMap"@.len() != "PathBuf"@.len());
    assert("BTreeMap"@ != "PathBuf"@);
    assert("BTreeMap"@.len() != "Value"@.len());
    assert("BTreeMap"@ != "Value"@);
    assert("BTreeMap"@.len() != "Vec"@.len());
    assert("BTreeMap"@ != "Vec"@);
}

/// Which constants a spec type admits: anything for `any`; booleans for `bool`; every integer
/// for `int`; the non-negative ones for `uint`; integers and floats for `float`; strings for
/// the text types; a list for a list or set whose items its item type all admit, or as a
/// choice one item; and nothing for an object or a map.
pub proof fn lemma_what_a_type_admits(ty: Ty, value: Const, position: Position)
    ensures
        ty == Ty::Any ==> admits_of(ty, value, position),
        ty == Ty::Bool ==> (admits_of(ty, value, position) <==> value is Bool),
        ty == Ty::Int ==> (admits_of(ty, value, position) <==> value is Int),
        ty == Ty::Uint ==> (admits_of(ty, value, position) <==> (value matches Const::Int(i) && i >= 0)),
        ty == Ty::Float ==> (admits_of(ty, value, position) <==> (value is Int || value is Float)),
        (ty == Ty::String || ty == Ty::Path || ty == Ty::Url || ty == Ty::Duration) ==> (admits_of(ty, value, position)
            <==> value is Str),
        (ty == Ty::Object || ty is MapOf) ==> !admits_of(ty, value, position),
        ty matches Ty::List(item) ==> (value matches Const::List(items) ==> (admits_of(ty, value, position) <==> forall|i: int|
            0 <= i < items@.len() ==> admits_of(*item, #[trigger] items@[i], position))),
        ty matches Ty::List(item) ==> (!(value is List) ==> (admits_of(ty, value, position) <==> (position == Position::Choice
            && admits_of(*item, value, position)))),
{
}

/// What a field's own Rust type holds: an integer type the integers in its range, `f32` only
/// the floats that fit it, and a `Vec`, `BTreeSet` or `HashSet` a list whose every item its
/// item type holds, or as a choice one such item; an integer default never fits an integer
/// type whose range it leaves.
pub proof fn lemma_what_a_field_holds(name: String, args: Vec<RustType>, value: Const, position: Position)
    ensures
        ({
            let ty = RustType::Path { name, args };
            let n = name@;
            &&& (n == "u8"@ || n == "u16"@ || n == "u32"@ || n == "u64"@ || n == "usize"@ || n == "i8"@ || n == "i16"@
                || n == "i32"@ || n == "i64"@ || n == "isize"@) ==> (field_holds_of(ty, value, position) <==> int_fits(n, value))
            &&& n == "f32"@ ==> (value matches Const::Float { fits_f32, .. } ==> (field_holds_of(ty, value, position) <==> fits_f32))
            &&& (n == "Vec"@ || n == "BTreeSet"@ || n == "HashSet"@) && args@.len() > 0 ==> (value matches Const::List(items)
                ==> (field_holds_of(ty, value, position) <==> forall|i: int|
                0 <= i < items@.len() ==> field_holds_of(args@[0], #[trigger] items@[i], position)))
            &&& (n == "Vec"@ || n == "BTreeSet"@ || n == "HashSet"@) && args@.len() > 0 ==> (!(value is List) ==> (field_holds_of(ty, value, position)
                <==> (position == Position::Choice && field_holds_of(args@[0], value, position))))
        }),
{
    reveal_strlit("u8");
    reveal_strlit("u16");
    reveal_strlit("u32");
    reveal_strlit("u64");
    reveal_strlit("usize");
    reveal_strlit("i8");
    reveal_strlit("i16");
    reveal_strlit("i32");
    reveal_strlit("i64");
    reveal_strlit("isize");
    reveal_strlit("f32");
    reveal_strlit("Vec");
    reveal_strlit("BTreeSet");
    reveal_strlit("HashSet");
    assert("u16"@.len() != "u8"@.len());
    assert("u16"@ != "u8"@);
    assert("u32"@.len() != "u8"@.len());
    assert("u32"@ != "u8"@);
    assert("u32"@[1] != "u16"@[1]);
    assert("u32"@ != "u16"@);
    assert("u64"@.len() != "u8"@.len());
    assert("u64"@ != "u8"@);
    assert("u64"@[1] != "u16"@[1]);
    assert("u64"@ != "u16"@);
    assert("u64"@[1] != "u32"@[1]);
    assert("u64"@ != "u32"@);
    assert("usize"@.len() != "u8"@.len());
    assert("usize"@ != "u8"@);
    assert("usize"@.len() != "u16"@.len());
    assert("usize"@ != "u16"@);
    assert("usize"@.len() != "u32"@.len());
    assert("usize"@ != "u32"@);
    assert("usize"@.len() != "u64"@.len());
    assert("usize"@ != "u64"@);
    assert("i8"@[0] != "u8"@[0]);
    assert("i8"@ != "u8"@);
    assert("i8"@.len() != "u16"@.len());
    assert("i8"@ != "u16"@);
    assert("i8"@.len() != "u32"@.len());
    assert("i8"@ != "u32"@);
    assert("i8"@.len() != "u64"@.len());
    assert("i8"@ != "u64"@);
    assert("i8"@.len() != "usize"@.len());
    assert("i8"@ != "usize"@);
    assert("i16"@.len() != "u8"@.len());
    assert("i16"@ != "u8"@);
    assert("i16"@[0] != "u16"@[0]);
    assert("i16"@ != "u16"@);
    assert("i16"@[0] != "u32"@[0]);
    assert("i16"@ != "u32"@);
    assert("i16"@[0] != "u64"@[0]);
    assert("i16"@ != "u64"@);
    assert("i16"@.len() != "usize"@.len());
    assert("i16"@ != "usize"@);
    assert("i16"@.len() != "i8"@.len());
    assert("i16"@ != "i8"@);
    assert("i32"@.len() != "u8"@.len());
    assert("i32"@ != "u8"@);
    assert("i32"@[0] != "u16"@[0]);
    assert("i32"@ != "u16"@);
    assert("i32"@[0] != "u32"@[0]);
    assert("i32"@ != "u32"@);
    assert("i32"@[0] != "u64"@[0]);
    assert("i32"@ != "u64"@);
    assert("i32"@.len() != "usize"@.len());
    assert("i32"@ != "usize"@);
    assert("i32"@.len() != "i8"@.len());
    assert("i32"@ != "i8"@);
    assert("i32"@[1] != "i16"@[1]);
    assert("i32"@ != "i16"@);
    assert("i64"@.len() != "u8"@.len());
    assert("i64"@ != "u8"@);
    assert("i64"@[0] != "u16"@[0]);
    assert("i64"@ != "u16"@);
    assert("i64"@[0] != "u32"@[0]);
    assert("i64"@ != "u32"@);
    assert("i64"@[0] != "u64"@[0]);
    assert("i64"@ != "u64"@);
    assert("i64"@.len() != "usize"@.len());
    assert("i64"@ != "usize"@);
    assert("i64"@.len() != "i8"@.len());
    assert("i64"@ != "i8"@);
    assert("i64"@[1] != "i16"@[1]);
    assert("i64"@ != "i16"@);
    assert("i64"@[1] != "i32"@[1]);
    assert("i64"@ != "i32"@);
    assert("isize"@.len() != "u8"@.len());
    assert("isize"@ != "u8"@);
    assert("isize"@.len() != "u16"@.len());
    assert("isize"@ != "u16"@);
    assert("isize"@.len() != "u32"@.len());
    assert("isize"@ != "u32"@);
    assert("isize"@.len() != "u64"@.len());
    assert("isize"@ != "u64"@);
    assert("isize"@[0] != "usize"@[0]);
    assert("isize"@ != "usize"@);
    assert("isize"@.len() != "i8"@.len());
    assert("isize"@ != "i8"@);
    assert("isize"@.len() != "i16"@.len());
    assert("isize"@ != "i16"@);
    assert("isize"@.len() != "i32"@.len());
    assert("isize"@ != "i32"@);
    assert("isize"@.len() != "i64"@.len());
    assert("isize"@ != "i64"@);
    assert("f32"@.len() != "u8"@.len());
    assert("f32"@ != "u8"@);
    assert("f32"@[0] != "u16"@[0]);
    assert("f32"@ != "u16"@);
    assert("f32"@[0] != "u32"@[0]);
    assert("f32"@ != "u32"@);
    assert("f32"@[0] != "u64"@[0]);
    assert("f32"@ != "u64"@);
    assert("f32"@.len() != "usize"@.len());
    assert("f32"@ != "usize"@);
    assert("f32"@.len() != "i8"@.len());
    assert("f32"@ != "i8"@);
    assert("f32"@[0] != "i16"@[0]);
    assert("f32"@ != "i16"@);
    assert("f32"@[0] != "i32"@[0]);
    assert("f32"@ != "i32"@);
    assert("f32"@[0] != "i64"@[0]);
    assert("f32"@ != "i64"@);
    assert("f32"@.len() != "isize"@.len());
    assert("f32"@ != "isize"@);
    assert("Vec"@.len() != "u8"@.len());
    assert("Vec"@ != "u8"@);
    assert("Vec"@[0] != "u16"@[0]);
    assert("Vec"@ != "u16"@);
    assert("Vec"@[0] != "u32"@[0]);
    assert("Vec"@ != "u32"@);
    assert("Vec"@[0] != "u64"@[0]);
    assert("Vec"@ != "u64"@);
    assert("Vec"@.len() != "usize"@.len());
    assert("Vec"@ != "usize"@);
    assert("Vec"@.len() != "i8"@.len());
    assert("Vec"@ != "i8"@);
    assert("Vec"@[0] != "i16"@[0]);
    assert("Vec"@ != "i16"@);
    assert("Vec"@[0] != "i32"@[0]);
    assert("Vec"@ != "i32"@);
    assert("Vec"@[0] != "i64"@[0]);
    assert("Vec"@ != "i64"@);
    assert("Vec"@.len() != "isize"@.len());
    assert("Vec"@ != "isize"@);
    assert("Vec"@[0] != "f32"@[0]);
    assert("Vec"@ != "f32"@);
    assert("BTreeSet"@.len() != "u8"@.len());
    assert("BTreeSet"@ != "u8"@);
    assert("BTreeSet"@.len() != "u16"@.len());
    assert("BTreeSet"@ != "u16"@);
    assert("BTreeSet"@.len() != "u32"@.len());
    assert("BTreeSet"@ != "u32"@);
    assert("BTreeSet"@.len() != "u64"@.len());
    assert("BTreeSet"@ != "u64"@);
    assert("BTreeSet"@.len() != "usize"@.len());
    assert("BTreeSet"@ != "usize"@);
    assert("BTreeSet"@.len() != "i8"@.len());
    assert("BTreeSet"@ != "i8"@);
    assert("BTreeSet"@.len() != "i16"@.len());
    assert("BTreeSet"@ != "i16"@);
    assert("BTreeSet"@.len() != "i32"@.len());
    assert("BTreeSet"@ != "i32"@);
    assert("BTreeSet"@.len() != "i64"@.len());
    assert("BTreeSet"@ != "i64"@);
    assert("BTreeSet"@.len() != "isize"@.len());
    assert("BTreeSet"@ != "isize"@);
    assert("BTreeSet"@.len() != "f32"@.len());
    assert("BTreeSet"@ != "f32"@);
    assert("BTreeSet"@.len() != "Vec"@.len());
    assert("BTreeSet"@ != "Vec"@);
    assert("HashSet"@.len() != "u8"@.len());
    assert("HashSet"@ != "u8"@);
    assert("HashSet"@.len() != "u16"@.len());
    assert("HashSet"@ != "u16"@);
    assert("HashSet"@.len() != "u32"@.len());
    assert("HashSet"@ != "u32"@);
    assert("HashSet"@.len() != "u64"@.len());
    assert("HashSet"@ != "u64"@);
    assert("HashSet"@.len() != "usize"@.len());
    assert("HashSet"@ != "usize"@);
    assert("HashSet"@.len() != "i8"@.len());
    assert("HashSet"@ != "i8"@);
    assert("HashSet"@.len() != "i16"@.len());
    assert("HashSet"@ != "i16"@);
    assert("HashSet"@.len() != "i32"@.len());
    assert("HashSet"@ != "i32"@);
    assert("HashSet"@.len() != "i64"@.len());
    assert("HashSet"@ != "i64"@);
    assert("HashSet"@.len() != "isize"@.len());
    assert("HashSet"@ != "isize"@);
    assert("HashSet"@.len() != "f32"@.len());
    assert("HashSet"@ != "f32"@);
    assert("HashSet"@.len() != "Vec"@.len());
    assert("HashSet"@ != "Vec"@);
    assert("HashSet"@.len() != "BTreeSet"@.len());
    assert("HashSet"@ != "BTreeSet"@);
}

} // verus!
