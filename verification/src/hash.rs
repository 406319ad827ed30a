//! The stable hashes the generated code carries: a declaration's key half, and the identity
//! of the typed contract a flag event is bound to.
//!
//! Both are FNV-1a, spelled out rather than taken from a `Hasher`, which is not guaranteed
//! to be stable between compilations; what they produce ends up baked into generated code.

use vstd::prelude::*;
use vstd::bytes::{spec_u64_to_le_bytes, u64_to_le_bytes, lemma_auto_spec_u64_to_from_le_bytes, spec_u64_from_le_bytes};
use vstd::string::*;

use vstd::utf8::encode_utf8;

use crate::unicode::push_char;

verus! {

broadcast use vstd::seq_lib::group_seq_properties;

pub open spec fn fnv64_prime() -> u64 {
    0x0000_0100_0000_01b3
}

pub open spec fn fnv64_offset() -> u64 {
    0xcbf2_9ce4_8422_2325
}

pub open spec fn fnv32_prime() -> u32 {
    0x0100_0193
}

pub open spec fn fnv32_offset() -> u32 {
    0x811c_9dc5
}

/// FNV-1a over `bytes`, 64 bits wide, starting from `hash`.
pub open spec fn fnv1a_64(hash: u64, bytes: Seq<u8>) -> u64
    decreases bytes.len(),
{
    if bytes.len() == 0 {
        hash
    } else {
        vstd::wrapping::u64_specs::wrapping_mul(
            fnv1a_64(hash, bytes.drop_last()) ^ (bytes.last() as u64),
            fnv64_prime(),
        )
    }
}

/// FNV-1a over `bytes`, 32 bits wide, starting from `hash`.
pub open spec fn fnv1a_32(hash: u32, bytes: Seq<u8>) -> u32
    decreases bytes.len(),
{
    if bytes.len() == 0 {
        hash
    } else {
        vstd::wrapping::u32_specs::wrapping_mul(
            fnv1a_32(hash, bytes.drop_last()) ^ (bytes.last() as u32),
            fnv32_prime(),
        )
    }
}

/// Hashing `a` then `b` is hashing `a + b`.
pub proof fn lemma_fnv1a_64_concat(hash: u64, a: Seq<u8>, b: Seq<u8>)
    ensures
        fnv1a_64(hash, a + b) == fnv1a_64(fnv1a_64(hash, a), b),
    decreases b.len(),
{
    if b.len() > 0 {
        lemma_fnv1a_64_concat(hash, a, b.drop_last());
        assert((a + b).drop_last() =~= a + b.drop_last());
    } else {
        assert(a + b =~= a);
    }
}

/// A hash of the declaration a derive was handed, which is half of a key.
pub fn declaration_hash(fingerprint: &str) -> (res: u32)
    ensures
        res == fnv1a_32(fnv32_offset(), fingerprint.spec_bytes()),
{
    let bytes = fingerprint.as_bytes();
    let mut hash: u32 = 0x811c_9dc5;
    let mut i: usize = 0;
    while i < bytes.len()
        invariant
            i <= bytes@.len(),
            bytes@ == fingerprint.spec_bytes(),
            hash == fnv1a_32(fnv32_offset(), bytes@.take(i as int)),
        decreases bytes@.len() - i,
    {
        assert(bytes@.take(i + 1).drop_last() =~= bytes@.take(i as int));
        hash = hash ^ bytes[i] as u32;
        hash = hash.wrapping_mul(0x0100_0193);
        i = i + 1;
    }
    assert(bytes@.take(bytes@.len() as int) =~= bytes@);
    hash
}

/// Feed `bytes` into `hash`.
fn absorb(hash: &mut u64, bytes: &[u8])
    ensures
        *final(hash) == fnv1a_64(*old(hash), bytes@),
{
    let ghost start = *hash;
    let mut i: usize = 0;
    while i < bytes.len()
        invariant
            i <= bytes@.len(),
            *hash == fnv1a_64(start, bytes@.take(i as int)),
        decreases bytes@.len() - i,
    {
        assert(bytes@.take(i + 1).drop_last() =~= bytes@.take(i as int));
        *hash = (*hash ^ bytes[i] as u64).wrapping_mul(0x0000_0100_0000_01b3);
        i = i + 1;
    }
    assert(bytes@.take(bytes@.len() as int) =~= bytes@);
}

/// One labelled, length-delimited part of a binding contract: the label's length and bytes,
/// a presence byte, then the value's length and bytes.
pub open spec fn binding_part(label: Seq<u8>, value: Option<Seq<u8>>) -> Seq<u8> {
    let v = match value {
        Some(v) => v,
        None => Seq::<u8>::empty(),
    };
    spec_u64_to_le_bytes(label.len() as u64) + label + seq![
        if value is Some {
            1u8
        } else {
            0u8
        },
    ] + spec_u64_to_le_bytes(v.len() as u64) + v
}

pub open spec fn slice_opt_view(value: Option<&[u8]>) -> Option<Seq<u8>> {
    match value {
        Some(v) => Some(v@),
        None => None,
    }
}

/// Add one labelled, length-delimited part to a binding contract hash.
///
/// Labels keep adjacent properties distinct, while lengths keep values such as `("a", "bc")`
/// from becoming indistinguishable from `("ab", "c")`.
pub fn hash_binding_part(hash: &mut u64, label: &[u8], value: Option<&[u8]>)
    ensures
        *final(hash) == fnv1a_64(*old(hash), binding_part(label@, slice_opt_view(value))),
{
    let ghost start = *hash;
    let label_len = u64_to_le_bytes(label.len() as u64);
    absorb(hash, label_len.as_slice());
    absorb(hash, label);
    let (present, v): (u8, &[u8]) = match value {
        Some(v) => (1u8, v),
        None => (0u8, &[]),
    };
    let mark: [u8; 1] = [present];
    absorb(hash, &mark);
    let value_len = u64_to_le_bytes(v.len() as u64);
    absorb(hash, value_len.as_slice());
    absorb(hash, v);
    proof {
        let a = label_len@;
        let b = label@;
        let c = mark@;
        let d = value_len@;
        let e = v@;
        assert(c =~= seq![present]);
        lemma_fnv1a_64_concat(start, a, b);
        lemma_fnv1a_64_concat(start, a + b, c);
        lemma_fnv1a_64_concat(start, a + b + c, d);
        lemma_fnv1a_64_concat(start, a + b + c + d, e);
        assert(a + b + c + d + e =~= binding_part(label@, slice_opt_view(value)));
    }
}

/// The part for an optional count, its value written as eight little-endian bytes.
pub open spec fn usize_part(label: Seq<u8>, value: Option<usize>) -> Seq<u8> {
    binding_part(
        label,
        match value {
            Some(v) => Some(spec_u64_to_le_bytes(v as u64)),
            None => None,
        },
    )
}

pub fn hash_binding_usize(hash: &mut u64, label: &[u8], value: Option<usize>)
    ensures
        *final(hash) == fnv1a_64(*old(hash), usize_part(label@, value)),
{
    match value {
        Some(value) => {
            let bytes = u64_to_le_bytes(value as u64);
            hash_binding_part(hash, label, Some(bytes.as_slice()));
        },
        None => hash_binding_part(hash, label, None),
    }
}

/// Decoding a part back from a byte stream: the label and value are recovered, and so is
/// what follows. So no two different property lists are the same stream.
pub proof fn lemma_binding_parts_do_not_alias(
    l1: Seq<u8>,
    v1: Option<Seq<u8>>,
    r1: Seq<u8>,
    l2: Seq<u8>,
    v2: Option<Seq<u8>>,
    r2: Seq<u8>,
)
    requires
        l1.len() <= u64::MAX,
        l2.len() <= u64::MAX,
        v1 matches Some(v) ==> v.len() <= u64::MAX,
        v2 matches Some(v) ==> v.len() <= u64::MAX,
        binding_part(l1, v1) + r1 == binding_part(l2, v2) + r2,
    ensures
        l1 == l2,
        v1 == v2,
        r1 == r2,
{
    lemma_auto_spec_u64_to_from_le_bytes();
    let s1 = binding_part(l1, v1) + r1;
    let s2 = binding_part(l2, v2) + r2;
    let e1 = match v1 {
        Some(v) => v,
        None => Seq::<u8>::empty(),
    };
    let e2 = match v2 {
        Some(v) => v,
        None => Seq::<u8>::empty(),
    };
    let ll1 = spec_u64_to_le_bytes(l1.len() as u64);
    let ll2 = spec_u64_to_le_bytes(l2.len() as u64);
    assert(s1.take(8) =~= ll1);
    assert(s2.take(8) =~= ll2);
    assert(spec_u64_from_le_bytes(ll1) == l1.len());
    assert(spec_u64_from_le_bytes(ll2) == l2.len());
    assert(l1.len() == l2.len());
    let n = l1.len() as int;
    assert(s1.subrange(8, 8 + n) =~= l1);
    assert(s2.subrange(8, 8 + n) =~= l2);
    assert(s1[8 + n] == s2[8 + n]);
    assert(v1 is Some <==> v2 is Some);
    let vl1 = spec_u64_to_le_bytes(e1.len() as u64);
    let vl2 = spec_u64_to_le_bytes(e2.len() as u64);
    assert(s1.subrange(9 + n, 17 + n) =~= vl1);
    assert(s2.subrange(9 + n, 17 + n) =~= vl2);
    assert(e1.len() == e2.len());
    let m = e1.len() as int;
    assert(s1.subrange(17 + n, 17 + n + m) =~= e1);
    assert(s2.subrange(17 + n, 17 + n + m) =~= e2);
    assert(s1.skip(17 + n + m) =~= r1);
    assert(s2.skip(17 + n + m) =~= r2);
}

/// How many values a field takes, as the binding contract names it.
#[derive(Clone, Copy, PartialEq, Eq, Structural, Debug)]
pub enum FieldShape {
    Bool,
    Count,
    Optional,
    Required,
    Many,
}

/// What a flag event's typed receiver is: everything `binding_hash` reads of a field.
pub struct BindingContract {
    pub shape: FieldShape,
    pub bool_value: bool,
    pub optional_value_type: bool,
    pub variadic: bool,
    pub repeatable: bool,
    pub var_min: Option<usize>,
    pub var_max: Option<usize>,
    pub value_var_min: Option<usize>,
    pub value_var_max: Option<usize>,
    pub value_enum: bool,
    pub allow_unknown_choices: bool,
    pub choices: Vec<String>,
    pub validate: Option<String>,
    pub validate_error: Option<String>,
    pub delimiter: Option<char>,
}

pub open spec fn flag_byte(b: bool) -> Seq<u8> {
    seq![
        if b {
            1u8
        } else {
            0u8
        },
    ]
}

pub open spec fn shape_word(shape: FieldShape) -> Seq<u8> {
    match shape {
        FieldShape::Bool => "bool".spec_bytes(),
        FieldShape::Count => "count".spec_bytes(),
        FieldShape::Optional => "optional".spec_bytes(),
        FieldShape::Required => "required".spec_bytes(),
        FieldShape::Many => "many".spec_bytes(),
    }
}

pub open spec fn text_bytes(value: Option<String>) -> Option<Seq<u8>> {
    match value {
        Some(s) => Some(encode_utf8(s@)),
        None => None,
    }
}

/// One `choice` part per declared choice, in order.
pub open spec fn choices_bytes(choices: Seq<Seq<char>>) -> Seq<u8>
    decreases choices.len(),
{
    if choices.len() == 0 {
        Seq::<u8>::empty()
    } else {
        choices_bytes(choices.drop_last()) + binding_part(
            "choice".spec_bytes(),
            Some(encode_utf8(choices.last())),
        )
    }
}

/// Every part of a binding contract, in the order they are hashed.
pub open spec fn binding_bytes(c: BindingContract) -> Seq<u8> {
    binding_part("shape".spec_bytes(), Some(shape_word(c.shape))) + binding_part(
        "bool-value".spec_bytes(),
        Some(flag_byte(c.bool_value)),
    ) + binding_part("optional-value".spec_bytes(), Some(flag_byte(c.optional_value_type)))
        + binding_part("variadic".spec_bytes(), Some(flag_byte(c.variadic))) + binding_part(
        "repeatable".spec_bytes(),
        Some(flag_byte(c.repeatable)),
    ) + usize_part("var-min".spec_bytes(), c.var_min) + usize_part(
        "var-max".spec_bytes(),
        c.var_max,
    ) + usize_part("value-var-min".spec_bytes(), c.value_var_min) + usize_part(
        "value-var-max".spec_bytes(),
        c.value_var_max,
    ) + binding_part("value-enum".spec_bytes(), Some(flag_byte(c.value_enum))) + binding_part(
        "open-choices".spec_bytes(),
        Some(flag_byte(c.allow_unknown_choices)),
    ) + choices_bytes(c.choices@.map_values(|s: String| s@)) + binding_part(
        "choices-end".spec_bytes(),
        None,
    ) + binding_part("validate".spec_bytes(), text_bytes(c.validate)) + binding_part(
        "validate-error".spec_bytes(),
        text_bytes(c.validate_error),
    ) + binding_part(
        "delimiter".spec_bytes(),
        match c.delimiter {
            Some(d) => Some(encode_utf8(seq![d])),
            None => None,
        },
    )
}

fn hash_flag(hash: &mut u64, label: &str, value: bool)
    ensures
        *final(hash) == fnv1a_64(*old(hash), binding_part(label.spec_bytes(), Some(flag_byte(value)))),
{
    let byte: [u8; 1] = [if value {
        1u8
    } else {
        0u8
    }];
    assert(byte@ =~= flag_byte(value));
    hash_binding_part(hash, label.as_bytes(), Some(&byte));
}

fn hash_text(hash: &mut u64, label: &str, value: &Option<String>)
    ensures
        *final(hash) == fnv1a_64(*old(hash), binding_part(label.spec_bytes(), text_bytes(*value))),
{
    match value {
        Some(s) => hash_binding_part(hash, label.as_bytes(), Some(s.as_str().as_bytes())),
        None => hash_binding_part(hash, label.as_bytes(), None),
    }
}

/// Stable identity of the typed contract that receives a flag event.
///
/// A child redeclaration may share an argument name while changing its shape, Rust type,
/// choices, or validator. Such an event belongs only to the child; mirroring it into the
/// ancestor would either overwrite a valid fallback or fail while building the ancestor.
pub fn binding_hash(field: &BindingContract) -> (res: u64)
    ensures
        res == fnv1a_64(fnv64_offset(), binding_bytes(*field)),
{
    let shape = match field.shape {
        FieldShape::Bool => "bool",
        FieldShape::Count => "count",
        FieldShape::Optional => "optional",
        FieldShape::Required => "required",
        FieldShape::Many => "many",
    };
    let mut hash = 0xcbf2_9ce4_8422_2325u64;
    let ghost seen = Seq::<u8>::empty();
    hash_binding_part(&mut hash, "shape".as_bytes(), Some(shape.as_bytes()));
    proof {
        let part = binding_part("shape".spec_bytes(), Some(shape_word(field.shape)));
        lemma_fnv1a_64_concat(fnv64_offset(), seen, part);
        assert(seen + part =~= part);
        seen = part;
    }
    hash_flag(&mut hash, "bool-value", field.bool_value);
    proof {
        let part = binding_part("bool-value".spec_bytes(), Some(flag_byte(field.bool_value)));
        lemma_fnv1a_64_concat(fnv64_offset(), seen, part);
        seen = seen + part;
    }
    hash_flag(&mut hash, "optional-value", field.optional_value_type);
    proof {
        let part = binding_part(
            "optional-value".spec_bytes(),
            Some(flag_byte(field.optional_value_type)),
        );
        lemma_fnv1a_64_concat(fnv64_offset(), seen, part);
        seen = seen + part;
    }
    hash_flag(&mut hash, "variadic", field.variadic);
    proof {
        let part = binding_part("variadic".spec_bytes(), Some(flag_byte(field.variadic)));
        lemma_fnv1a_64_concat(fnv64_offset(), seen, part);
        seen = seen + part;
    }
    hash_flag(&mut hash, "repeatable", field.repeatable);
    proof {
        let part = binding_part("repeatable".spec_bytes(), Some(flag_byte(field.repeatable)));
        lemma_fnv1a_64_concat(fnv64_offset(), seen, part);
        seen = seen + part;
    }
    hash_binding_usize(&mut hash, "var-min".as_bytes(), field.var_min);
    proof {
        let part = usize_part("var-min".spec_bytes(), field.var_min);
        lemma_fnv1a_64_concat(fnv64_offset(), seen, part);
        seen = seen + part;
    }
    hash_binding_usize(&mut hash, "var-max".as_bytes(), field.var_max);
    proof {
        let part = usize_part("var-max".spec_bytes(), field.var_max);
        lemma_fnv1a_64_concat(fnv64_offset(), seen, part);
        seen = seen + part;
    }
    hash_binding_usize(&mut hash, "value-var-min".as_bytes(), field.value_var_min);
    proof {
        let part = usize_part("value-var-min".spec_bytes(), field.value_var_min);
        lemma_fnv1a_64_concat(fnv64_offset(), seen, part);
        seen = seen + part;
    }
    hash_binding_usize(&mut hash, "value-var-max".as_bytes(), field.value_var_max);
    proof {
        let part = usize_part("value-var-max".spec_bytes(), field.value_var_max);
        lemma_fnv1a_64_concat(fnv64_offset(), seen, part);
        seen = seen + part;
    }
    hash_flag(&mut hash, "value-enum", field.value_enum);
    proof {
        let part = binding_part("value-enum".spec_bytes(), Some(flag_byte(field.value_enum)));
        lemma_fnv1a_64_concat(fnv64_offset(), seen, part);
        seen = seen + part;
    }
    hash_flag(&mut hash, "open-choices", field.allow_unknown_choices);
    proof {
        let part = binding_part(
            "open-choices".spec_bytes(),
            Some(flag_byte(field.allow_unknown_choices)),
        );
        lemma_fnv1a_64_concat(fnv64_offset(), seen, part);
        seen = seen + part;
    }
    let ghost before_choices = seen;
    let ghost choices = field.choices@.map_values(|s: String| s@);
    let mut i: usize = 0;
    while i < field.choices.len()
        invariant
            i <= field.choices@.len(),
            choices == field.choices@.map_values(|s: String| s@),
            hash == fnv1a_64(fnv64_offset(), before_choices + choices_bytes(choices.take(i as int))),
        decreases field.choices@.len() - i,
    {
        let ghost prior = before_choices + choices_bytes(choices.take(i as int));
        hash_binding_part(&mut hash, "choice".as_bytes(), Some(field.choices[i].as_str().as_bytes()));
        proof {
            let part = binding_part("choice".spec_bytes(), Some(encode_utf8(choices[i as int])));
            lemma_fnv1a_64_concat(fnv64_offset(), prior, part);
            assert(choices.take(i + 1).drop_last() =~= choices.take(i as int));
            assert(prior + part =~= before_choices + choices_bytes(choices.take(i + 1)));
        }
        i = i + 1;
    }
    proof {
        assert(choices.take(field.choices@.len() as int) =~= choices);
        seen = before_choices + choices_bytes(choices);
    }
    hash_binding_part(&mut hash, "choices-end".as_bytes(), None);
    proof {
        let part = binding_part("choices-end".spec_bytes(), None);
        lemma_fnv1a_64_concat(fnv64_offset(), seen, part);
        seen = seen + part;
    }
    hash_text(&mut hash, "validate", &field.validate);
    proof {
        let part = binding_part("validate".spec_bytes(), text_bytes(field.validate));
        lemma_fnv1a_64_concat(fnv64_offset(), seen, part);
        seen = seen + part;
    }
    hash_text(&mut hash, "validate-error", &field.validate_error);
    proof {
        let part = binding_part("validate-error".spec_bytes(), text_bytes(field.validate_error));
        lemma_fnv1a_64_concat(fnv64_offset(), seen, part);
        seen = seen + part;
    }
    let delimiter: Option<String> = match field.delimiter {
        Some(d) => {
            let mut text = String::new();
            push_char(&mut text, d);
            assert(text@ =~= seq![d]);
            Some(text)
        },
        None => None,
    };
    hash_text(&mut hash, "delimiter", &delimiter);
    proof {
        let part = binding_part(
            "delimiter".spec_bytes(),
            match field.delimiter {
                Some(d) => Some(encode_utf8(seq![d])),
                None => None,
            },
        );
        assert(part == binding_part("delimiter".spec_bytes(), text_bytes(delimiter)));
        lemma_fnv1a_64_concat(fnv64_offset(), seen, part);
        seen = seen + part;
        assert(seen =~= binding_bytes(*field));
    }
    hash
}

} // verus!
