use vstd::prelude::*;

verus! {

use core::cmp::Ordering;
use crate::bytes::copy_bytes;
use crate::fbits::{
    fbits_cmp, fbits_is_nan, compare_fbits, i64_to_fbits, i64_to_fbits_spec, u64_to_fbits,
    u64_to_fbits_spec,
};

// A JSON document, used as a property value. The domain carries a total
// hash function and a partial order that is total within like variants;
// both are defined here as spec functions over the mathematical shape of a
// document and computed by verified code.

/// A JSON number: a signed or unsigned 64-bit integer, or, when the value
/// is not integral, the bit pattern of the IEEE 754 binary64 value.
#[derive(Clone, Copy, Debug, Hash, PartialEq, Eq, Structural)]
pub enum JsonNum {
    I64(i64),
    U64(u64),
    /// The raw binary64 bit pattern of a non-integral number.
    Bits(u64),
}

/// A JSON document: null, a boolean, a number, a string (as its UTF-8
/// bytes), an array, or an object whose entries keep their stored order.
#[derive(Debug, Hash)]
pub enum JsonValue {
    Null,
    Bool(bool),
    Num(JsonNum),
    Str(Vec<u8>),
    Arr(Vec<JsonValue>),
    Obj(Vec<JsonEntry>),
}

/// One key-value entry of a JSON object.
#[derive(Debug, Hash)]
pub struct JsonEntry {
    pub key: Vec<u8>,
    pub value: JsonValue,
}

/// The mathematical shape of a JSON document.
pub enum JsonV {
    Null,
    Bool(bool),
    Num(JsonNum),
    Str(Seq<u8>),
    Arr(Seq<JsonV>),
    Obj(Seq<JsonEntryV>),
}

/// The mathematical shape of one object entry.
pub struct JsonEntryV {
    pub key: Seq<u8>,
    pub value: JsonV,
}

/// The shape of a document: the document with every executable collection
/// replaced by its mathematical view.
pub open spec fn jv(v: JsonValue) -> JsonV
    decreases v,
{
    match v {
        JsonValue::Null => JsonV::Null,
        JsonValue::Bool(b) => JsonV::Bool(b),
        JsonValue::Num(n) => JsonV::Num(n),
        JsonValue::Str(s) => JsonV::Str(s@),
        JsonValue::Arr(es) => JsonV::Arr(jv_seq(es@)),
        JsonValue::Obj(es) => JsonV::Obj(jv_entries(es@)),
    }
}

/// The shapes of a sequence of documents, elementwise.
pub open spec fn jv_seq(s: Seq<JsonValue>) -> Seq<JsonV>
    decreases s,
{
    if s.len() == 0 {
        Seq::empty()
    } else {
        jv_seq(s.drop_last()).push(jv(s.last()))
    }
}

/// The shapes of a sequence of object entries, elementwise.
pub open spec fn jv_entries(s: Seq<JsonEntry>) -> Seq<JsonEntryV>
    decreases s,
{
    if s.len() == 0 {
        Seq::empty()
    } else {
        jv_entries(s.drop_last()).push(
            JsonEntryV { key: s.last().key@, value: jv(s.last().value) },
        )
    }
}

/// `jv_seq` maps elementwise.
pub proof fn lemma_jv_seq(s: Seq<JsonValue>)
    ensures
        jv_seq(s).len() == s.len(),
        forall|i: int| 0 <= i < s.len() ==> jv_seq(s)[i] == jv(s[i]),
    decreases s,
{
    if s.len() > 0 {
        lemma_jv_seq(s.drop_last());
    }
}

/// `jv_entries` maps elementwise.
pub proof fn lemma_jv_entries(s: Seq<JsonEntry>)
    ensures
        jv_entries(s).len() == s.len(),
        forall|i: int|
            0 <= i < s.len() ==> jv_entries(s)[i] == (JsonEntryV {
                key: s[i].key@,
                value: jv(s[i].value),
            }),
    decreases s,
{
    if s.len() > 0 {
        lemma_jv_entries(s.drop_last());
    }
}

/// The order of two mathematical integers.
pub open spec fn int_cmp(a: int, b: int) -> Ordering {
    if a < b {
        Ordering::Less
    } else if a == b {
        Ordering::Equal
    } else {
        Ordering::Greater
    }
}

/// Lexicographic byte-string order: elementwise, with the shorter string
/// below on prefix equality.
pub open spec fn lex_cmp(a: Seq<u8>, b: Seq<u8>) -> Ordering
    decreases a.len(),
{
    if a.len() == 0 && b.len() == 0 {
        Ordering::Equal
    } else if a.len() == 0 {
        Ordering::Less
    } else if b.len() == 0 {
        Ordering::Greater
    } else if a[0] < b[0] {
        Ordering::Less
    } else if a[0] > b[0] {
        Ordering::Greater
    } else {
        lex_cmp(a.subrange(1, a.len() as int), b.subrange(1, b.len() as int))
    }
}

/// Numbers compare across the three encodings by promotion: the integral
/// encodings compare exactly, with an out-of-range value ordered outside;
/// an integral value against a binary64 pattern compares as its rounded
/// binary64 value; two binary64 patterns compare natively, so a NaN
/// pattern compares with nothing.
pub open spec fn num_cmp(a: JsonNum, b: JsonNum) -> Option<Ordering> {
    match (a, b) {
        (JsonNum::I64(x), JsonNum::I64(y)) => Some(int_cmp(x as int, y as int)),
        (JsonNum::I64(x), JsonNum::U64(y)) => if y <= i64::MAX as u64 {
            Some(int_cmp(x as int, y as int))
        } else {
            Some(Ordering::Less)
        },
        (JsonNum::I64(x), JsonNum::Bits(y)) => fbits_cmp(i64_to_fbits_spec(x) as u64, y),
        (JsonNum::U64(x), JsonNum::I64(y)) => if y >= 0 {
            Some(int_cmp(x as int, y as int))
        } else {
            Some(Ordering::Greater)
        },
        (JsonNum::U64(x), JsonNum::U64(y)) => Some(int_cmp(x as int, y as int)),
        (JsonNum::U64(x), JsonNum::Bits(y)) => fbits_cmp(u64_to_fbits_spec(x) as u64, y),
        (JsonNum::Bits(x), JsonNum::I64(y)) => fbits_cmp(x, i64_to_fbits_spec(y) as u64),
        (JsonNum::Bits(x), JsonNum::U64(y)) => fbits_cmp(x, u64_to_fbits_spec(y) as u64),
        (JsonNum::Bits(x), JsonNum::Bits(y)) => fbits_cmp(x, y),
    }
}

/// The partial order of the JSON domain: total within like variants,
/// undefined across variants. Arrays and objects compare elementwise with
/// the shorter below on prefix equality; object entries compare by key,
/// then value, in their stored order.
pub open spec fn json_cmp(a: JsonV, b: JsonV) -> Option<Ordering>
    decreases a,
{
    match (a, b) {
        (JsonV::Null, JsonV::Null) => Some(Ordering::Equal),
        (JsonV::Bool(x), JsonV::Bool(y)) => Some(
            if x == y {
                Ordering::Equal
            } else if !x {
                Ordering::Less
            } else {
                Ordering::Greater
            },
        ),
        (JsonV::Num(x), JsonV::Num(y)) => num_cmp(x, y),
        (JsonV::Str(x), JsonV::Str(y)) => Some(lex_cmp(x, y)),
        (JsonV::Arr(x), JsonV::Arr(y)) => arr_cmp(x, y),
        (JsonV::Obj(x), JsonV::Obj(y)) => obj_cmp(x, y),
        _ => None,
    }
}

/// Elementwise comparison of two JSON arrays.
pub open spec fn arr_cmp(a: Seq<JsonV>, b: Seq<JsonV>) -> Option<Ordering>
    decreases a,
{
    if a.len() == 0 && b.len() == 0 {
        Some(Ordering::Equal)
    } else if a.len() == 0 {
        Some(Ordering::Less)
    } else if b.len() == 0 {
        Some(Ordering::Greater)
    } else {
        match json_cmp(a[0], b[0]) {
            Some(Ordering::Equal) => arr_cmp(
                a.subrange(1, a.len() as int),
                b.subrange(1, b.len() as int),
            ),
            other => other,
        }
    }
}

/// Entrywise comparison of two JSON objects, by key and then value.
pub open spec fn obj_cmp(a: Seq<JsonEntryV>, b: Seq<JsonEntryV>) -> Option<Ordering>
    decreases a,
{
    if a.len() == 0 && b.len() == 0 {
        Some(Ordering::Equal)
    } else if a.len() == 0 {
        Some(Ordering::Less)
    } else if b.len() == 0 {
        Some(Ordering::Greater)
    } else if lex_cmp(a[0].key, b[0].key) != Ordering::Equal {
        Some(lex_cmp(a[0].key, b[0].key))
    } else {
        match json_cmp(a[0].value, b[0].value) {
            Some(Ordering::Equal) => obj_cmp(
                a.subrange(1, a.len() as int),
                b.subrange(1, b.len() as int),
            ),
            other => other,
        }
    }
}

/// Compares two signed 64-bit integers.
fn cmp_i64(x: i64, y: i64) -> (r: Ordering)
    ensures
        r == int_cmp(x as int, y as int),
{
    if x < y {
        Ordering::Less
    } else if x == y {
        Ordering::Equal
    } else {
        Ordering::Greater
    }
}

/// Compares two unsigned 64-bit integers.
fn cmp_u64(x: u64, y: u64) -> (r: Ordering)
    ensures
        r == int_cmp(x as int, y as int),
{
    if x < y {
        Ordering::Less
    } else if x == y {
        Ordering::Equal
    } else {
        Ordering::Greater
    }
}

/// Compares two JSON numbers as `num_cmp` orders them.
pub fn compare_nums(a: &JsonNum, b: &JsonNum) -> (r: Option<Ordering>)
    ensures
        r == num_cmp(*a, *b),
{
    match (a, b) {
        (JsonNum::I64(x), JsonNum::I64(y)) => Some(cmp_i64(*x, *y)),
        (JsonNum::I64(x), JsonNum::U64(y)) => {
            if *y <= i64::MAX as u64 {
                Some(cmp_i64(*x, *y as i64))
            } else {
                Some(Ordering::Less)
            }
        }
        (JsonNum::I64(x), JsonNum::Bits(y)) => compare_fbits(i64_to_fbits(*x), *y),
        (JsonNum::U64(x), JsonNum::I64(y)) => {
            if *y >= 0 {
                Some(cmp_u64(*x, *y as u64))
            } else {
                Some(Ordering::Greater)
            }
        }
        (JsonNum::U64(x), JsonNum::U64(y)) => Some(cmp_u64(*x, *y)),
        (JsonNum::U64(x), JsonNum::Bits(y)) => compare_fbits(u64_to_fbits(*x), *y),
        (JsonNum::Bits(x), JsonNum::I64(y)) => compare_fbits(*x, i64_to_fbits(*y)),
        (JsonNum::Bits(x), JsonNum::U64(y)) => compare_fbits(*x, u64_to_fbits(*y)),
        (JsonNum::Bits(x), JsonNum::Bits(y)) => compare_fbits(*x, *y),
    }
}

/// Compares two byte strings lexicographically.
pub fn compare_bytes(a: &Vec<u8>, b: &Vec<u8>) -> (r: Ordering)
    ensures
        r == lex_cmp(a@, b@),
{
    let mut i: usize = 0;
    proof {
        assert(a@.subrange(0, a@.len() as int) =~= a@);
        assert(b@.subrange(0, b@.len() as int) =~= b@);
    }
    while i < a.len() && i < b.len()
        invariant
            0 <= i <= a@.len(),
            i <= b@.len(),
            lex_cmp(a@, b@) == lex_cmp(
                a@.subrange(i as int, a@.len() as int),
                b@.subrange(i as int, b@.len() as int),
            ),
        decreases a@.len() - i,
    {
        let ghost sa = a@.subrange(i as int, a@.len() as int);
        let ghost sb = b@.subrange(i as int, b@.len() as int);
        if a[i] < b[i] {
            return Ordering::Less;
        }
        if a[i] > b[i] {
            return Ordering::Greater;
        }
        proof {
            assert(sa.subrange(1, sa.len() as int) =~= a@.subrange(
                i + 1,
                a@.len() as int,
            ));
            assert(sb.subrange(1, sb.len() as int) =~= b@.subrange(
                i + 1,
                b@.len() as int,
            ));
        }
        i = i + 1;
    }
    if a.len() == b.len() {
        Ordering::Equal
    } else if a.len() < b.len() {
        Ordering::Less
    } else {
        Ordering::Greater
    }
}

/// Compares two JSON documents; the result is exactly `json_cmp` of their
/// shapes.
pub fn compare_values(a: &JsonValue, b: &JsonValue) -> (r: Option<Ordering>)
    ensures
        r == json_cmp(jv(*a), jv(*b)),
    decreases *a,
{
    match (a, b) {
        (JsonValue::Null, JsonValue::Null) => Some(Ordering::Equal),
        (JsonValue::Bool(x), JsonValue::Bool(y)) => Some(
            if *x == *y {
                Ordering::Equal
            } else if !*x {
                Ordering::Less
            } else {
                Ordering::Greater
            },
        ),
        (JsonValue::Num(x), JsonValue::Num(y)) => compare_nums(x, y),
        (JsonValue::Str(x), JsonValue::Str(y)) => Some(compare_bytes(x, y)),
        (JsonValue::Arr(x), JsonValue::Arr(y)) => partial_cmp_by(x, y),
        (JsonValue::Obj(x), JsonValue::Obj(y)) => compare_entries(x, y),
        _ => None,
    }
}

/// Compares two arrays of JSON documents elementwise, with the shorter
/// array below on prefix equality; the result is exactly `arr_cmp` of
/// their shapes.
pub fn partial_cmp_by(first: &Vec<JsonValue>, second: &Vec<JsonValue>) -> (r: Option<Ordering>)
    ensures
        r == arr_cmp(jv_seq(first@), jv_seq(second@)),
    decreases first@,
{
    let ghost dva = jv_seq(first@);
    let ghost dvb = jv_seq(second@);
    proof {
        lemma_jv_seq(first@);
        lemma_jv_seq(second@);
        assert(dva.subrange(0, dva.len() as int) =~= dva);
        assert(dvb.subrange(0, dvb.len() as int) =~= dvb);
    }
    let mut i: usize = 0;
    while i < first.len() && i < second.len()
        invariant
            0 <= i <= dva.len(),
            i <= dvb.len(),
            dva == jv_seq(first@),
            dvb == jv_seq(second@),
            dva.len() == first@.len(),
            dvb.len() == second@.len(),
            forall|k: int| 0 <= k < first@.len() ==> dva[k] == jv(first@[k]),
            forall|k: int| 0 <= k < second@.len() ==> dvb[k] == jv(second@[k]),
            arr_cmp(dva, dvb) == arr_cmp(
                dva.subrange(i as int, dva.len() as int),
                dvb.subrange(i as int, dvb.len() as int),
            ),
        decreases first@.len() - i,
    {
        let ghost sa = dva.subrange(i as int, dva.len() as int);
        let ghost sb = dvb.subrange(i as int, dvb.len() as int);
        let c = compare_values(&first[i], &second[i]);
        proof {
            assert(sa[0] == dva[i as int]);
            assert(sb[0] == dvb[i as int]);
        }
        match c {
            Some(Ordering::Equal) => {
                proof {
                    assert(sa.subrange(1, sa.len() as int) =~= dva.subrange(
                        i + 1,
                        dva.len() as int,
                    ));
                    assert(sb.subrange(1, sb.len() as int) =~= dvb.subrange(
                        i + 1,
                        dvb.len() as int,
                    ));
                }
                i = i + 1;
            }
            other => {
                return other;
            }
        }
    }
    if first.len() == second.len() {
        Some(Ordering::Equal)
    } else if first.len() < second.len() {
        Some(Ordering::Less)
    } else {
        Some(Ordering::Greater)
    }
}

/// Compares two objects entrywise, by key and then value; the result is
/// exactly `obj_cmp` of their shapes.
pub fn compare_entries(first: &Vec<JsonEntry>, second: &Vec<JsonEntry>) -> (r: Option<Ordering>)
    ensures
        r == obj_cmp(jv_entries(first@), jv_entries(second@)),
    decreases first@,
{
    let ghost dva = jv_entries(first@);
    let ghost dvb = jv_entries(second@);
    proof {
        lemma_jv_entries(first@);
        lemma_jv_entries(second@);
        assert(dva.subrange(0, dva.len() as int) =~= dva);
        assert(dvb.subrange(0, dvb.len() as int) =~= dvb);
    }
    let mut i: usize = 0;
    while i < first.len() && i < second.len()
        invariant
            0 <= i <= dva.len(),
            i <= dvb.len(),
            dva == jv_entries(first@),
            dvb == jv_entries(second@),
            dva.len() == first@.len(),
            dvb.len() == second@.len(),
            forall|k: int| 0 <= k < first@.len() ==> dva[k] == (JsonEntryV { key: first@[k].key@, value: jv(first@[k].value) }),
            forall|k: int| 0 <= k < second@.len() ==> dvb[k] == (JsonEntryV { key: second@[k].key@, value: jv(second@[k].value) }),
            obj_cmp(dva, dvb) == obj_cmp(
                dva.subrange(i as int, dva.len() as int),
                dvb.subrange(i as int, dvb.len() as int),
            ),
        decreases first@.len() - i,
    {
        let ghost sa = dva.subrange(i as int, dva.len() as int);
        let ghost sb = dvb.subrange(i as int, dvb.len() as int);
        proof {
            assert(sa[0] == dva[i as int]);
            assert(sb[0] == dvb[i as int]);
        }
        let kc = compare_bytes(&first[i].key, &second[i].key);
        if !matches!(kc, Ordering::Equal) {
            return Some(kc);
        }
        let c = compare_values(&first[i].value, &second[i].value);
        match c {
            Some(Ordering::Equal) => {
                proof {
                    assert(sa.subrange(1, sa.len() as int) =~= dva.subrange(
                        i + 1,
                        dva.len() as int,
                    ));
                    assert(sb.subrange(1, sb.len() as int) =~= dvb.subrange(
                        i + 1,
                        dvb.len() as int,
                    ));
                }
                i = i + 1;
            }
            other => {
                return other;
            }
        }
    }
    if first.len() == second.len() {
        Some(Ordering::Equal)
    } else if first.len() < second.len() {
        Some(Ordering::Less)
    } else {
        Some(Ordering::Greater)
    }
}

/// The little-endian bytes of a 64-bit pattern.
pub open spec fn le_bytes(v: u64) -> Seq<u8> {
    seq![
        (v % 256) as u8,
        ((v / 0x100) % 256) as u8,
        ((v / 0x10000) % 256) as u8,
        ((v / 0x1000000) % 256) as u8,
        ((v / 0x1_0000_0000) % 256) as u8,
        ((v / 0x100_0000_0000) % 256) as u8,
        ((v / 0x1_0000_0000_0000) % 256) as u8,
        ((v / 0x100_0000_0000_0000) % 256) as u8,
    ]
}

/// The two's-complement 64-bit pattern of a signed value.
pub open spec fn i64_pattern(x: i64) -> u64 {
    if x >= 0 {
        x as u64
    } else {
        (x + 0x1_0000_0000_0000_0000) as u64
    }
}

/// The 64-bit pattern a number contributes to the hash stream: integers
/// contribute their native value, non-integral numbers their raw bits.
pub open spec fn num_hash(n: JsonNum) -> Seq<u8> {
    match n {
        JsonNum::I64(x) => le_bytes(i64_pattern(x)),
        JsonNum::U64(x) => le_bytes(x),
        JsonNum::Bits(x) => le_bytes(x),
    }
}

/// The canonical hash input stream of a document. Each variant is tagged
/// with a distinct leading byte so values of different variants do not
/// collide; numbers contribute their 64-bit pattern, strings their bytes
/// with a terminator, arrays the streams of their elements in order, and
/// objects each key (terminated) followed by the value's stream.
pub open spec fn json_hash(v: JsonV) -> Seq<u8>
    decreases v,
{
    match v {
        JsonV::Null => seq![0u8],
        JsonV::Bool(b) => seq![1u8, if b { 1u8 } else { 0u8 }],
        JsonV::Num(n) => seq![2u8] + num_hash(n),
        JsonV::Str(s) => seq![3u8] + s + seq![255u8],
        JsonV::Arr(es) => seq![4u8] + arr_hash(es),
        JsonV::Obj(es) => seq![5u8] + obj_hash(es),
    }
}

/// The concatenated hash streams of a sequence of documents.
pub open spec fn arr_hash(s: Seq<JsonV>) -> Seq<u8>
    decreases s,
{
    if s.len() == 0 {
        Seq::empty()
    } else {
        arr_hash(s.drop_last()) + json_hash(s.last())
    }
}

/// The concatenated key and value streams of a sequence of object entries.
pub open spec fn obj_hash(s: Seq<JsonEntryV>) -> Seq<u8>
    decreases s,
{
    if s.len() == 0 {
        Seq::empty()
    } else {
        obj_hash(s.drop_last()) + s.last().key + seq![255u8] + json_hash(s.last().value)
    }
}

/// Appends the little-endian bytes of `v`.
fn push_le_bytes(out: &mut Vec<u8>, v: u64)
    ensures
        final(out)@ == old(out)@ + le_bytes(v),
{
    out.push((v % 256) as u8);
    out.push(((v / 0x100) % 256) as u8);
    out.push(((v / 0x10000) % 256) as u8);
    out.push(((v / 0x1000000) % 256) as u8);
    out.push(((v / 0x1_0000_0000) % 256) as u8);
    out.push(((v / 0x100_0000_0000) % 256) as u8);
    out.push(((v / 0x1_0000_0000_0000) % 256) as u8);
    out.push(((v / 0x100_0000_0000_0000) % 256) as u8);
    assert(out@ =~= old(out)@ + le_bytes(v));
}

/// Appends the hash input stream of a document.
#[verifier::loop_isolation(false)]
pub fn write_hash(v: &JsonValue, out: &mut Vec<u8>)
    ensures
        final(out)@ == old(out)@ + json_hash(jv(*v)),
    decreases *v,
{
    match v {
        JsonValue::Null => {
            out.push(0);
            assert(out@ =~= old(out)@ + json_hash(jv(*v)));
        }
        JsonValue::Bool(b) => {
            out.push(1);
            out.push(if *b { 1 } else { 0 });
            assert(out@ =~= old(out)@ + json_hash(jv(*v)));
        }
        JsonValue::Num(n) => {
            out.push(2);
            let p: u64 = match n {
                JsonNum::I64(x) => {
                    if *x >= 0 {
                        *x as u64
                    } else {
                        u64::MAX - ((-(*x + 1)) as u64)
                    }
                }
                JsonNum::U64(x) => *x,
                JsonNum::Bits(x) => *x,
            };
            assert(le_bytes(p) == num_hash(*n));
            push_le_bytes(out, p);
            assert(out@ =~= old(out)@ + json_hash(jv(*v)));
        }
        JsonValue::Str(s) => {
            out.push(3);
            let mut k: usize = 0;
            while k < s.len()
                invariant
                    0 <= k <= s@.len(),
                    out@ == old(out)@ + seq![3u8] + s@.subrange(0, k as int),
                decreases s@.len() - k,
            {
                out.push(s[k]);
                assert(out@ =~= old(out)@ + seq![3u8] + s@.subrange(0, k + 1));
                k = k + 1;
            }
            out.push(255);
            assert(s@.subrange(0, s@.len() as int) =~= s@);
            assert(out@ =~= old(out)@ + json_hash(jv(*v)));
        }
        JsonValue::Arr(es) => {
            out.push(4);
            proof {
                lemma_jv_seq(es@);
            }
            let ghost dv = jv_seq(es@);
            let mut k: usize = 0;
            assert(out@ =~= old(out)@ + seq![4u8] + arr_hash(dv.subrange(0, 0)));
            while k < es.len()
                invariant
                    0 <= k <= es@.len(),
                    out@ == old(out)@ + seq![4u8] + arr_hash(dv.subrange(0, k as int)),
                decreases es@.len() - k,
            {
                write_hash(&es[k], out);
                proof {
                    assert(dv.subrange(0, k + 1).drop_last() =~= dv.subrange(0, k as int));
                    assert(dv.subrange(0, k + 1).last() == jv(es@[k as int]));
                    assert(out@ =~= old(out)@ + seq![4u8] + arr_hash(dv.subrange(0, k + 1)));
                }
                k = k + 1;
            }
            proof {
                assert(dv.subrange(0, es@.len() as int) =~= dv);
            }
            assert(out@ =~= old(out)@ + json_hash(jv(*v)));
        }
        JsonValue::Obj(es) => {
            out.push(5);
            proof {
                lemma_jv_entries(es@);
            }
            let ghost dv = jv_entries(es@);
            let mut k: usize = 0;
            assert(out@ =~= old(out)@ + seq![5u8] + obj_hash(dv.subrange(0, 0)));
            while k < es.len()
                invariant
                    0 <= k <= es@.len(),
                    out@ == old(out)@ + seq![5u8] + obj_hash(dv.subrange(0, k as int)),
                decreases es@.len() - k,
            {
                let ghost mid = out@;
                let key = &es[k].key;
                let mut j: usize = 0;
                while j < key.len()
                    invariant
                        0 <= j <= key@.len(),
                        out@ == mid + key@.subrange(0, j as int),
                    decreases key@.len() - j,
                {
                    out.push(key[j]);
                    assert(out@ =~= mid + key@.subrange(0, j + 1));
                    j = j + 1;
                }
                out.push(255);
                assert(key@.subrange(0, key@.len() as int) =~= key@);
                write_hash(&es[k].value, out);
                proof {
                    assert(dv.subrange(0, k + 1).drop_last() =~= dv.subrange(0, k as int));
                    assert(dv.subrange(0, k + 1).last() == (JsonEntryV {
                        key: es@[k as int].key@,
                        value: jv(es@[k as int].value),
                    }));
                    assert(out@ =~= old(out)@ + seq![5u8] + obj_hash(dv.subrange(0, k + 1)));
                }
                k = k + 1;
            }
            proof {
                assert(dv.subrange(0, es@.len() as int) =~= dv);
            }
            assert(out@ =~= old(out)@ + json_hash(jv(*v)));
        }
    }
}

/// A structural copy of a document; the copy has the same shape.
#[verifier::loop_isolation(false)]
pub fn clone_value(v: &JsonValue) -> (r: JsonValue)
    ensures
        jv(r) == jv(*v),
    decreases *v,
{
    match v {
        JsonValue::Null => JsonValue::Null,
        JsonValue::Bool(b) => JsonValue::Bool(*b),
        JsonValue::Num(n) => JsonValue::Num(*n),
        JsonValue::Str(s) => JsonValue::Str(copy_bytes(s)),
        JsonValue::Arr(es) => {
            proof {
                lemma_jv_seq(es@);
            }
            let ghost dv = jv_seq(es@);
            let mut out: Vec<JsonValue> = Vec::new();
            let mut k: usize = 0;
            assert(jv_seq(out@) =~= dv.subrange(0, 0));
            while k < es.len()
                invariant
                    0 <= k <= es@.len(),
                    out@.len() == k,
                    jv_seq(out@) == dv.subrange(0, k as int),
                decreases es@.len() - k,
            {
                let ghost pre = out@;
                let c = clone_value(&es[k]);
                out.push(c);
                proof {
                    assert(out@.drop_last() =~= pre);
                    assert(jv_seq(out@) == jv_seq(pre).push(jv(c)));
                    assert(dv.subrange(0, k + 1).drop_last() =~= dv.subrange(0, k as int));
                    assert(jv_seq(out@) =~= dv.subrange(0, k + 1));
                }
                k = k + 1;
            }
            proof {
                assert(dv.subrange(0, es@.len() as int) =~= dv);
            }
            JsonValue::Arr(out)
        }
        JsonValue::Obj(es) => {
            proof {
                lemma_jv_entries(es@);
            }
            let ghost dv = jv_entries(es@);
            let mut out: Vec<JsonEntry> = Vec::new();
            let mut k: usize = 0;
            assert(jv_entries(out@) =~= dv.subrange(0, 0));
            while k < es.len()
                invariant
                    0 <= k <= es@.len(),
                    out@.len() == k,
                    jv_entries(out@) == dv.subrange(0, k as int),
                decreases es@.len() - k,
            {
                let ghost pre = out@;
                let c = JsonEntry {
                    key: copy_bytes(&es[k].key),
                    value: clone_value(&es[k].value),
                };
                out.push(c);
                proof {
                    assert(out@.drop_last() =~= pre);
                    assert(jv_entries(out@) == jv_entries(pre).push(JsonEntryV {
                        key: c.key@,
                        value: jv(c.value),
                    }));
                    assert(dv.subrange(0, k + 1).drop_last() =~= dv.subrange(0, k as int));
                    assert(jv_entries(out@) =~= dv.subrange(0, k + 1));
                }
                k = k + 1;
            }
            proof {
                assert(dv.subrange(0, es@.len() as int) =~= dv);
            }
            JsonValue::Obj(out)
        }
    }
}

impl Clone for JsonValue {
    fn clone(&self) -> (r: JsonValue)
        ensures
            jv(r) == jv(*self),
    {
        clone_value(self)
    }
}

impl Clone for JsonEntry {
    fn clone(&self) -> (r: JsonEntry)
        ensures
            r.key@ == self.key@,
            jv(r.value) == jv(self.value),
    {
        JsonEntry { key: copy_bytes(&self.key), value: clone_value(&self.value) }
    }
}

/// A newtype over a JSON document that carries the domain's total hash
/// and its partial order.
#[derive(Debug, Hash)]
pub struct Json(pub JsonValue);

impl View for Json {
    type V = JsonV;

    open spec fn view(&self) -> JsonV {
        jv(self.0)
    }
}

impl Json {
    /// Wraps a JSON document.
    pub fn new(value: JsonValue) -> (r: Json)
        ensures
            r@ == jv(value),
    {
        Json(value)
    }

    /// The canonical hash input stream of the document: a function of the
    /// document's shape alone, so equal documents hash identically.
    pub fn hash_bytes(&self) -> (r: Vec<u8>)
        ensures
            r@ == json_hash(self@),
    {
        let mut out: Vec<u8> = Vec::new();
        write_hash(&self.0, &mut out);
        assert(out@ =~= json_hash(self@));
        out
    }
}

impl Clone for Json {
    fn clone(&self) -> (r: Json)
        ensures
            r@ == self@,
    {
        Json(clone_value(&self.0))
    }
}

impl From<JsonValue> for Json {
    fn from(value: JsonValue) -> (r: Json) {
        Json(value)
    }
}

impl vstd::std_specs::convert::FromSpecImpl<JsonValue> for Json {
    open spec fn obeys_from_spec() -> bool {
        true
    }

    open spec fn from_spec(v: JsonValue) -> Json {
        Json(v)
    }
}

impl PartialEq for Json {
    fn eq(&self, other: &Json) -> (r: bool) {
        let c = compare_values(&self.0, &other.0);
        matches!(c, Some(Ordering::Equal))
    }
}

impl vstd::std_specs::cmp::PartialEqSpecImpl for Json {
    open spec fn obeys_eq_spec() -> bool {
        true
    }

    open spec fn eq_spec(&self, other: &Json) -> bool {
        json_cmp(self@, other@) == Some(Ordering::Equal)
    }
}

impl Eq for Json {}

impl PartialOrd for Json {
    fn partial_cmp(&self, other: &Json) -> (r: Option<Ordering>) {
        compare_values(&self.0, &other.0)
    }
}

impl vstd::std_specs::cmp::PartialOrdSpecImpl for Json {
    open spec fn obeys_partial_cmp_spec() -> bool {
        true
    }

    open spec fn partial_cmp_spec(&self, other: &Json) -> Option<Ordering> {
        json_cmp(self@, other@)
    }
}

/// True when some number in the document is a NaN pattern.
pub open spec fn contains_nan(v: JsonV) -> bool
    decreases v,
{
    match v {
        JsonV::Num(n) => match n {
            JsonNum::Bits(b) => fbits_is_nan(b),
            _ => false,
        },
        JsonV::Arr(es) => exists|i: int| 0 <= i < es.len() && contains_nan(es[i]),
        JsonV::Obj(es) => exists|i: int| 0 <= i < es.len() && contains_nan(es[i].value),
        _ => false,
    }
}

/// Law: byte-string comparison is reflexive.
pub proof fn lemma_lex_cmp_reflexive(s: Seq<u8>)
    ensures
        lex_cmp(s, s) == Ordering::Equal,
    decreases s.len(),
{
    if s.len() > 0 {
        lemma_lex_cmp_reflexive(s.subrange(1, s.len() as int));
    }
}

/// Law: a document free of NaN compares equal to itself. Together with
/// `Json::hash_bytes`, whose result is a function of the shape alone, this
/// says that wrapping the same document twice gives equal, hash-equal
/// values; a document holding a NaN is excluded, as NaN compares with
/// nothing.
pub proof fn lemma_json_cmp_reflexive(v: JsonV)
    requires
        !contains_nan(v),
    ensures
        json_cmp(v, v) == Some(Ordering::Equal),
    decreases v,
{
    match v {
        JsonV::Str(s) => {
            lemma_lex_cmp_reflexive(s);
        }
        JsonV::Arr(es) => {
            lemma_arr_cmp_reflexive(es);
        }
        JsonV::Obj(es) => {
            lemma_obj_cmp_reflexive(es);
        }
        _ => {}
    }
}

proof fn lemma_arr_cmp_reflexive(es: Seq<JsonV>)
    requires
        forall|i: int| 0 <= i < es.len() ==> !contains_nan(es[i]),
    ensures
        arr_cmp(es, es) == Some(Ordering::Equal),
    decreases es,
{
    if es.len() > 0 {
        lemma_json_cmp_reflexive(es[0]);
        let rest = es.subrange(1, es.len() as int);
        assert(forall|i: int| 0 <= i < rest.len() ==> !contains_nan(rest[i]));
        lemma_arr_cmp_reflexive(rest);
    }
}

proof fn lemma_obj_cmp_reflexive(es: Seq<JsonEntryV>)
    requires
        forall|i: int| 0 <= i < es.len() ==> !contains_nan(es[i].value),
    ensures
        obj_cmp(es, es) == Some(Ordering::Equal),
    decreases es,
{
    if es.len() > 0 {
        lemma_lex_cmp_reflexive(es[0].key);
        lemma_json_cmp_reflexive(es[0].value);
        let rest = es.subrange(1, es.len() as int);
        assert(forall|i: int| 0 <= i < rest.len() ==> !contains_nan(rest[i].value));
        lemma_obj_cmp_reflexive(rest);
    }
}

} // verus!
