//! What reading gives back of writing: big-endian NBT decodes to the value encoded.
use vstd::prelude::*;
use vstd::utf8::{decode_utf8, encode_utf8, encode_utf8_decode_utf8, encode_utf8_valid_utf8, valid_utf8};
use crate::assoc::{assoc_put, key_index, keys_unique, lemma_key_index};
use crate::bytes::{
    be16, be16_at, be16_bytes, be32, be32_at, be32_bytes, be64_at, be64_bytes, lemma_be16_roundtrip,
    lemma_be32_roundtrip, lemma_be64_roundtrip, lemma_signed_casts,
};
use crate::nbt::{
    assoc_from, len_at, list_elem_type, p_items, p_list, p_payload, p_str, ser_ints, ser_items, ser_list,
    ser_longs, ser_payload, ser_str, spec_read_nbt, spec_write_nbt, str_fits, value_type, NbtValue, Parsed,
};

verus! {

/// A value the big-endian format holds faithfully: no end tags, strings of at most
/// 65535 bytes, lengths within `i32`, list elements all of the list's declared type
/// (an empty list declares type 0), compound names unique, and all of it recursively.
pub open spec fn nbt_wf(v: NbtValue) -> bool
    decreases v,
{
    match v {
        NbtValue::End => false,
        NbtValue::String(s) => str_fits(s),
        NbtValue::ByteArray(b) => b.len() <= i32::MAX,
        NbtValue::IntArray(a) => a.len() <= i32::MAX,
        NbtValue::LongArray(a) => a.len() <= i32::MAX,
        NbtValue::List(items, ty) => items.len() <= i32::MAX && ty == list_elem_type(items) && list_wf(items, ty),
        NbtValue::Compound(items) => keys_unique(items) && items_wf(items),
        _ => true,
    }
}

/// Every element is faithful and of type `ty`.
pub open spec fn list_wf(s: Seq<NbtValue>, ty: u8) -> bool
    decreases s,
{
    s.len() == 0 || (list_wf(s.drop_last(), ty) && nbt_wf(s.last()) && value_type(s.last()) == ty)
}

/// Every entry name fits and every entry value is faithful.
pub open spec fn items_wf(s: Seq<(Seq<char>, NbtValue)>) -> bool
    decreases s,
{
    s.len() == 0 || (items_wf(s.drop_last()) && str_fits(s.last().0) && nbt_wf(s.last().1))
}

proof fn lemma_list_wf_first(s: Seq<NbtValue>, ty: u8)
    requires
        s.len() > 0,
        list_wf(s, ty),
    ensures
        nbt_wf(s[0]),
        value_type(s[0]) == ty,
        list_wf(s.drop_first(), ty),
    decreases s.len(),
{
    if s.len() == 1 {
        assert(s.drop_first() =~= Seq::<NbtValue>::empty());
    } else {
        lemma_list_wf_first(s.drop_last(), ty);
        assert(s.drop_last().drop_first() =~= s.drop_first().drop_last());
        assert(s.drop_first().last() == s.last());
    }
}

proof fn lemma_items_wf_first(s: Seq<(Seq<char>, NbtValue)>)
    requires
        s.len() > 0,
        items_wf(s),
    ensures
        str_fits(s[0].0),
        nbt_wf(s[0].1),
        items_wf(s.drop_first()),
    decreases s.len(),
{
    if s.len() == 1 {
        assert(s.drop_first() =~= Seq::<(Seq<char>, NbtValue)>::empty());
    } else {
        lemma_items_wf_first(s.drop_last());
        assert(s.drop_last().drop_first() =~= s.drop_first().drop_last());
        assert(s.drop_first().last() == s.last());
    }
}

proof fn lemma_ser_list_first(s: Seq<NbtValue>)
    requires
        s.len() > 0,
    ensures
        ser_list(s) == ser_payload(s[0]) + ser_list(s.drop_first()),
    decreases s.len(),
{
    if s.len() == 1 {
        assert(s.drop_last() =~= Seq::<NbtValue>::empty());
        assert(s.drop_first() =~= Seq::<NbtValue>::empty());
        assert(ser_list(s) =~= ser_payload(s[0]) + ser_list(s.drop_first()));
    } else {
        lemma_ser_list_first(s.drop_last());
        assert(s.drop_last().drop_first() =~= s.drop_first().drop_last());
        assert(s.drop_first().last() == s.last());
        assert(ser_list(s) =~= ser_payload(s[0]) + ser_list(s.drop_first()));
    }
}

proof fn lemma_ser_items_first(s: Seq<(Seq<char>, NbtValue)>)
    requires
        s.len() > 0,
    ensures
        ser_items(s) == seq![value_type(s[0].1)] + ser_str(s[0].0) + ser_payload(s[0].1) + ser_items(s.drop_first()),
    decreases s.len(),
{
    if s.len() == 1 {
        assert(s.drop_last() =~= Seq::<(Seq<char>, NbtValue)>::empty());
        assert(s.drop_first() =~= Seq::<(Seq<char>, NbtValue)>::empty());
        assert(ser_items(s) =~= seq![value_type(s[0].1)] + ser_str(s[0].0) + ser_payload(s[0].1) + ser_items(s.drop_first()));
    } else {
        lemma_ser_items_first(s.drop_last());
        assert(s.drop_last().drop_first() =~= s.drop_first().drop_last());
        assert(s.drop_first().last() == s.last());
        assert(ser_items(s) =~= seq![value_type(s[0].1)] + ser_str(s[0].0) + ser_payload(s[0].1) + ser_items(s.drop_first()));
    }
}

proof fn lemma_assoc_from_unique(s: Seq<(Seq<char>, NbtValue)>)
    requires
        keys_unique(s),
    ensures
        assoc_from(s) == s,
    decreases s.len(),
{
    if s.len() > 0 {
        let p = s.drop_last();
        assert(keys_unique(p));
        lemma_assoc_from_unique(p);
        lemma_key_index(p, s.last().0);
        if key_index(p, s.last().0) >= 0 {
            let i = key_index(p, s.last().0);
            assert(s[i].0 == s[s.len() - 1].0);
        }
        assert(p.push(s.last()) =~= s);
    }
}

proof fn lemma_parse_str(data: Seq<u8>, pos: int, s: Seq<char>)
    requires
        str_fits(s),
        0 <= pos,
        pos + ser_str(s).len() <= data.len(),
        data.subrange(pos, pos + ser_str(s).len()) == ser_str(s),
    ensures
        p_str(data, pos) == Parsed::Done(s, pos + ser_str(s).len()),
{
    let e = encode_utf8(s);
    let w = ser_str(s);
    lemma_be16_roundtrip(e.len() as u16);
    assert(data[pos] == w[0] && data[pos + 1] == w[1]);
    assert(be16_at(data, pos) == e.len());
    assert(data.subrange(pos + 2, pos + 2 + e.len()) =~= w.subrange(2, w.len() as int));
    assert(w.subrange(2, w.len() as int) =~= e);
    encode_utf8_valid_utf8(s);
    encode_utf8_decode_utf8(s);
}

proof fn lemma_ser_ints(a: Seq<i32>)
    ensures
        ser_ints(a).len() == 4 * a.len(),
        forall|i: int| 0 <= i < a.len() ==> #[trigger] ser_ints(a).subrange(4 * i, 4 * i + 4) == be32_bytes(a[i] as u32),
    decreases a.len(),
{
    if a.len() > 0 {
        let p = a.drop_last();
        lemma_ser_ints(p);
        assert forall|i: int| 0 <= i < a.len() implies #[trigger] ser_ints(a).subrange(4 * i, 4 * i + 4) == be32_bytes(a[i] as u32) by {
            if i < p.len() {
                assert(ser_ints(a).subrange(4 * i, 4 * i + 4) =~= ser_ints(p).subrange(4 * i, 4 * i + 4));
                assert(p[i] == a[i]);
            } else {
                assert(ser_ints(a).subrange(4 * i, 4 * i + 4) =~= be32_bytes(a.last() as u32));
            }
        }
    }
}

proof fn lemma_ser_longs(a: Seq<i64>)
    ensures
        ser_longs(a).len() == 8 * a.len(),
        forall|i: int| 0 <= i < a.len() ==> #[trigger] ser_longs(a).subrange(8 * i, 8 * i + 8) == be64_bytes(a[i] as u64),
    decreases a.len(),
{
    if a.len() > 0 {
        let p = a.drop_last();
        lemma_ser_longs(p);
        assert forall|i: int| 0 <= i < a.len() implies #[trigger] ser_longs(a).subrange(8 * i, 8 * i + 8) == be64_bytes(a[i] as u64) by {
            if i < p.len() {
                assert(ser_longs(a).subrange(8 * i, 8 * i + 8) =~= ser_longs(p).subrange(8 * i, 8 * i + 8));
                assert(p[i] == a[i]);
            } else {
                assert(ser_longs(a).subrange(8 * i, 8 * i + 8) =~= be64_bytes(a.last() as u64));
            }
        }
    }
}

/// A 32-bit big-endian word in `data` at `pos` equal to the bytes `w`.
proof fn lemma_be32_in(data: Seq<u8>, pos: int, v: u32)
    requires
        0 <= pos,
        pos + 4 <= data.len(),
        data.subrange(pos, pos + 4) == be32_bytes(v),
    ensures
        be32_at(data, pos) == v,
{
    lemma_be32_roundtrip(v);
    let w = be32_bytes(v);
    assert(data[pos] == w[0] && data[pos + 1] == w[1] && data[pos + 2] == w[2] && data[pos + 3] == w[3]);
}

/// A 64-bit big-endian word in `data` at `pos` equal to the bytes `w`.
proof fn lemma_be64_in(data: Seq<u8>, pos: int, v: u64)
    requires
        0 <= pos,
        pos + 8 <= data.len(),
        data.subrange(pos, pos + 8) == be64_bytes(v),
    ensures
        be64_at(data, pos) == v,
{
    lemma_be64_roundtrip(v);
    let w = be64_bytes(v);
    assert forall|i: int| 0 <= i < 8 implies data[pos + i] == w[i] by {
        assert(data.subrange(pos, pos + 8)[i] == data[pos + i]);
    }
}

/// A run inside a run: where `data` holds `w` at `pos`, it holds `w[a..b]` at `pos + a`.
proof fn lemma_sub(data: Seq<u8>, pos: int, w: Seq<u8>, a: int, b: int)
    requires
        0 <= pos,
        pos + w.len() <= data.len(),
        data.subrange(pos, pos + w.len()) == w,
        0 <= a <= b <= w.len(),
    ensures
        data.subrange(pos + a, pos + b) == w.subrange(a, b),
{
    assert forall|k: int| 0 <= k < b - a implies #[trigger] data.subrange(pos + a, pos + b)[k] == w.subrange(a, b)[k] by {
        assert(data.subrange(pos, pos + w.len())[a + k] == data[pos + a + k]);
    }
    assert(data.subrange(pos + a, pos + b) =~= w.subrange(a, b));
}

/// A fixed-size payload reads back as the value.
proof fn lemma_parse_scalar(data: Seq<u8>, pos: int, v: NbtValue)
    requires
        v is Byte || v is Short || v is Int || v is Long || v is Float || v is Double,
        0 <= pos,
        pos + ser_payload(v).len() <= data.len(),
        data.subrange(pos, pos + ser_payload(v).len()) == ser_payload(v),
    ensures
        p_payload(data, pos, value_type(v)) == Parsed::Done(v, pos + ser_payload(v).len()),
{
    let w = ser_payload(v);
    match v {
        NbtValue::Byte(x) => {
            lemma_sub(data, pos, w, 0, 1);
            assert(data[pos] == data.subrange(pos, pos + 1)[0]);
            lemma_signed_casts(x, 0, 0, 0);
        },
        NbtValue::Short(x) => {
            lemma_sub(data, pos, w, 0, 2);
            assert(data[pos] == data.subrange(pos, pos + 2)[0]);
            assert(data[pos + 1] == data.subrange(pos, pos + 2)[1]);
            lemma_be16_roundtrip(x as u16);
            lemma_signed_casts(0, x, 0, 0);
        },
        NbtValue::Int(x) => {
            lemma_be32_in(data, pos, x as u32);
            lemma_signed_casts(0, 0, x, 0);
        },
        NbtValue::Long(x) => {
            lemma_be64_in(data, pos, x as u64);
            lemma_signed_casts(0, 0, 0, x);
        },
        NbtValue::Float(x) => {
            lemma_be32_in(data, pos, x);
        },
        NbtValue::Double(x) => {
            lemma_be64_in(data, pos, x);
        },
        _ => {},
    }
}

/// A byte array's payload reads back as the array.
proof fn lemma_parse_bytes(data: Seq<u8>, pos: int, b: Seq<u8>)
    requires
        b.len() <= i32::MAX,
        0 <= pos,
        pos + ser_payload(NbtValue::ByteArray(b)).len() <= data.len(),
        data.subrange(pos, pos + ser_payload(NbtValue::ByteArray(b)).len()) == ser_payload(NbtValue::ByteArray(b)),
    ensures
        p_payload(data, pos, 7) == Parsed::Done(NbtValue::ByteArray(b), pos + ser_payload(NbtValue::ByteArray(b)).len()),
{
    let w = ser_payload(NbtValue::ByteArray(b));
    assert(w.len() == 4 + b.len());
    let n = w.len() as int;
    lemma_sub(data, pos, w, 0, 4);
    assert(w.subrange(0, 4) =~= be32_bytes(b.len() as u32));
    lemma_be32_in(data, pos, b.len() as u32);
    lemma_sub(data, pos, w, 4, n);
    assert(w.subrange(4, n) =~= b);
    assert(len_at(data, pos) == b.len());
}

/// An int array's payload reads back as the array.
proof fn lemma_parse_ints(data: Seq<u8>, pos: int, a: Seq<i32>)
    requires
        a.len() <= i32::MAX,
        0 <= pos,
        pos + ser_payload(NbtValue::IntArray(a)).len() <= data.len(),
        data.subrange(pos, pos + ser_payload(NbtValue::IntArray(a)).len()) == ser_payload(NbtValue::IntArray(a)),
    ensures
        p_payload(data, pos, 11) == Parsed::Done(NbtValue::IntArray(a), pos + ser_payload(NbtValue::IntArray(a)).len()),
{
    let w = ser_payload(NbtValue::IntArray(a));
    lemma_sub(data, pos, w, 0, 4);
    assert(w.subrange(0, 4) =~= be32_bytes(a.len() as u32));
    lemma_be32_in(data, pos, a.len() as u32);
    assert(len_at(data, pos) == a.len());
    lemma_ser_ints(a);
    let parsed = Seq::new(a.len(), |i: int| (be32_at(data, pos + 4 + 4 * i) as u32) as i32);
    assert forall|i: int| 0 <= i < a.len() implies #[trigger] parsed[i] == a[i] by {
        lemma_sub(data, pos, w, 4 + 4 * i, 8 + 4 * i);
        assert(w.subrange(4 + 4 * i, 8 + 4 * i) =~= ser_ints(a).subrange(4 * i, 4 * i + 4));
        lemma_be32_in(data, pos + 4 + 4 * i, a[i] as u32);
        lemma_signed_casts(0, 0, a[i], 0);
    }
    assert(parsed =~= a);
    assert(w.len() == 4 + ser_ints(a).len());
}

/// A long array's payload reads back as the array.
proof fn lemma_parse_longs(data: Seq<u8>, pos: int, a: Seq<i64>)
    requires
        a.len() <= i32::MAX,
        0 <= pos,
        pos + ser_payload(NbtValue::LongArray(a)).len() <= data.len(),
        data.subrange(pos, pos + ser_payload(NbtValue::LongArray(a)).len()) == ser_payload(NbtValue::LongArray(a)),
    ensures
        p_payload(data, pos, 12) == Parsed::Done(NbtValue::LongArray(a), pos + ser_payload(NbtValue::LongArray(a)).len()),
{
    let w = ser_payload(NbtValue::LongArray(a));
    lemma_sub(data, pos, w, 0, 4);
    assert(w.subrange(0, 4) =~= be32_bytes(a.len() as u32));
    lemma_be32_in(data, pos, a.len() as u32);
    assert(len_at(data, pos) == a.len());
    lemma_ser_longs(a);
    let parsed = Seq::new(a.len(), |i: int| (be64_at(data, pos + 4 + 8 * i) as u64) as i64);
    assert forall|i: int| 0 <= i < a.len() implies #[trigger] parsed[i] == a[i] by {
        lemma_sub(data, pos, w, 4 + 8 * i, 12 + 8 * i);
        assert(w.subrange(4 + 8 * i, 12 + 8 * i) =~= ser_longs(a).subrange(8 * i, 8 * i + 8));
        lemma_be64_in(data, pos + 4 + 8 * i, a[i] as u64);
        lemma_signed_casts(0, 0, 0, a[i]);
    }
    assert(parsed =~= a);
    assert(w.len() == 4 + ser_longs(a).len());
}

/// A faithful list's payload reads back as the list.
proof fn lemma_parse_list_payload(data: Seq<u8>, pos: int, items: Seq<NbtValue>, ty: u8)
    requires
        nbt_wf(NbtValue::List(items, ty)),
        0 <= pos,
        pos + ser_payload(NbtValue::List(items, ty)).len() <= data.len(),
        data.subrange(pos, pos + ser_payload(NbtValue::List(items, ty)).len()) == ser_payload(NbtValue::List(items, ty)),
    ensures
        p_payload(data, pos, 9) == Parsed::Done(NbtValue::List(items, ty), pos + ser_payload(NbtValue::List(items, ty)).len()),
    decreases NbtValue::List(items, ty), 1int,
{
    let w = ser_payload(NbtValue::List(items, ty));
    let n = w.len() as int;
    let body = ser_list(items);
    assert(w =~= seq![ty] + be32_bytes(items.len() as u32) + body);
    lemma_sub(data, pos, w, 0, 1);
    assert(data[pos] == data.subrange(pos, pos + 1)[0]);
    assert(data[pos] == ty);
    lemma_sub(data, pos, w, 1, 5);
    assert(w.subrange(1, 5) =~= be32_bytes(items.len() as u32));
    lemma_be32_in(data, pos + 1, items.len() as u32);
    assert(len_at(data, pos + 1) == items.len());
    lemma_sub(data, pos, w, 5, n);
    assert(w.subrange(5, n) =~= body);
    lemma_parse_list(data, pos + 5, items, ty);
    assert(p_list(data, pos + 5, ty, items.len() as int) == Parsed::Done(items, pos + 5 + body.len()));
}

/// A faithful value's payload reads back as the value.
pub proof fn lemma_parse_payload(data: Seq<u8>, pos: int, v: NbtValue)
    requires
        nbt_wf(v),
        0 <= pos,
        pos + ser_payload(v).len() <= data.len(),
        data.subrange(pos, pos + ser_payload(v).len()) == ser_payload(v),
    ensures
        p_payload(data, pos, value_type(v)) == Parsed::Done(v, pos + ser_payload(v).len()),
    decreases v, 2int,
{
    let goal = Parsed::Done(v, pos + ser_payload(v).len());
    match v {
        NbtValue::ByteArray(b) => {
            lemma_parse_bytes(data, pos, b);
            assert(p_payload(data, pos, value_type(v)) == goal);
        },
        NbtValue::String(s) => {
            lemma_parse_str(data, pos, s);
            assert(p_payload(data, pos, value_type(v)) == goal);
        },
        NbtValue::IntArray(a) => {
            lemma_parse_ints(data, pos, a);
            assert(p_payload(data, pos, value_type(v)) == goal);
        },
        NbtValue::LongArray(a) => {
            lemma_parse_longs(data, pos, a);
            assert(p_payload(data, pos, value_type(v)) == goal);
        },
        NbtValue::List(items, ty) => {
            lemma_parse_list_payload(data, pos, items, ty);
            assert(p_payload(data, pos, value_type(v)) == goal);
        },
        NbtValue::Compound(items) => {
            lemma_parse_items(data, pos, items);
            lemma_assoc_from_unique(items);
            assert(p_payload(data, pos, value_type(v)) == goal);
        },
        NbtValue::End => {},
        _ => {
            lemma_parse_scalar(data, pos, v);
            assert(p_payload(data, pos, value_type(v)) == goal);
        },
    }
}

/// The payloads of faithful list elements read back as the elements.
pub proof fn lemma_parse_list(data: Seq<u8>, pos: int, items: Seq<NbtValue>, ty: u8)
    requires
        list_wf(items, ty),
        0 <= pos,
        pos + ser_list(items).len() <= data.len(),
        data.subrange(pos, pos + ser_list(items).len()) == ser_list(items),
    ensures
        p_list(data, pos, ty, items.len() as int) == Parsed::Done(items, pos + ser_list(items).len()),
    decreases items, 0int,
{
    if items.len() == 0 {
        assert(items =~= Seq::<NbtValue>::empty());
    } else {
        lemma_list_wf_first(items, ty);
        lemma_ser_list_first(items);
        let first = ser_payload(items[0]);
        let rest = items.drop_first();
        let rw = ser_list(rest);
        let w = ser_list(items);
        let p1 = pos + first.len();
        lemma_sub(data, pos, w, 0, first.len() as int);
        assert(w.subrange(0, first.len() as int) =~= first);
        assert(decreases_to!(items => items[0]));
        lemma_parse_payload(data, pos, items[0]);
        assert(p_payload(data, pos, ty) == Parsed::Done(items[0], p1));
        lemma_sub(data, pos, w, first.len() as int, w.len() as int);
        assert(w.subrange(first.len() as int, w.len() as int) =~= rw);
        lemma_parse_list(data, p1, rest, ty);
        assert(p_list(data, p1, ty, items.len() - 1) == Parsed::Done(rest, p1 + rw.len()));
        assert(w.len() == first.len() + rw.len());
        assert(!(p1 < pos || p1 > data.len()));
        assert(p_list(data, pos, ty, items.len() as int) == Parsed::Done(seq![items[0]] + rest, p1 + rw.len()));
        assert(seq![items[0]] + rest =~= items);
    }
}

/// The entries of a faithful compound read back, followed by the end byte.
pub proof fn lemma_parse_items(data: Seq<u8>, pos: int, items: Seq<(Seq<char>, NbtValue)>)
    requires
        items_wf(items),
        0 <= pos,
        pos + ser_items(items).len() + 1 <= data.len(),
        data.subrange(pos, pos + ser_items(items).len() + 1) == ser_items(items) + seq![0u8],
    ensures
        p_items(data, pos) == Parsed::Done(items, pos + ser_items(items).len() + 1),
    decreases items, 0int,
{
    let w = ser_items(items) + seq![0u8];
    lemma_sub(data, pos, w, 0, 1);
    assert(data[pos] == data.subrange(pos, pos + 1)[0]);
    if items.len() == 0 {
        assert(data[pos] == 0);
        assert(items =~= Seq::<(Seq<char>, NbtValue)>::empty());
    } else {
        lemma_items_wf_first(items);
        lemma_ser_items_first(items);
        let name = items[0].0;
        let v = items[0].1;
        let sw = ser_str(name);
        let pw = ser_payload(v);
        let rest = items.drop_first();
        let rw = ser_items(rest);
        let a: int = 1 + sw.len() as int;
        let b: int = a + pw.len() as int;
        assert(value_type(v) != 0);
        assert(w[0] == value_type(v));
        assert(data[pos] == value_type(v));
        lemma_sub(data, pos, w, 1, a);
        assert(w.subrange(1, a) =~= sw);
        lemma_parse_str(data, pos + 1, name);
        assert(p_str(data, pos + 1) == Parsed::Done(name, pos + a));
        lemma_sub(data, pos, w, a, b);
        assert(w.subrange(a, b) =~= pw);
        assert(decreases_to!(items => items[0]));
        lemma_parse_payload(data, pos + a, v);
        assert(p_payload(data, pos + a, value_type(v)) == Parsed::Done(v, pos + b));
        lemma_sub(data, pos, w, b, w.len() as int);
        assert(w.subrange(b, w.len() as int) =~= rw + seq![0u8]);
        lemma_parse_items(data, pos + b, rest);
        assert(p_items(data, pos + b) == Parsed::Done(rest, pos + b + rw.len() + 1));
        assert(seq![(name, v)] + rest =~= items);
    }
}

/// Reading back big-endian NBT written for a named, faithful value gives the name and
/// the value.
pub proof fn lemma_nbt_roundtrip(name: Seq<char>, v: NbtValue)
    requires
        str_fits(name),
        nbt_wf(v),
    ensures
        spec_read_nbt(spec_write_nbt(name, v)) == Parsed::Done((name, v), spec_write_nbt(name, v).len() as int),
{
    let d = spec_write_nbt(name, v);
    let sw = ser_str(name);
    let pw = ser_payload(v);
    let a: int = 1 + sw.len() as int;
    let b: int = a + pw.len();
    assert(value_type(v) != 0);
    assert(d.subrange(1, a) =~= sw);
    lemma_parse_str(d, 1, name);
    assert(d.subrange(a, b) =~= pw);
    lemma_parse_payload(d, a, v);
}

} // verus!
