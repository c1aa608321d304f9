//! Named Binary Tag (NBT) values: the tree type, its big-endian reader and writer,
//! the little-endian writer of console chunk payloads, and typed lookups.
use vstd::prelude::*;
use vstd::utf8::{decode_utf8, encode_utf8, valid_utf8};
use crate::assoc::{assoc_get, assoc_put, key_index, lemma_key_index};
use crate::bytes::{be16_at, be32_at, be64_at, be_u16_at, be_u32_at, be_u64_at};
use crate::bytes::{push_bytes, 
    be16_bytes, be32_bytes, be64_bytes, le16_bytes, le32_bytes, le64_bytes, push_be_u16, push_be_u32,
    push_be_u64, push_le_u16, push_le_u32, push_le_u64,
};
use crate::error::ConversionError;
use crate::text::to_owned_string;
use crate::compress::{gzip_decode, gzip_decoded, zlib_decode, zlib_decoded, zlib_encode, zlib_encoded};

verus! {

/// An NBT tag. Floating-point payloads are held as their IEEE-754 bit patterns, which
/// is what the binary format stores; compounds keep their entries in order, each name
/// once.
#[derive(Debug)]
pub enum NbtTag {
    Byte(i8),
    Short(i16),
    Int(i32),
    Long(i64),
    Float(u32),
    Double(u64),
    String(String),
    ByteArray(Vec<u8>),
    IntArray(Vec<i32>),
    LongArray(Vec<i64>),
    List(Vec<NbtTag>, u8),
    Compound(Vec<(String, NbtTag)>),
    End,
}

/// The mathematical value of an NBT tag.
pub enum NbtValue {
    Byte(i8),
    Short(i16),
    Int(i32),
    Long(i64),
    Float(u32),
    Double(u64),
    String(Seq<char>),
    ByteArray(Seq<u8>),
    IntArray(Seq<i32>),
    LongArray(Seq<i64>),
    List(Seq<NbtValue>, u8),
    Compound(Seq<(Seq<char>, NbtValue)>),
    End,
}

/// The value of a tag.
pub open spec fn tag_view(t: NbtTag) -> NbtValue
    decreases t,
{
    match t {
        NbtTag::Byte(v) => NbtValue::Byte(v),
        NbtTag::Short(v) => NbtValue::Short(v),
        NbtTag::Int(v) => NbtValue::Int(v),
        NbtTag::Long(v) => NbtValue::Long(v),
        NbtTag::Float(v) => NbtValue::Float(v),
        NbtTag::Double(v) => NbtValue::Double(v),
        NbtTag::String(s) => NbtValue::String(s@),
        NbtTag::ByteArray(v) => NbtValue::ByteArray(v@),
        NbtTag::IntArray(v) => NbtValue::IntArray(v@),
        NbtTag::LongArray(v) => NbtValue::LongArray(v@),
        NbtTag::List(v, ty) => NbtValue::List(tags_view(v@), ty),
        NbtTag::Compound(v) => NbtValue::Compound(items_view(v@)),
        NbtTag::End => NbtValue::End,
    }
}

/// The values of a sequence of tags.
pub open spec fn tags_view(s: Seq<NbtTag>) -> Seq<NbtValue>
    decreases s,
{
    if s.len() == 0 {
        Seq::empty()
    } else {
        tags_view(s.drop_last()).push(tag_view(s.last()))
    }
}

/// The named values of a sequence of compound entries.
pub open spec fn items_view(s: Seq<(String, NbtTag)>) -> Seq<(Seq<char>, NbtValue)>
    decreases s,
{
    if s.len() == 0 {
        Seq::empty()
    } else {
        items_view(s.drop_last()).push((s.last().0@, tag_view(s.last().1)))
    }
}

impl View for NbtTag {
    type V = NbtValue;

    open spec fn view(&self) -> NbtValue {
        tag_view(*self)
    }
}

/// The type id of a value.
pub open spec fn value_type(v: NbtValue) -> u8 {
    match v {
        NbtValue::End => 0,
        NbtValue::Byte(_) => 1,
        NbtValue::Short(_) => 2,
        NbtValue::Int(_) => 3,
        NbtValue::Long(_) => 4,
        NbtValue::Float(_) => 5,
        NbtValue::Double(_) => 6,
        NbtValue::ByteArray(_) => 7,
        NbtValue::String(_) => 8,
        NbtValue::List(_, _) => 9,
        NbtValue::Compound(_) => 10,
        NbtValue::IntArray(_) => 11,
        NbtValue::LongArray(_) => 12,
    }
}

/// The element type a list is written with: that of its first element, or 0 when it
/// is empty.
pub open spec fn list_elem_type(items: Seq<NbtValue>) -> u8 {
    if items.len() == 0 { 0 } else { value_type(items[0]) }
}

/// A string as the big-endian format writes it: its UTF-8 length, then its UTF-8.
pub open spec fn ser_str(s: Seq<char>) -> Seq<u8> {
    be16_bytes(encode_utf8(s).len() as u16) + encode_utf8(s)
}

/// Big-endian bytes of a sequence of `i32`.
pub open spec fn ser_ints(a: Seq<i32>) -> Seq<u8>
    decreases a.len(),
{
    if a.len() == 0 { Seq::empty() } else { ser_ints(a.drop_last()) + be32_bytes(a.last() as u32) }
}

/// Big-endian bytes of a sequence of `i64`.
pub open spec fn ser_longs(a: Seq<i64>) -> Seq<u8>
    decreases a.len(),
{
    if a.len() == 0 { Seq::empty() } else { ser_longs(a.drop_last()) + be64_bytes(a.last() as u64) }
}

/// The big-endian payload of a value (what follows its type id).
pub open spec fn ser_payload(v: NbtValue) -> Seq<u8>
    decreases v,
{
    match v {
        NbtValue::End => seq![0u8],
        NbtValue::Byte(x) => seq![x as u8],
        NbtValue::Short(x) => be16_bytes(x as u16),
        NbtValue::Int(x) => be32_bytes(x as u32),
        NbtValue::Long(x) => be64_bytes(x as u64),
        NbtValue::Float(x) => be32_bytes(x),
        NbtValue::Double(x) => be64_bytes(x),
        NbtValue::ByteArray(b) => be32_bytes(b.len() as u32) + b,
        NbtValue::String(s) => ser_str(s),
        NbtValue::List(items, _) => seq![list_elem_type(items)] + be32_bytes(items.len() as u32) + ser_list(items),
        NbtValue::Compound(items) => ser_items(items) + seq![0u8],
        NbtValue::IntArray(a) => be32_bytes(a.len() as u32) + ser_ints(a),
        NbtValue::LongArray(a) => be32_bytes(a.len() as u32) + ser_longs(a),
    }
}

/// The payloads of list elements, one after another.
pub open spec fn ser_list(s: Seq<NbtValue>) -> Seq<u8>
    decreases s,
{
    if s.len() == 0 { Seq::empty() } else { ser_list(s.drop_last()) + ser_payload(s.last()) }
}

/// The entries of a compound: each a type id, a name and a payload.
pub open spec fn ser_items(s: Seq<(Seq<char>, NbtValue)>) -> Seq<u8>
    decreases s,
{
    if s.len() == 0 {
        Seq::empty()
    } else {
        ser_items(s.drop_last()) + seq![value_type(s.last().1)] + ser_str(s.last().0) + ser_payload(s.last().1)
    }
}

/// A string fits the format: at most 65535 bytes of UTF-8.
pub open spec fn str_fits(s: Seq<char>) -> bool {
    encode_utf8(s).len() <= 65535
}

/// Every string of the value (names included) fits the format.
pub open spec fn writable(v: NbtValue) -> bool
    decreases v,
{
    match v {
        NbtValue::String(s) => str_fits(s),
        NbtValue::List(items, _) => list_writable(items),
        NbtValue::Compound(items) => items_writable(items),
        _ => true,
    }
}

/// Every element of the list is writable.
pub open spec fn list_writable(s: Seq<NbtValue>) -> bool
    decreases s,
{
    s.len() == 0 || (list_writable(s.drop_last()) && writable(s.last()))
}

/// Every entry name fits and every entry value is writable.
pub open spec fn items_writable(s: Seq<(Seq<char>, NbtValue)>) -> bool
    decreases s,
{
    s.len() == 0 || (items_writable(s.drop_last()) && str_fits(s.last().0) && writable(s.last().1))
}

/// The little-endian payload of a value, as console chunk payloads write it; string
/// lengths are cut to 16 bits and array lengths to 32.
pub open spec fn ser_payload_le(v: NbtValue) -> Seq<u8>
    decreases v,
{
    match v {
        NbtValue::End => seq![0u8],
        NbtValue::Byte(x) => seq![x as u8],
        NbtValue::Short(x) => le16_bytes(x as u16),
        NbtValue::Int(x) => le32_bytes(x as u32),
        NbtValue::Long(x) => le64_bytes(x as u64),
        NbtValue::Float(x) => le32_bytes(x),
        NbtValue::Double(x) => le64_bytes(x),
        NbtValue::ByteArray(b) => le32_bytes(b.len() as u32) + b,
        NbtValue::String(s) => ser_str_le(s),
        NbtValue::List(items, _) => seq![list_elem_type(items)] + le32_bytes(items.len() as u32) + ser_list_le(items),
        NbtValue::Compound(items) => ser_items_le(items) + seq![0u8],
        NbtValue::IntArray(a) => le32_bytes(a.len() as u32) + ser_ints_le(a),
        NbtValue::LongArray(a) => le32_bytes(a.len() as u32) + ser_longs_le(a),
    }
}

/// A string in little-endian form: its UTF-8 length cut to 16 bits, then its UTF-8.
pub open spec fn ser_str_le(s: Seq<char>) -> Seq<u8> {
    le16_bytes(encode_utf8(s).len() as u16) + encode_utf8(s)
}

/// Little-endian bytes of a sequence of `i32`.
pub open spec fn ser_ints_le(a: Seq<i32>) -> Seq<u8>
    decreases a.len(),
{
    if a.len() == 0 { Seq::empty() } else { ser_ints_le(a.drop_last()) + le32_bytes(a.last() as u32) }
}

/// Little-endian bytes of a sequence of `i64`.
pub open spec fn ser_longs_le(a: Seq<i64>) -> Seq<u8>
    decreases a.len(),
{
    if a.len() == 0 { Seq::empty() } else { ser_longs_le(a.drop_last()) + le64_bytes(a.last() as u64) }
}

/// Little-endian payloads of list elements.
pub open spec fn ser_list_le(s: Seq<NbtValue>) -> Seq<u8>
    decreases s,
{
    if s.len() == 0 { Seq::empty() } else { ser_list_le(s.drop_last()) + ser_payload_le(s.last()) }
}

/// Little-endian compound entries.
pub open spec fn ser_items_le(s: Seq<(Seq<char>, NbtValue)>) -> Seq<u8>
    decreases s,
{
    if s.len() == 0 {
        Seq::empty()
    } else {
        ser_items_le(s.drop_last()) + seq![value_type(s.last().1)] + ser_str_le(s.last().0) + ser_payload_le(s.last().1)
    }
}

/// Element `i` of the values of a tag sequence is the value of element `i`.
pub proof fn lemma_tags_view(s: Seq<NbtTag>)
    ensures
        tags_view(s).len() == s.len(),
        forall|i: int| 0 <= i < s.len() ==> #[trigger] tags_view(s)[i] == tag_view(s[i]),
    decreases s.len(),
{
    if s.len() > 0 {
        lemma_tags_view(s.drop_last());
    }
}

/// Entry `i` of the named values of compound entries is that of entry `i`.
pub proof fn lemma_items_view(s: Seq<(String, NbtTag)>)
    ensures
        items_view(s).len() == s.len(),
        forall|i: int| 0 <= i < s.len() ==> #[trigger] items_view(s)[i] == (s[i].0@, tag_view(s[i].1)),
    decreases s.len(),
{
    if s.len() > 0 {
        lemma_items_view(s.drop_last());
    }
}

/// A list is writable exactly when each of its elements is.
pub proof fn lemma_list_writable(s: Seq<NbtValue>)
    ensures
        list_writable(s) <==> forall|i: int| 0 <= i < s.len() ==> writable(#[trigger] s[i]),
    decreases s.len(),
{
    if s.len() > 0 {
        let p = s.drop_last();
        lemma_list_writable(p);
        if list_writable(s) {
            assert forall|i: int| 0 <= i < s.len() implies writable(#[trigger] s[i]) by {
                if i < s.len() - 1 {
                    assert(s[i] == p[i]);
                }
            }
        }
        if forall|i: int| 0 <= i < s.len() ==> writable(#[trigger] s[i]) {
            assert forall|i: int| 0 <= i < p.len() implies writable(#[trigger] p[i]) by {
                assert(s[i] == p[i]);
            }
            assert(writable(s[s.len() - 1]));
        }
    }
}

/// Compound entries are writable exactly when each name fits and each value is
/// writable.
pub proof fn lemma_items_writable(s: Seq<(Seq<char>, NbtValue)>)
    ensures
        items_writable(s) <==> forall|i: int| #![trigger s[i]] 0 <= i < s.len() ==> str_fits(s[i].0) && writable(s[i].1),
    decreases s.len(),
{
    if s.len() > 0 {
        let p = s.drop_last();
        lemma_items_writable(p);
        if items_writable(s) {
            assert(items_writable(p));
            assert forall|i: int| #![trigger s[i]] 0 <= i < s.len() implies str_fits(s[i].0) && writable(s[i].1) by {
                if i < s.len() - 1 {
                    assert(s[i] == p[i]);
                    assert(str_fits(p[i].0) && writable(p[i].1));
                }
            }
        }
        if forall|i: int| #![trigger s[i]] 0 <= i < s.len() ==> str_fits(s[i].0) && writable(s[i].1) {
            assert forall|i: int| #![trigger p[i]] 0 <= i < p.len() implies str_fits(p[i].0) && writable(p[i].1) by {
                assert(s[i] == p[i]);
            }
            assert(str_fits(s[s.len() - 1].0) && writable(s[s.len() - 1].1));
        }
    }
}

impl NbtTag {
    /// The type id of the tag.
    pub fn tag_type(&self) -> (r: u8)
        ensures
            r == value_type(self@),
    {
        match self {
            NbtTag::End => 0,
            NbtTag::Byte(_) => 1,
            NbtTag::Short(_) => 2,
            NbtTag::Int(_) => 3,
            NbtTag::Long(_) => 4,
            NbtTag::Float(_) => 5,
            NbtTag::Double(_) => 6,
            NbtTag::ByteArray(_) => 7,
            NbtTag::String(_) => 8,
            NbtTag::List(_, _) => 9,
            NbtTag::Compound(_) => 10,
            NbtTag::IntArray(_) => 11,
            NbtTag::LongArray(_) => 12,
        }
    }
}

/// The type id of a tag.
pub fn get_tag_type(tag: &NbtTag) -> (r: u8)
    ensures
        r == value_type(tag@),
{
    tag.tag_type()
}

/// The element type a list of tags is written with.
fn elem_type(tags: &Vec<NbtTag>) -> (r: u8)
    ensures
        r == list_elem_type(tags_view(tags@)),
{
    proof { lemma_tags_view(tags@); }
    if tags.len() == 0 { 0 } else { tags[0].tag_type() }
}

/// Writes a string: its 16-bit big-endian UTF-8 length, then its UTF-8; a string
/// longer than 65535 bytes is refused.
fn write_string(out: &mut Vec<u8>, s: &str) -> (r: Result<(), ConversionError>)
    ensures
        r is Ok <==> str_fits(s@),
        r is Err ==> r matches Err(ConversionError::NbtError(_)),
        r is Ok ==> final(out)@ == old(out)@ + ser_str(s@),
{
    let bytes = s.as_bytes();
    if bytes.len() > 65535 {
        return Err(ConversionError::NbtError(to_owned_string("String too long")));
    }
    push_be_u16(out, bytes.len() as u16);
    push_bytes(out, bytes);
    assert(final(out)@ =~= old(out)@ + ser_str(s@));
    Ok(())
}

fn write_ints_be(out: &mut Vec<u8>, v: &Vec<i32>)
    ensures
        final(out)@ == old(out)@ + ser_ints(v@),
{
    let mut i: usize = 0;
    assert(v@.subrange(0, 0) =~= Seq::<i32>::empty());
    while i < v.len()
        invariant
            i <= v@.len(),
            out@ == old(out)@ + ser_ints(v@.subrange(0, i as int)),
        decreases v@.len() - i,
    {
        push_be_u32(out, v[i] as u32);
        assert(v@.subrange(0, i + 1).drop_last() =~= v@.subrange(0, i as int));
        assert(out@ =~= old(out)@ + ser_ints(v@.subrange(0, i + 1)));
        i += 1;
    }
    assert(v@.subrange(0, v@.len() as int) =~= v@);
}

fn write_longs_be(out: &mut Vec<u8>, v: &Vec<i64>)
    ensures
        final(out)@ == old(out)@ + ser_longs(v@),
{
    let mut i: usize = 0;
    assert(v@.subrange(0, 0) =~= Seq::<i64>::empty());
    while i < v.len()
        invariant
            i <= v@.len(),
            out@ == old(out)@ + ser_longs(v@.subrange(0, i as int)),
        decreases v@.len() - i,
    {
        push_be_u64(out, v[i] as u64);
        assert(v@.subrange(0, i + 1).drop_last() =~= v@.subrange(0, i as int));
        assert(out@ =~= old(out)@ + ser_longs(v@.subrange(0, i + 1)));
        i += 1;
    }
    assert(v@.subrange(0, v@.len() as int) =~= v@);
}

/// The values of the first `i + 1` tags extend those of the first `i`.
pub proof fn lemma_tags_view_step(v: Seq<NbtTag>, i: int)
    requires
        0 <= i < v.len(),
    ensures
        tags_view(v.subrange(0, i + 1)) == tags_view(v.subrange(0, i)).push(tag_view(v[i])),
{
    assert(v.subrange(0, i + 1).drop_last() =~= v.subrange(0, i));
}

/// The named values of the first `i + 1` entries extend those of the first `i`.
pub proof fn lemma_items_view_step(v: Seq<(String, NbtTag)>, i: int)
    requires
        0 <= i < v.len(),
    ensures
        items_view(v.subrange(0, i + 1)) == items_view(v.subrange(0, i)).push((v[i].0@, tag_view(v[i].1))),
{
    assert(v.subrange(0, i + 1).drop_last() =~= v.subrange(0, i));
}

/// Writes the big-endian payload of a tag; fails when a string in it is too long.
fn write_tag(out: &mut Vec<u8>, tag: &NbtTag) -> (r: Result<(), ConversionError>)
    ensures
        r is Ok <==> writable(tag@),
        r is Err ==> r matches Err(ConversionError::NbtError(_)),
        r is Ok ==> final(out)@ == old(out)@ + ser_payload(tag@),
    decreases tag,
{
    match tag {
        NbtTag::End => {
            out.push(0);
        },
        NbtTag::Byte(v) => {
            out.push(*v as u8);
        },
        NbtTag::Short(v) => {
            push_be_u16(out, *v as u16);
        },
        NbtTag::Int(v) => {
            push_be_u32(out, *v as u32);
        },
        NbtTag::Long(v) => {
            push_be_u64(out, *v as u64);
        },
        NbtTag::Float(v) => {
            push_be_u32(out, *v);
        },
        NbtTag::Double(v) => {
            push_be_u64(out, *v);
        },
        NbtTag::ByteArray(v) => {
            push_be_u32(out, v.len() as u32);
            push_bytes(out, v.as_slice());
        },
        NbtTag::String(s) => {
            return write_string(out, s.as_str());
        },
        NbtTag::List(tags, ty) => {
            let et = elem_type(tags);
            out.push(et);
            push_be_u32(out, tags.len() as u32);
            let ghost head = out@;
            let ghost all = tags_view(tags@);
            proof {
                lemma_tags_view(tags@);
                lemma_list_writable(all);
            }
            let mut i: usize = 0;
            assert(tags@.subrange(0, 0) =~= Seq::<NbtTag>::empty());
            while i < tags.len()
                invariant
                    i <= tags@.len(),
                    *tag == NbtTag::List(*tags, *ty),
                    all == tags_view(tags@),
                    all.len() == tags@.len(),
                    forall|j: int| 0 <= j < tags@.len() ==> #[trigger] all[j] == tag_view(tags@[j]),
                    forall|j: int| 0 <= j < i ==> writable(#[trigger] all[j]),
                    out@ == head + ser_list(tags_view(tags@.subrange(0, i as int))),
                decreases tags@.len() - i,
            {
                proof {
                    assert(decreases_to!(*tag => tag->List_0));
                    assert(tag->List_0 == *tags);
                    assert(decreases_to!(*tags => tags@));
                    assert(decreases_to!(tags@ => tags@[i as int]));
                }
                match write_tag(out, &tags[i]) {
                    Ok(()) => {},
                    Err(e) => {
                        assert(!writable(all[i as int]));
                        proof { lemma_list_writable(all); }
                        return Err(e);
                    },
                }
                proof {
                    lemma_tags_view_step(tags@, i as int);
                    let tv = tags_view(tags@.subrange(0, i as int));
                    assert(tv.push(tag_view(tags@[i as int])).drop_last() =~= tv);
                }
                i += 1;
            }
            assert(tags@.subrange(0, tags@.len() as int) =~= tags@);
            assert(out@ =~= old(out)@ + ser_payload(tag@));
        },
        NbtTag::Compound(items) => {
            let ghost head = out@;
            let ghost all = items_view(items@);
            proof {
                lemma_items_view(items@);
                lemma_items_writable(all);
            }
            let mut i: usize = 0;
            assert(items@.subrange(0, 0) =~= Seq::<(String, NbtTag)>::empty());
            while i < items.len()
                invariant
                    i <= items@.len(),
                    *tag == NbtTag::Compound(*items),
                    all == items_view(items@),
                    all.len() == items@.len(),
                    forall|j: int| #![trigger all[j]] 0 <= j < items@.len() ==> all[j] == (items@[j].0@, tag_view(items@[j].1)),
                    forall|j: int| #![trigger all[j]] 0 <= j < i ==> str_fits(all[j].0) && writable(all[j].1),
                    out@ == head + ser_items(items_view(items@.subrange(0, i as int))),
                decreases items@.len() - i,
            {
                let (name, t) = &items[i];
                let ghost o1 = out@;
                let ghost out_before = out@;
                let tt = t.tag_type();
                out.push(tt);
                match write_string(out, name.as_str()) {
                    Ok(()) => {},
                    Err(e) => {
                        assert(!str_fits(all[i as int].0));
                        proof { lemma_items_writable(all); }
                        return Err(e);
                    },
                }
                proof {
                    assert(decreases_to!(*tag => *items));
                    assert(decreases_to!(*items => items@));
                    assert(decreases_to!(items@ => items@[i as int]));
                    assert(decreases_to!(items@[i as int] => items@[i as int].1));
                }
                match write_tag(out, t) {
                    Ok(()) => {},
                    Err(e) => {
                        assert(!writable(all[i as int].1));
                        proof { lemma_items_writable(all); }
                        return Err(e);
                    },
                }
                proof {
                    lemma_items_view_step(items@, i as int);
                    let iv = items_view(items@.subrange(0, i as int));
                    assert(iv.push((items@[i as int].0@, tag_view(items@[i as int].1))).drop_last() =~= iv);
                    assert(out@ =~= o1 + seq![value_type(tag_view(*t))] + ser_str(name@) + ser_payload(tag_view(*t)));
                }
                i += 1;
            }
            assert(items@.subrange(0, items@.len() as int) =~= items@);
            out.push(0);
            assert(out@ =~= old(out)@ + ser_payload(tag@));
        },
        NbtTag::IntArray(v) => {
            push_be_u32(out, v.len() as u32);
            write_ints_be(out, v);
        },
        NbtTag::LongArray(v) => {
            push_be_u32(out, v.len() as u32);
            write_longs_be(out, v);
        },
    }
    Ok(())
}

fn write_ints_le(out: &mut Vec<u8>, v: &Vec<i32>)
    ensures
        final(out)@ == old(out)@ + ser_ints_le(v@),
{
    let mut i: usize = 0;
    assert(v@.subrange(0, 0) =~= Seq::<i32>::empty());
    while i < v.len()
        invariant
            i <= v@.len(),
            out@ == old(out)@ + ser_ints_le(v@.subrange(0, i as int)),
        decreases v@.len() - i,
    {
        push_le_u32(out, v[i] as u32);
        assert(v@.subrange(0, i + 1).drop_last() =~= v@.subrange(0, i as int));
        assert(out@ =~= old(out)@ + ser_ints_le(v@.subrange(0, i + 1)));
        i += 1;
    }
    assert(v@.subrange(0, v@.len() as int) =~= v@);
}

fn write_longs_le(out: &mut Vec<u8>, v: &Vec<i64>)
    ensures
        final(out)@ == old(out)@ + ser_longs_le(v@),
{
    let mut i: usize = 0;
    assert(v@.subrange(0, 0) =~= Seq::<i64>::empty());
    while i < v.len()
        invariant
            i <= v@.len(),
            out@ == old(out)@ + ser_longs_le(v@.subrange(0, i as int)),
        decreases v@.len() - i,
    {
        push_le_u64(out, v[i] as u64);
        assert(v@.subrange(0, i + 1).drop_last() =~= v@.subrange(0, i as int));
        assert(out@ =~= old(out)@ + ser_longs_le(v@.subrange(0, i + 1)));
        i += 1;
    }
    assert(v@.subrange(0, v@.len() as int) =~= v@);
}

/// Writes a string in little-endian form: its UTF-8 length cut to 16 bits, then its
/// UTF-8.
fn write_string_le(out: &mut Vec<u8>, s: &str)
    ensures
        final(out)@ == old(out)@ + ser_str_le(s@),
{
    let bytes = s.as_bytes();
    push_le_u16(out, bytes.len() as u16);
    push_bytes(out, bytes);
    assert(final(out)@ =~= old(out)@ + ser_str_le(s@));
}

/// Writes the little-endian payload of a tag.
fn write_tag_le(out: &mut Vec<u8>, tag: &NbtTag)
    ensures
        final(out)@ == old(out)@ + ser_payload_le(tag@),
    decreases tag,
{
    match tag {
        NbtTag::End => {
            out.push(0);
        },
        NbtTag::Byte(v) => {
            out.push(*v as u8);
        },
        NbtTag::Short(v) => {
            push_le_u16(out, *v as u16);
        },
        NbtTag::Int(v) => {
            push_le_u32(out, *v as u32);
        },
        NbtTag::Long(v) => {
            push_le_u64(out, *v as u64);
        },
        NbtTag::Float(v) => {
            push_le_u32(out, *v);
        },
        NbtTag::Double(v) => {
            push_le_u64(out, *v);
        },
        NbtTag::ByteArray(v) => {
            push_le_u32(out, v.len() as u32);
            push_bytes(out, v.as_slice());
        },
        NbtTag::String(s) => {
            write_string_le(out, s.as_str());
        },
        NbtTag::List(tags, ty) => {
            let et = elem_type(tags);
            out.push(et);
            push_le_u32(out, tags.len() as u32);
            let ghost head = out@;
            let mut i: usize = 0;
            assert(tags@.subrange(0, 0) =~= Seq::<NbtTag>::empty());
            while i < tags.len()
                invariant
                    i <= tags@.len(),
                    *tag == NbtTag::List(*tags, *ty),
                    out@ == head + ser_list_le(tags_view(tags@.subrange(0, i as int))),
                decreases tags@.len() - i,
            {
                proof {
                    assert(decreases_to!(*tag => tag->List_0));
                    assert(tag->List_0 == *tags);
                    assert(decreases_to!(*tags => tags@));
                    assert(decreases_to!(tags@ => tags@[i as int]));
                }
                write_tag_le(out, &tags[i]);
                proof {
                    lemma_tags_view_step(tags@, i as int);
                    let tv = tags_view(tags@.subrange(0, i as int));
                    assert(tv.push(tag_view(tags@[i as int])).drop_last() =~= tv);
                }
                i += 1;
            }
            assert(tags@.subrange(0, tags@.len() as int) =~= tags@);
            proof { lemma_tags_view(tags@); }
            assert(out@ =~= old(out)@ + ser_payload_le(tag@));
        },
        NbtTag::Compound(items) => {
            let ghost head = out@;
            let mut i: usize = 0;
            assert(items@.subrange(0, 0) =~= Seq::<(String, NbtTag)>::empty());
            while i < items.len()
                invariant
                    i <= items@.len(),
                    *tag == NbtTag::Compound(*items),
                    out@ == head + ser_items_le(items_view(items@.subrange(0, i as int))),
                decreases items@.len() - i,
            {
                let (name, t) = &items[i];
                let ghost o1 = out@;
                let tt = t.tag_type();
                out.push(tt);
                write_string_le(out, name.as_str());
                proof {
                    assert(decreases_to!(*tag => tag->Compound_0));
                    assert(tag->Compound_0 == *items);
                    assert(decreases_to!(*items => items@));
                    assert(decreases_to!(items@ => items@[i as int]));
                    assert(decreases_to!(items@[i as int] => items@[i as int].1));
                }
                write_tag_le(out, t);
                proof {
                    lemma_items_view_step(items@, i as int);
                    let iv = items_view(items@.subrange(0, i as int));
                    assert(iv.push((items@[i as int].0@, tag_view(items@[i as int].1))).drop_last() =~= iv);
                    assert(out@ =~= o1 + seq![value_type(tag_view(*t))] + ser_str_le(name@) + ser_payload_le(tag_view(*t)));
                }
                i += 1;
            }
            assert(items@.subrange(0, items@.len() as int) =~= items@);
            out.push(0);
            assert(out@ =~= old(out)@ + ser_payload_le(tag@));
        },
        NbtTag::IntArray(v) => {
            push_le_u32(out, v.len() as u32);
            write_ints_le(out, v);
        },
        NbtTag::LongArray(v) => {
            push_le_u32(out, v.len() as u32);
            write_longs_le(out, v);
        },
    }
}

/// The big-endian encoding of a named root tag: its type id, its name, its payload.
pub open spec fn spec_write_nbt(name: Seq<char>, v: NbtValue) -> Seq<u8> {
    seq![value_type(v)] + ser_str(name) + ser_payload(v)
}

/// Encodes a named root tag in the big-endian format; fails with an NBT error when
/// the name or a string in the tag is longer than 65535 bytes.
pub fn write_nbt(name: &str, tag: &NbtTag) -> (r: Result<Vec<u8>, ConversionError>)
    ensures
        r is Ok <==> str_fits(name@) && writable(tag@),
        r is Err ==> r matches Err(ConversionError::NbtError(_)),
        r matches Ok(b) ==> b@ == spec_write_nbt(name@, tag@),
{
    let mut buf: Vec<u8> = Vec::new();
    let tag_type = tag.tag_type();
    buf.push(tag_type);
    write_string(&mut buf, name)?;
    write_tag(&mut buf, tag)?;
    assert(buf@ =~= spec_write_nbt(name@, tag@));
    Ok(buf)
}

/// Encodes a root tag in the little-endian format of console chunk payloads: its
/// type id, then its payload (no name).
pub fn write_nbt_le(tag: &NbtTag) -> (r: Result<Vec<u8>, ConversionError>)
    ensures
        r matches Ok(b) && b@ == seq![value_type(tag@)] + ser_payload_le(tag@),
{
    let mut buf: Vec<u8> = Vec::new();
    buf.push(tag.tag_type());
    write_tag_le(&mut buf, tag);
    assert(buf@ =~= seq![value_type(tag@)] + ser_payload_le(tag@));
    Ok(buf)
}

/// The outcome of parsing at a position: a value and the position after it, the end
/// of the data reached too soon, or malformed data.
pub enum Parsed<T> {
    Done(T, int),
    Eof,
    Bad,
}

/// A big-endian format string at `pos`: a 16-bit length, then that many bytes of
/// UTF-8.
pub open spec fn p_str(data: Seq<u8>, pos: int) -> Parsed<Seq<char>> {
    if pos < 0 || pos + 2 > data.len() {
        Parsed::Eof
    } else {
        let n = be16_at(data, pos);
        if pos + 2 + n > data.len() {
            Parsed::Eof
        } else {
            let b = data.subrange(pos + 2, pos + 2 + n);
            if valid_utf8(b) { Parsed::Done(decode_utf8(b), pos + 2 + n) } else { Parsed::Bad }
        }
    }
}

/// A 32-bit big-endian signed length at `pos`.
pub open spec fn len_at(data: Seq<u8>, pos: int) -> int {
    ((be32_at(data, pos) as u32) as i32) as int
}

/// The payload of a value of type `ty` at `pos`.
pub open spec fn p_payload(data: Seq<u8>, pos: int, ty: u8) -> Parsed<NbtValue>
    decreases data.len() - pos, 1int,
{
    let len = data.len();
    if pos < 0 || pos > len {
        Parsed::Eof
    } else if ty == 0 {
        Parsed::Done(NbtValue::End, pos)
    } else if ty == 1 {
        if pos + 1 > len { Parsed::Eof } else { Parsed::Done(NbtValue::Byte(data[pos] as i8), pos + 1) }
    } else if ty == 2 {
        if pos + 2 > len { Parsed::Eof } else { Parsed::Done(NbtValue::Short((be16_at(data, pos) as u16) as i16), pos + 2) }
    } else if ty == 3 {
        if pos + 4 > len { Parsed::Eof } else { Parsed::Done(NbtValue::Int((be32_at(data, pos) as u32) as i32), pos + 4) }
    } else if ty == 4 {
        if pos + 8 > len { Parsed::Eof } else { Parsed::Done(NbtValue::Long((be64_at(data, pos) as u64) as i64), pos + 8) }
    } else if ty == 5 {
        if pos + 4 > len { Parsed::Eof } else { Parsed::Done(NbtValue::Float(be32_at(data, pos) as u32), pos + 4) }
    } else if ty == 6 {
        if pos + 8 > len { Parsed::Eof } else { Parsed::Done(NbtValue::Double(be64_at(data, pos) as u64), pos + 8) }
    } else if ty == 7 {
        if pos + 4 > len {
            Parsed::Eof
        } else {
            let n = len_at(data, pos);
            if n < 0 {
                Parsed::Bad
            } else if pos + 4 + n > len {
                Parsed::Eof
            } else {
                Parsed::Done(NbtValue::ByteArray(data.subrange(pos + 4, pos + 4 + n)), pos + 4 + n)
            }
        }
    } else if ty == 8 {
        match p_str(data, pos) {
            Parsed::Done(s, p) => Parsed::Done(NbtValue::String(s), p),
            Parsed::Eof => Parsed::Eof,
            Parsed::Bad => Parsed::Bad,
        }
    } else if ty == 9 {
        if pos + 5 > len {
            Parsed::Eof
        } else {
            let et = data[pos];
            let n = len_at(data, pos + 1);
            if n < 0 {
                Parsed::Bad
            } else {
                match p_list(data, pos + 5, et, n) {
                    Parsed::Done(vs, p) => Parsed::Done(NbtValue::List(vs, et), p),
                    Parsed::Eof => Parsed::Eof,
                    Parsed::Bad => Parsed::Bad,
                }
            }
        }
    } else if ty == 10 {
        match p_items(data, pos) {
            Parsed::Done(raw, p) => Parsed::Done(NbtValue::Compound(assoc_from(raw)), p),
            Parsed::Eof => Parsed::Eof,
            Parsed::Bad => Parsed::Bad,
        }
    } else if ty == 11 {
        if pos + 4 > len {
            Parsed::Eof
        } else {
            let n = len_at(data, pos);
            if n < 0 {
                Parsed::Bad
            } else if pos + 4 + 4 * n > len {
                Parsed::Eof
            } else {
                Parsed::Done(NbtValue::IntArray(Seq::new(n as nat, |i: int| (be32_at(data, pos + 4 + 4 * i) as u32) as i32)),
                    pos + 4 + 4 * n)
            }
        }
    } else if ty == 12 {
        if pos + 4 > len {
            Parsed::Eof
        } else {
            let n = len_at(data, pos);
            if n < 0 {
                Parsed::Bad
            } else if pos + 4 + 8 * n > len {
                Parsed::Eof
            } else {
                Parsed::Done(NbtValue::LongArray(Seq::new(n as nat, |i: int| (be64_at(data, pos + 4 + 8 * i) as u64) as i64)),
                    pos + 4 + 8 * n)
            }
        }
    } else {
        Parsed::Bad
    }
}

/// `n` payloads of type `ty` one after another from `pos`.
pub open spec fn p_list(data: Seq<u8>, pos: int, ty: u8, n: int) -> Parsed<Seq<NbtValue>>
    decreases data.len() - pos, n + 2,
{
    if pos < 0 || pos > data.len() {
        Parsed::Eof
    } else if n <= 0 {
        Parsed::Done(Seq::empty(), pos)
    } else {
        match p_payload(data, pos, ty) {
            Parsed::Done(v, p1) => {
                if p1 < pos || p1 > data.len() {
                    Parsed::Bad
                } else {
                    match p_list(data, p1, ty, n - 1) {
                        Parsed::Done(vs, p2) => Parsed::Done(seq![v] + vs, p2),
                        Parsed::Eof => Parsed::Eof,
                        Parsed::Bad => Parsed::Bad,
                    }
                }
            },
            Parsed::Eof => Parsed::Eof,
            Parsed::Bad => Parsed::Bad,
        }
    }
}

/// The entries of a compound from `pos` up to and including its end byte: each a type
/// id, a name and a payload, in the order read.
pub open spec fn p_items(data: Seq<u8>, pos: int) -> Parsed<Seq<(Seq<char>, NbtValue)>>
    decreases data.len() - pos, 0int,
{
    if pos < 0 || pos >= data.len() {
        Parsed::Eof
    } else if data[pos] == 0 {
        Parsed::Done(Seq::empty(), pos + 1)
    } else {
        let t = data[pos];
        match p_str(data, pos + 1) {
            Parsed::Done(name, p1) => {
                if p1 <= pos || p1 > data.len() {
                    Parsed::Bad
                } else {
                    match p_payload(data, p1, t) {
                        Parsed::Done(v, p2) => {
                            if p2 < p1 || p2 > data.len() {
                                Parsed::Bad
                            } else {
                                match p_items(data, p2) {
                                    Parsed::Done(rest, p3) => Parsed::Done(seq![(name, v)] + rest, p3),
                                    Parsed::Eof => Parsed::Eof,
                                    Parsed::Bad => Parsed::Bad,
                                }
                            }
                        },
                        Parsed::Eof => Parsed::Eof,
                        Parsed::Bad => Parsed::Bad,
                    }
                }
            },
            Parsed::Eof => Parsed::Eof,
            Parsed::Bad => Parsed::Bad,
        }
    }
}

/// The compound formed by binding the entries read in order, a later entry replacing
/// an earlier one of the same name.
pub open spec fn assoc_from(raw: Seq<(Seq<char>, NbtValue)>) -> Seq<(Seq<char>, NbtValue)>
    decreases raw.len(),
{
    if raw.len() == 0 {
        Seq::empty()
    } else {
        assoc_put(assoc_from(raw.drop_last()), raw.last().0, raw.last().1)
    }
}

/// The big-endian root tag at the start of `data`: a type id, then (unless it is 0) a
/// name and a payload.
pub open spec fn spec_read_nbt(data: Seq<u8>) -> Parsed<(Seq<char>, NbtValue)> {
    if data.len() == 0 {
        Parsed::Eof
    } else if data[0] == 0 {
        Parsed::Done((Seq::empty(), NbtValue::End), 1)
    } else {
        match p_str(data, 1) {
            Parsed::Done(name, p) => match p_payload(data, p, data[0]) {
                Parsed::Done(v, p2) => Parsed::Done((name, v), p2),
                Parsed::Eof => Parsed::Eof,
                Parsed::Bad => Parsed::Bad,
            },
            Parsed::Eof => Parsed::Eof,
            Parsed::Bad => Parsed::Bad,
        }
    }
}

/// `std::io::Error::from(ErrorKind::UnexpectedEof)`: the error of a read that reached
/// the end of its input too soon. Nothing is stated of the value.
#[verifier::external_body]
fn unexpected_eof() -> std::io::Error {
    std::io::Error::from(std::io::ErrorKind::UnexpectedEof)
}

/// Reads a big-endian format string at `pos`.
fn read_string(data: &[u8], pos: usize) -> (r: Result<(String, usize), ConversionError>)
    ensures
        match p_str(data@, pos as int) {
            Parsed::Done(s, p) => r matches Ok((st, q)) && st@ == s && q == p,
            Parsed::Eof => r matches Err(ConversionError::Io(_)),
            Parsed::Bad => r matches Err(ConversionError::NbtError(_)),
        },
{
    let len = data.len();
    if pos > len || len - pos < 2 {
        return Err(ConversionError::Io(unexpected_eof()));
    }
    let n = be_u16_at(data, pos) as usize;
    if len - pos - 2 < n {
        return Err(ConversionError::Io(unexpected_eof()));
    }
    let bytes = vstd::slice::slice_to_vec(crate::archive::slice_from(data, pos + 2, pos + 2 + n));
    match crate::text::string_from_utf8(bytes) {
        Some(s) => Ok((s, pos + 2 + n)),
        None => Err(ConversionError::NbtError(to_owned_string("Invalid UTF-8"))),
    }
}

/// Whether a parse outcome of a tag agrees with the result of reading it.
pub open spec fn tag_read_matches(p: Parsed<NbtValue>, r: Result<(NbtTag, usize), ConversionError>) -> bool {
    match p {
        Parsed::Done(v, q) => r matches Ok((t, k)) && t@ == v && k == q,
        Parsed::Eof => r matches Err(ConversionError::Io(_)),
        Parsed::Bad => r matches Err(ConversionError::NbtError(_)),
    }
}

/// The outcome of a list parse with `acc` read before it.
pub open spec fn prepend_list(acc: Seq<NbtValue>, p: Parsed<Seq<NbtValue>>) -> Parsed<Seq<NbtValue>> {
    match p {
        Parsed::Done(vs, q) => Parsed::Done(acc + vs, q),
        Parsed::Eof => Parsed::Eof,
        Parsed::Bad => Parsed::Bad,
    }
}

/// The outcome of a compound-entries parse with `acc` read before it.
pub open spec fn prepend_items(acc: Seq<(Seq<char>, NbtValue)>, p: Parsed<Seq<(Seq<char>, NbtValue)>>) -> Parsed<Seq<(Seq<char>, NbtValue)>> {
    match p {
        Parsed::Done(vs, q) => Parsed::Done(acc + vs, q),
        Parsed::Eof => Parsed::Eof,
        Parsed::Bad => Parsed::Bad,
    }
}

/// Binds `k` to `v` in a compound, replacing the entry of an equal name in place.
fn put_tag(m: &mut Vec<(String, NbtTag)>, k: String, v: NbtTag)
    ensures
        items_view(final(m)@) == assoc_put(items_view(old(m)@), k@, v@),
{
    let r = crate::assoc::find_key(m, k.as_str());
    proof {
        lemma_items_view(m@);
        crate::assoc::lemma_find_key_view(m@, items_view(m@), k@, r);
    }
    let ghost kv = k@;
    let ghost vv = v@;
    let ghost before = m@;
    match r {
        Some(i) => {
            m.set(i, (k, v));
            proof {
                lemma_items_view(m@);
                assert(items_view(m@) =~= items_view(before).update(i as int, (kv, vv)));
            }
        },
        None => {
            m.push((k, v));
            proof {
                assert(m@.drop_last() =~= before);
            }
        },
    }
}

fn read_ints(data: &[u8], pos: usize, n: usize) -> (r: Vec<i32>)
    requires
        pos + 4 * n <= data@.len(),
    ensures
        r@ == Seq::new(n as nat, |i: int| (be32_at(data@, pos + 4 * i) as u32) as i32),
{
    let _ = data.len();
    let mut v: Vec<i32> = Vec::new();
    let mut i: usize = 0;
    while i < n
        invariant
            i <= n,
            pos + 4 * n <= data@.len(),
            data@.len() <= usize::MAX,
            v@ == Seq::new(i as nat, |j: int| (be32_at(data@, pos + 4 * j) as u32) as i32),
        decreases n - i,
    {
        v.push(be_u32_at(data, pos + 4 * i) as i32);
        assert(v@ =~= Seq::new((i + 1) as nat, |j: int| (be32_at(data@, pos + 4 * j) as u32) as i32));
        i += 1;
    }
    v
}

fn read_longs(data: &[u8], pos: usize, n: usize) -> (r: Vec<i64>)
    requires
        pos + 8 * n <= data@.len(),
    ensures
        r@ == Seq::new(n as nat, |i: int| (be64_at(data@, pos + 8 * i) as u64) as i64),
{
    let _ = data.len();
    let mut v: Vec<i64> = Vec::new();
    let mut i: usize = 0;
    while i < n
        invariant
            i <= n,
            pos + 8 * n <= data@.len(),
            data@.len() <= usize::MAX,
            v@ == Seq::new(i as nat, |j: int| (be64_at(data@, pos + 8 * j) as u64) as i64),
        decreases n - i,
    {
        v.push(be_u64_at(data, pos + 8 * i) as i64);
        assert(v@ =~= Seq::new((i + 1) as nat, |j: int| (be64_at(data@, pos + 8 * j) as u64) as i64));
        i += 1;
    }
    v
}

/// Reads the payload of a tag of type `ty` at `pos`.
fn read_tag(data: &[u8], pos: usize, ty: u8) -> (r: Result<(NbtTag, usize), ConversionError>)
    requires
        pos <= data@.len(),
    ensures
        tag_read_matches(p_payload(data@, pos as int, ty), r),
        r matches Ok((_, q)) ==> pos <= q <= data@.len(),
    decreases data@.len() - pos, 1int,
{
    let len = data.len();
    if ty == 0 {
        Ok((NbtTag::End, pos))
    } else if ty == 1 {
        if len - pos < 1 { return Err(ConversionError::Io(unexpected_eof())); }
        Ok((NbtTag::Byte(data[pos] as i8), pos + 1))
    } else if ty == 2 {
        if len - pos < 2 { return Err(ConversionError::Io(unexpected_eof())); }
        Ok((NbtTag::Short(be_u16_at(data, pos) as i16), pos + 2))
    } else if ty == 3 {
        if len - pos < 4 { return Err(ConversionError::Io(unexpected_eof())); }
        Ok((NbtTag::Int(be_u32_at(data, pos) as i32), pos + 4))
    } else if ty == 4 {
        if len - pos < 8 { return Err(ConversionError::Io(unexpected_eof())); }
        Ok((NbtTag::Long(be_u64_at(data, pos) as i64), pos + 8))
    } else if ty == 5 {
        if len - pos < 4 { return Err(ConversionError::Io(unexpected_eof())); }
        Ok((NbtTag::Float(be_u32_at(data, pos)), pos + 4))
    } else if ty == 6 {
        if len - pos < 8 { return Err(ConversionError::Io(unexpected_eof())); }
        Ok((NbtTag::Double(be_u64_at(data, pos)), pos + 8))
    } else if ty == 7 {
        if len - pos < 4 { return Err(ConversionError::Io(unexpected_eof())); }
        let n = be_u32_at(data, pos) as i32;
        if n < 0 {
            return Err(ConversionError::NbtError(to_owned_string("Negative byte array length")));
        }
        let n = n as usize;
        if len - pos - 4 < n { return Err(ConversionError::Io(unexpected_eof())); }
        let bytes = vstd::slice::slice_to_vec(crate::archive::slice_from(data, pos + 4, pos + 4 + n));
        Ok((NbtTag::ByteArray(bytes), pos + 4 + n))
    } else if ty == 8 {
        let (s, p) = read_string(data, pos)?;
        Ok((NbtTag::String(s), p))
    } else if ty == 9 {
        if len - pos < 5 { return Err(ConversionError::Io(unexpected_eof())); }
        let element_type = data[pos];
        let n = be_u32_at(data, pos + 1) as i32;
        if n < 0 {
            return Err(ConversionError::NbtError(to_owned_string("Negative list length")));
        }
        let (tags, p) = read_list(data, pos + 5, element_type, n as usize)?;
        Ok((NbtTag::List(tags, element_type), p))
    } else if ty == 10 {
        let (items, p) = read_items(data, pos)?;
        Ok((NbtTag::Compound(items), p))
    } else if ty == 11 {
        if len - pos < 4 { return Err(ConversionError::Io(unexpected_eof())); }
        let n = be_u32_at(data, pos) as i32;
        if n < 0 {
            return Err(ConversionError::NbtError(to_owned_string("Negative int array length")));
        }
        let n = n as usize;
        if ((len - pos - 4) as u64) < 4 * (n as u64) { return Err(ConversionError::Io(unexpected_eof())); }
        Ok((NbtTag::IntArray(read_ints(data, pos + 4, n)), pos + 4 + 4 * n))
    } else if ty == 12 {
        if len - pos < 4 { return Err(ConversionError::Io(unexpected_eof())); }
        let n = be_u32_at(data, pos) as i32;
        if n < 0 {
            return Err(ConversionError::NbtError(to_owned_string("Negative long array length")));
        }
        let n = n as usize;
        if ((len - pos - 4) as u64) < 8 * (n as u64) { return Err(ConversionError::Io(unexpected_eof())); }
        Ok((NbtTag::LongArray(read_longs(data, pos + 4, n)), pos + 4 + 8 * n))
    } else {
        Err(ConversionError::NbtError(to_owned_string("Unknown tag type")))
    }
}

/// Reads `n` payloads of type `ty` from `pos`.
fn read_list(data: &[u8], pos: usize, ty: u8, n: usize) -> (r: Result<(Vec<NbtTag>, usize), ConversionError>)
    requires
        pos <= data@.len(),
    ensures
        match p_list(data@, pos as int, ty, n as int) {
            Parsed::Done(vs, q) => r matches Ok((tags, k)) && tags_view(tags@) == vs && k == q,
            Parsed::Eof => r matches Err(ConversionError::Io(_)),
            Parsed::Bad => r matches Err(ConversionError::NbtError(_)),
        },
        r matches Ok((_, q)) ==> pos <= q <= data@.len(),
    decreases data@.len() - pos, n + 2,
{
    let mut tags: Vec<NbtTag> = Vec::new();
    let mut cur = pos;
    let mut k: usize = 0;
    assert(tags_view(tags@) + Seq::<NbtValue>::empty() =~= Seq::<NbtValue>::empty());
    while k < n
        invariant
            pos <= cur <= data@.len(),
            k <= n,
            p_list(data@, pos as int, ty, n as int) == prepend_list(tags_view(tags@), p_list(data@, cur as int, ty, (n - k) as int)),
        decreases n - k,
    {
        let (t, p1) = match read_tag(data, cur, ty) {
            Ok(x) => x,
            Err(e) => { return Err(e); },
        };
        let ghost acc = tags_view(tags@);
        let ghost v = t@;
        let ghost before = tags@;
        proof {
            assert(p_payload(data@, cur as int, ty) == Parsed::Done(v, p1 as int));
            assert(p_list(data@, cur as int, ty, (n - k) as int) == prepend_list(seq![v], p_list(data@, p1 as int, ty, (n - k - 1) as int)));
            match p_list(data@, p1 as int, ty, (n - k - 1) as int) {
                Parsed::Done(vs, q) => {
                    assert(acc + (seq![v] + vs) =~= acc.push(v) + vs);
                },
                _ => {},
            }
        }
        tags.push(t);
        assert(tags@.drop_last() =~= before);
        assert(tags_view(tags@) == acc.push(v));
        cur = p1;
        k += 1;
    }
    assert(tags_view(tags@) + Seq::<NbtValue>::empty() =~= tags_view(tags@));
    Ok((tags, cur))
}

/// Reads compound entries from `pos` up to and including the end byte.
fn read_items(data: &[u8], pos: usize) -> (r: Result<(Vec<(String, NbtTag)>, usize), ConversionError>)
    requires
        pos <= data@.len(),
    ensures
        match p_items(data@, pos as int) {
            Parsed::Done(raw, q) => r matches Ok((items, k)) && items_view(items@) == assoc_from(raw) && k == q,
            Parsed::Eof => r matches Err(ConversionError::Io(_)),
            Parsed::Bad => r matches Err(ConversionError::NbtError(_)),
        },
        r matches Ok((_, q)) ==> pos <= q <= data@.len(),
    decreases data@.len() - pos, 0int,
{
    let mut items: Vec<(String, NbtTag)> = Vec::new();
    let mut cur = pos;
    let ghost mut raw: Seq<(Seq<char>, NbtValue)> = Seq::empty();
    assert(raw + Seq::<(Seq<char>, NbtValue)>::empty() =~= raw);
    loop
        invariant
            pos <= cur <= data@.len(),
            items_view(items@) == assoc_from(raw),
            p_items(data@, pos as int) == prepend_items(raw, p_items(data@, cur as int)),
        decreases data@.len() - cur,
    {
        if cur >= data.len() {
            return Err(ConversionError::Io(unexpected_eof()));
        }
        let item_type = data[cur];
        if item_type == 0 {
            assert(raw + Seq::<(Seq<char>, NbtValue)>::empty() =~= raw);
            return Ok((items, cur + 1));
        }
        let (name, p1) = read_string(data, cur + 1)?;
        let (tag, p2) = read_tag(data, p1, item_type)?;
        let ghost nv = (name@, tag@);
        proof {
            match p_items(data@, p2 as int) {
                Parsed::Done(rest, q) => {
                    assert(raw + (seq![nv] + rest) =~= raw.push(nv) + rest);
                },
                _ => {},
            }
            assert(raw.push(nv).drop_last() =~= raw);
        }
        put_tag(&mut items, name, tag);
        proof {
            raw = raw.push(nv);
        }
        cur = p2;
    }
}

/// Reads the root tag at the start of big-endian NBT data: its name and its value. A
/// root type of 0 gives an empty name and the end tag; bytes after the root tag are
/// ignored. Running out of data is an I/O error; malformed data is an NBT error.
pub fn read_nbt(data: &[u8]) -> (r: Result<(String, NbtTag), ConversionError>)
    ensures
        match spec_read_nbt(data@) {
            Parsed::Done((name, v), _) => r matches Ok((n, t)) && n@ == name && t@ == v,
            Parsed::Eof => r matches Err(ConversionError::Io(_)),
            Parsed::Bad => r matches Err(ConversionError::NbtError(_)),
        },
{
    if data.len() == 0 {
        return Err(ConversionError::Io(unexpected_eof()));
    }
    let root_type = data[0];
    if root_type == 0 {
        return Ok((String::new(), NbtTag::End));
    }
    let (name, p) = read_string(data, 1)?;
    let (tag, _) = read_tag(data, p, root_type)?;
    Ok((name, tag))
}

/// A deep copy of a tag.
pub fn copy_tag(t: &NbtTag) -> (r: NbtTag)
    ensures
        r@ == t@,
    decreases t,
{
    match t {
        NbtTag::End => NbtTag::End,
        NbtTag::Byte(v) => NbtTag::Byte(*v),
        NbtTag::Short(v) => NbtTag::Short(*v),
        NbtTag::Int(v) => NbtTag::Int(*v),
        NbtTag::Long(v) => NbtTag::Long(*v),
        NbtTag::Float(v) => NbtTag::Float(*v),
        NbtTag::Double(v) => NbtTag::Double(*v),
        NbtTag::String(s) => NbtTag::String(crate::error::copy_string(s)),
        NbtTag::ByteArray(v) => NbtTag::ByteArray(vstd::slice::slice_to_vec(v.as_slice())),
        NbtTag::IntArray(v) => NbtTag::IntArray(vstd::slice::slice_to_vec(v.as_slice())),
        NbtTag::LongArray(v) => NbtTag::LongArray(vstd::slice::slice_to_vec(v.as_slice())),
        NbtTag::List(tags, ty) => {
            let mut out: Vec<NbtTag> = Vec::new();
            let mut i: usize = 0;
            assert(tags@.subrange(0, 0) =~= Seq::<NbtTag>::empty());
            while i < tags.len()
                invariant
                    i <= tags@.len(),
                    *t == NbtTag::List(*tags, *ty),
                    tags_view(out@) == tags_view(tags@.subrange(0, i as int)),
                decreases tags@.len() - i,
            {
                proof {
                    assert(decreases_to!(*t => t->List_0));
                    assert(decreases_to!(*tags => tags@));
                    assert(decreases_to!(tags@ => tags@[i as int]));
                }
                let c = copy_tag(&tags[i]);
                let ghost before = out@;
                out.push(c);
                proof {
                    assert(out@.drop_last() =~= before);
                    lemma_tags_view_step(tags@, i as int);
                }
                i += 1;
            }
            assert(tags@.subrange(0, tags@.len() as int) =~= tags@);
            NbtTag::List(out, *ty)
        },
        NbtTag::Compound(items) => NbtTag::Compound(copy_items(items)),
    }
}

/// A deep copy of compound entries.
pub fn copy_items(items: &Vec<(String, NbtTag)>) -> (r: Vec<(String, NbtTag)>)
    ensures
        items_view(r@) == items_view(items@),
    decreases items,
{
    let mut out: Vec<(String, NbtTag)> = Vec::new();
    let mut i: usize = 0;
    assert(items@.subrange(0, 0) =~= Seq::<(String, NbtTag)>::empty());
    while i < items.len()
        invariant
            i <= items@.len(),
            items_view(out@) == items_view(items@.subrange(0, i as int)),
        decreases items@.len() - i,
    {
        proof {
            assert(decreases_to!(*items => items@));
            assert(decreases_to!(items@ => items@[i as int]));
            assert(decreases_to!(items@[i as int] => items@[i as int].1));
        }
        let c = copy_tag(&items[i].1);
        let k = crate::error::copy_string(&items[i].0);
        let ghost before = out@;
        out.push((k, c));
        proof {
            assert(out@.drop_last() =~= before);
            lemma_items_view_step(items@, i as int);
        }
        i += 1;
    }
    assert(items@.subrange(0, items@.len() as int) =~= items@);
    out
}

/// The value reached from `v` by following the names of `path` through nested
/// compounds.
pub open spec fn value_lookup(v: NbtValue, path: Seq<Seq<char>>) -> Option<NbtValue>
    decreases path.len(),
{
    if path.len() == 0 {
        Some(v)
    } else {
        match v {
            NbtValue::Compound(items) => match assoc_get(items, path[0]) {
                Some(c) => value_lookup(c, path.drop_first()),
                None => None,
            },
            _ => None,
        }
    }
}

/// The entry of a compound named `name`, by index.
fn find_item(items: &Vec<(String, NbtTag)>, name: &str) -> (r: Option<usize>)
    ensures
        r matches Some(i) ==> i < items@.len() && key_index(items_view(items@), name@) == i
            && items_view(items@)[i as int].1 == items@[i as int].1@,
        r is None ==> key_index(items_view(items@), name@) < 0,
{
    let r = crate::assoc::find_key(items, name);
    proof {
        lemma_items_view(items@);
        crate::assoc::lemma_find_key_view(items@, items_view(items@), name@, r);
    }
    r
}

impl NbtTag {
    pub fn get_byte(&self) -> (r: Option<i8>)
        ensures
            r == (match self@ { NbtValue::Byte(v) => Some(v), _ => None::<i8> }),
    {
        if let NbtTag::Byte(v) = self { Some(*v) } else { None }
    }

    pub fn get_short(&self) -> (r: Option<i16>)
        ensures
            r == (match self@ { NbtValue::Short(v) => Some(v), _ => None::<i16> }),
    {
        if let NbtTag::Short(v) = self { Some(*v) } else { None }
    }

    pub fn get_int(&self) -> (r: Option<i32>)
        ensures
            r == (match self@ { NbtValue::Int(v) => Some(v), _ => None::<i32> }),
    {
        if let NbtTag::Int(v) = self { Some(*v) } else { None }
    }

    pub fn get_long(&self) -> (r: Option<i64>)
        ensures
            r == (match self@ { NbtValue::Long(v) => Some(v), _ => None::<i64> }),
    {
        if let NbtTag::Long(v) = self { Some(*v) } else { None }
    }

    /// The IEEE-754 bit pattern of a float tag.
    pub fn get_float(&self) -> (r: Option<u32>)
        ensures
            r == (match self@ { NbtValue::Float(v) => Some(v), _ => None::<u32> }),
    {
        if let NbtTag::Float(v) = self { Some(*v) } else { None }
    }

    /// The IEEE-754 bit pattern of a double tag.
    pub fn get_double(&self) -> (r: Option<u64>)
        ensures
            r == (match self@ { NbtValue::Double(v) => Some(v), _ => None::<u64> }),
    {
        if let NbtTag::Double(v) = self { Some(*v) } else { None }
    }

    pub fn get_string(&self) -> (r: Option<&str>)
        ensures
            r is Some <==> self@ is String,
            r matches Some(s) ==> self@ == NbtValue::String(s@),
    {
        if let NbtTag::String(v) = self { Some(v.as_str()) } else { None }
    }

    pub fn get_byte_array(&self) -> (r: Option<&[u8]>)
        ensures
            r is Some <==> self@ is ByteArray,
            r matches Some(s) ==> self@ == NbtValue::ByteArray(s@),
    {
        if let NbtTag::ByteArray(v) = self { Some(v.as_slice()) } else { None }
    }

    pub fn get_int_array(&self) -> (r: Option<&[i32]>)
        ensures
            r is Some <==> self@ is IntArray,
            r matches Some(s) ==> self@ == NbtValue::IntArray(s@),
    {
        if let NbtTag::IntArray(v) = self { Some(v.as_slice()) } else { None }
    }

    pub fn get_long_array(&self) -> (r: Option<&[i64]>)
        ensures
            r is Some <==> self@ is LongArray,
            r matches Some(s) ==> self@ == NbtValue::LongArray(s@),
    {
        if let NbtTag::LongArray(v) = self { Some(v.as_slice()) } else { None }
    }

    pub fn get_list(&self) -> (r: Option<(&[NbtTag], u8)>)
        ensures
            r is Some <==> self@ is List,
            r matches Some((s, ty)) ==> self@ == NbtValue::List(tags_view(s@), ty),
    {
        if let NbtTag::List(tags, type_id) = self { Some((tags.as_slice(), *type_id)) } else { None }
    }

    pub fn get_compound(&self) -> (r: Option<&Vec<(String, NbtTag)>>)
        ensures
            r is Some <==> self@ is Compound,
            r matches Some(m) ==> self@ == NbtValue::Compound(items_view(m@)),
    {
        if let NbtTag::Compound(map) = self { Some(map) } else { None }
    }

    /// The entries of a compound tag, to change in place.
    pub fn get_compound_mut(&mut self) -> (r: Option<&mut Vec<(String, NbtTag)>>)
        ensures
            match r {
                Some(m) => old(self)@ == NbtValue::Compound(items_view(m@))
                    && final(self)@ == NbtValue::Compound(items_view(final(m)@)),
                None => !(old(self)@ is Compound) && final(self)@ == old(self)@,
            },
    {
        match self {
            NbtTag::Compound(map) => Some(map),
            _ => None,
        }
    }

    pub fn as_compound(&self) -> (r: Option<&Vec<(String, NbtTag)>>)
        ensures
            r is Some <==> self@ is Compound,
            r matches Some(m) ==> self@ == NbtValue::Compound(items_view(m@)),
    {
        self.get_compound()
    }

    /// Follows the names of `path` through nested compounds, giving the tag there to
    /// change in place; what it is changed to lands at that place in `self`.
    pub fn lookup_mut<'a>(&'a mut self, path: &[&str]) -> (r: Option<&'a mut NbtTag>)
        ensures
            match r {
                Some(x) => value_lookup(old(self)@, path@.map_values(|s: &str| s@)) == Some(x@)
                    && final(self)@ == value_replace(old(self)@, path@.map_values(|s: &str| s@), final(x)@),
                None => value_lookup(old(self)@, path@.map_values(|s: &str| s@)) is None && final(self)@ == old(self)@,
            },
    {
        let r = lookup_mut_from(self, path, 0);
        assert(path@.map_values(|s: &str| s@).subrange(0, path@.len() as int) =~= path@.map_values(|s: &str| s@));
        r
    }

    /// Follows the names of `path` through nested compounds.
    pub fn lookup<'a>(&'a self, path: &[&str]) -> (r: Option<&'a NbtTag>)
        ensures
            r is Some <==> value_lookup(self@, path@.map_values(|s: &str| s@)) is Some,
            r matches Some(t) ==> value_lookup(self@, path@.map_values(|s: &str| s@)) == Some(t@),
    {
        let ghost pv = path@.map_values(|s: &str| s@);
        let mut current: &NbtTag = self;
        let mut i: usize = 0;
        assert(pv.subrange(0, pv.len() as int) =~= pv);
        while i < path.len()
            invariant
                i <= path@.len(),
                pv == path@.map_values(|s: &str| s@),
                value_lookup(self@, pv) == value_lookup(current@, pv.subrange(i as int, pv.len() as int)),
            decreases path@.len() - i,
        {
            let ghost rest = pv.subrange(i as int, pv.len() as int);
            assert(rest.drop_first() =~= pv.subrange(i + 1, pv.len() as int));
            assert(rest[0] == path@[i as int]@);
            match current {
                NbtTag::Compound(map) => {
                    match find_item(map, path[i]) {
                        Some(j) => {
                            current = &map[j].1;
                        },
                        None => {
                            return None;
                        },
                    }
                },
                _ => {
                    return None;
                },
            }
            i += 1;
        }
        assert(pv.subrange(pv.len() as int, pv.len() as int) =~= Seq::<Seq<char>>::empty());
        Some(current)
    }
}

/// `v` with the value at `path` replaced by `new`, where `path` leads through nested
/// compounds; `v` unchanged where it does not.
pub open spec fn value_replace(v: NbtValue, path: Seq<Seq<char>>, new: NbtValue) -> NbtValue
    decreases path.len(),
{
    if path.len() == 0 {
        new
    } else {
        match v {
            NbtValue::Compound(items) => {
                let i = key_index(items, path[0]);
                if 0 <= i < items.len() {
                    NbtValue::Compound(items.update(i, (items[i].0, value_replace(items[i].1, path.drop_first(), new))))
                } else {
                    v
                }
            },
            _ => v,
        }
    }
}

proof fn lemma_items_view_update_all()
    ensures
        forall|s: Seq<(String, NbtTag)>, j: int, e: (String, NbtTag)| 0 <= j < s.len() ==>
            #[trigger] items_view(s.update(j, e)) == items_view(s).update(j, (e.0@, tag_view(e.1))),
{
    assert forall|s: Seq<(String, NbtTag)>, j: int, e: (String, NbtTag)| 0 <= j < s.len() implies
        #[trigger] items_view(s.update(j, e)) == items_view(s).update(j, (e.0@, tag_view(e.1))) by {
        lemma_items_view(s);
        lemma_items_view(s.update(j, e));
        assert(items_view(s.update(j, e)) =~= items_view(s).update(j, (e.0@, tag_view(e.1))));
    }
}

/// A value written through `lookup_mut` is what `lookup` then finds there: replacing
/// the value at a path that exists and looking the path up again gives the new value.
pub proof fn lemma_lookup_after_replace(v: NbtValue, path: Seq<Seq<char>>, new: NbtValue)
    requires
        value_lookup(v, path) is Some,
    ensures
        value_lookup(value_replace(v, path, new), path) == Some(new),
    decreases path.len(),
{
    if path.len() > 0 {
        let items = v->Compound_0;
        let i = key_index(items, path[0]);
        lemma_key_index(items, path[0]);
        let c = value_replace(items[i].1, path.drop_first(), new);
        let items2 = items.update(i, (items[i].0, c));
        lemma_key_index(items2, path[0]);
        let i2 = key_index(items2, path[0]);
        assert(0 <= i < items.len());
        assert(items2[i].0 == path[0]);
        if 0 <= i2 && i2 < i {
            assert(items2[i2].0 == items[i2].0);
        }
        assert(i2 == i);
        lemma_lookup_after_replace(items[i].1, path.drop_first(), new);
    }
}

/// The tag of entry `j` of compound entries, to change in place.
fn entry_tag_mut(map: &mut Vec<(String, NbtTag)>, j: usize) -> (r: &mut NbtTag)
    requires
        j < old(map)@.len(),
    ensures
        *r == old(map)@[j as int].1,
        items_view(final(map)@) == items_view(old(map)@).update(j as int, (old(map)@[j as int].0@, final(r)@)),
{
    proof {
        lemma_items_view_update_all();
    }
    let entry = &mut map[j];
    &mut entry.1
}

/// Follows the names of `path` from index `k` on through nested compounds, giving the
/// tag there to change in place.
fn lookup_mut_from<'a>(t: &'a mut NbtTag, path: &[&str], k: usize) -> (r: Option<&'a mut NbtTag>)
    requires
        k <= path@.len(),
    ensures
        ({
            let rest = path@.map_values(|s: &str| s@).subrange(k as int, path@.len() as int);
            match r {
                Some(x) => value_lookup(old(t)@, rest) == Some(x@) && final(t)@ == value_replace(old(t)@, rest, final(x)@),
                None => value_lookup(old(t)@, rest) is None && final(t)@ == old(t)@,
            }
        }),
    decreases path@.len() - k,
{
    let ghost pv = path@.map_values(|s: &str| s@);
    let ghost rest = pv.subrange(k as int, path@.len() as int);
    let ghost ot = t@;
    if k == path.len() {
        assert(rest =~= Seq::<Seq<char>>::empty());
        return Some(t);
    }
    assert(rest[0] == path@[k as int]@);
    assert(rest.drop_first() =~= pv.subrange(k + 1, path@.len() as int));
    let map = match t.get_compound_mut() {
        Some(m) => m,
        None => return None,
    };
    match find_item(map, path[k]) {
        Some(j) => {
            proof {
                lemma_items_view(map@);
                let items = items_view(map@);
                assert(key_index(items, rest[0]) == j);
                assert(items[j as int].1 == map@[j as int].1@);
                assert(ot == NbtValue::Compound(items));
                assert forall|v: NbtValue| #[trigger] value_replace(ot, rest, v) == NbtValue::Compound(items.update(j as int,
                    (items[j as int].0, value_replace(items[j as int].1, rest.drop_first(), v)))) by {
                }
                assert(value_lookup(ot, rest) == value_lookup(items[j as int].1, rest.drop_first()));
                assert(items.update(j as int, (items[j as int].0, items[j as int].1)) =~= items);
                assert(items[j as int].0 == map@[j as int].0@);
            }
            let inner = entry_tag_mut(map, j);
            lookup_mut_from(inner, path, k + 1)
        },
        None => None,
    }
}

/// The value bound to `name` in a compound.
pub open spec fn entry(tag: Seq<(String, NbtTag)>, name: Seq<char>) -> Option<NbtValue> {
    assoc_get(items_view(tag), name)
}

/// Appends a named entry to compound entries.
pub(crate) fn push_entry(items: &mut Vec<(String, NbtTag)>, name: &str, tag: NbtTag)
    ensures
        items_view(final(items)@) == items_view(old(items)@).push((name@, tag@)),
{
    let ghost before = items@;
    items.push((to_owned_string(name), tag));
    assert(items@.drop_last() =~= before);
}


/// Binds `name` to `tag` in compound entries, replacing the entry of an equal name in
/// place or adding one at the end.
pub(crate) fn put_entry(items: &mut Vec<(String, NbtTag)>, name: String, tag: NbtTag)
    ensures
        items_view(final(items)@) == assoc_put(items_view(old(items)@), name@, tag@),
{
    let r = find_item(items, name.as_str());
    proof {
        lemma_items_view(items@);
    }
    let ghost nv = name@;
    let ghost tv = tag@;
    let ghost before = items@;
    match r {
        Some(i) => {
            items.set(i, (name, tag));
            proof {
                lemma_items_view(items@);
                lemma_key_index(items_view(before), nv);
                assert(items_view(items@) =~= items_view(before).update(i as int, (nv, tv)));
            }
        },
        None => {
            items.push((name, tag));
            assert(items@.drop_last() =~= before);
        },
    }
}

/// Typed lookups in compound entries.
#[derive(Debug, Clone)]
pub struct NbtHelper;

impl NbtHelper {
    /// The tag bound to `name`.
    pub(crate) fn get_entry<'a>(tag: &'a Vec<(String, NbtTag)>, name: &str) -> (r: Option<&'a NbtTag>)
        ensures
            r is Some <==> entry(tag@, name@) is Some,
            r matches Some(t) ==> entry(tag@, name@) == Some(t@),
    {
        match find_item(tag, name) {
            Some(i) => Some(&tag[i].1),
            None => None,
        }
    }

    pub fn get_byte_array(tag: &Vec<(String, NbtTag)>, name: &str) -> (r: Option<Vec<u8>>)
        ensures
            r is Some <==> entry(tag@, name@) matches Some(NbtValue::ByteArray(_)),
            r matches Some(v) ==> entry(tag@, name@) == Some(NbtValue::ByteArray(v@)),
    {
        match Self::get_entry(tag, name) {
            Some(t) => match t.get_byte_array() {
                Some(b) => Some(vstd::slice::slice_to_vec(b)),
                None => None,
            },
            None => None,
        }
    }

    /// The byte array bound to `name` cut or zero-padded to `default_size` bytes, or
    /// `default_size` zeros when there is none.
    pub fn get_byte_array_or_default(tag: &Vec<(String, NbtTag)>, name: &str, default_size: usize) -> (r: Vec<u8>)
        ensures
            r@ == match entry(tag@, name@) {
                Some(NbtValue::ByteArray(b)) => if b.len() >= default_size {
                    b.subrange(0, default_size as int)
                } else {
                    b + Seq::new((default_size - b.len()) as nat, |i: int| 0u8)
                },
                _ => Seq::new(default_size as nat, |i: int| 0u8),
            },
    {
        match Self::get_byte_array(tag, name) {
            Some(v) => {
                if v.len() >= default_size {
                    vstd::slice::slice_to_vec(crate::archive::slice_from(v.as_slice(), 0, default_size))
                } else {
                    let mut padded = v;
                    let ghost b = padded@;
                    while padded.len() < default_size
                        invariant
                            b.len() <= padded@.len() <= default_size,
                            padded@ == b + Seq::new((padded@.len() - b.len()) as nat, |i: int| 0u8),
                        decreases default_size - padded@.len(),
                    {
                        padded.push(0);
                        assert(padded@ =~= b + Seq::new((padded@.len() - b.len()) as nat, |i: int| 0u8));
                    }
                    padded
                }
            },
            None => {
                let z: Vec<u8> = vec![0u8; default_size];
                assert(z@ =~= Seq::new(default_size as nat, |i: int| 0u8));
                z
            },
        }
    }

    pub fn get_int(tag: &Vec<(String, NbtTag)>, name: &str) -> (r: Option<i32>)
        ensures
            r == (match entry(tag@, name@) { Some(NbtValue::Int(v)) => Some(v), _ => None::<i32> }),
    {
        match Self::get_entry(tag, name) {
            Some(t) => t.get_int(),
            None => None,
        }
    }

    pub fn get_long(tag: &Vec<(String, NbtTag)>, name: &str) -> (r: Option<i64>)
        ensures
            r == (match entry(tag@, name@) { Some(NbtValue::Long(v)) => Some(v), _ => None::<i64> }),
    {
        match Self::get_entry(tag, name) {
            Some(t) => t.get_long(),
            None => None,
        }
    }

    pub fn get_short(tag: &Vec<(String, NbtTag)>, name: &str) -> (r: Option<i16>)
        ensures
            r == (match entry(tag@, name@) { Some(NbtValue::Short(v)) => Some(v), _ => None::<i16> }),
    {
        match Self::get_entry(tag, name) {
            Some(t) => t.get_short(),
            None => None,
        }
    }

    pub fn get_byte(tag: &Vec<(String, NbtTag)>, name: &str) -> (r: Option<i8>)
        ensures
            r == (match entry(tag@, name@) { Some(NbtValue::Byte(v)) => Some(v), _ => None::<i8> }),
    {
        match Self::get_entry(tag, name) {
            Some(t) => t.get_byte(),
            None => None,
        }
    }

    pub fn get_string(tag: &Vec<(String, NbtTag)>, name: &str) -> (r: Option<String>)
        ensures
            r is Some <==> entry(tag@, name@) matches Some(NbtValue::String(_)),
            r matches Some(s) ==> entry(tag@, name@) == Some(NbtValue::String(s@)),
    {
        match Self::get_entry(tag, name) {
            Some(t) => match t.get_string() {
                Some(s) => Some(to_owned_string(s)),
                None => None,
            },
            None => None,
        }
    }

    /// A copy of the elements of the list bound to `name`.
    pub fn get_list(tag: &Vec<(String, NbtTag)>, name: &str) -> (r: Option<Vec<NbtTag>>)
        ensures
            r is Some <==> entry(tag@, name@) matches Some(NbtValue::List(_, _)),
            r matches Some(v) ==> entry(tag@, name@) matches Some(NbtValue::List(items, _)) && items == tags_view(v@),
    {
        match Self::get_entry(tag, name) {
            Some(t) => match t {
                NbtTag::List(tags, _) => {
                    let mut out: Vec<NbtTag> = Vec::new();
                    let mut i: usize = 0;
                    assert(tags@.subrange(0, 0) =~= Seq::<NbtTag>::empty());
                    while i < tags.len()
                        invariant
                            i <= tags@.len(),
                            tags_view(out@) == tags_view(tags@.subrange(0, i as int)),
                        decreases tags@.len() - i,
                    {
                        let c = copy_tag(&tags[i]);
                        let ghost before = out@;
                        out.push(c);
                        proof {
                            assert(out@.drop_last() =~= before);
                            lemma_tags_view_step(tags@, i as int);
                        }
                        i += 1;
                    }
                    assert(tags@.subrange(0, tags@.len() as int) =~= tags@);
                    Some(out)
                },
                _ => None,
            },
            None => None,
        }
    }

    /// A copy of the entries of the compound bound to `name`.
    pub fn get_compound(tag: &Vec<(String, NbtTag)>, name: &str) -> (r: Option<Vec<(String, NbtTag)>>)
        ensures
            r is Some <==> entry(tag@, name@) matches Some(NbtValue::Compound(_)),
            r matches Some(m) ==> entry(tag@, name@) == Some(NbtValue::Compound(items_view(m@))),
    {
        match Self::get_entry(tag, name) {
            Some(t) => match t {
                NbtTag::Compound(map) => Some(copy_items(map)),
                _ => None,
            },
            None => None,
        }
    }
}

/// Whether the result of reading NBT agrees with the parse of `data`.
pub open spec fn nbt_read_matches(data: Seq<u8>, r: Result<(String, NbtTag), ConversionError>) -> bool {
    match spec_read_nbt(data) {
        Parsed::Done((name, v), _) => r matches Ok((n, t)) && n@ == name && t@ == v,
        Parsed::Eof => r matches Err(ConversionError::Io(_)),
        Parsed::Bad => r matches Err(ConversionError::NbtError(_)),
    }
}

/// Reads gzip-compressed big-endian NBT.
pub fn read_gzipped_nbt(data: &[u8]) -> (r: Result<(String, NbtTag), ConversionError>)
    ensures
        gzip_decoded(data@) is None ==> r matches Err(ConversionError::Io(_)),
        gzip_decoded(data@) matches Some(d) ==> nbt_read_matches(d, r),
{
    let decompressed = match gzip_decode(data) {
        Ok(d) => d,
        Err(e) => { return Err(ConversionError::Io(e)); },
    };
    read_nbt(decompressed.as_slice())
}

/// Reads zlib-compressed big-endian NBT.
pub fn read_zlibbed_nbt(data: &[u8]) -> (r: Result<(String, NbtTag), ConversionError>)
    ensures
        zlib_decoded(data@) is None ==> r matches Err(ConversionError::Io(_)),
        zlib_decoded(data@) matches Some(d) ==> nbt_read_matches(d, r),
{
    let decompressed = match zlib_decode(data) {
        Ok(d) => d,
        Err(e) => { return Err(ConversionError::Io(e)); },
    };
    read_nbt(decompressed.as_slice())
}

/// Encodes a named root tag as big-endian NBT and zlib-compresses it.
pub fn write_zlibbed_nbt(name: &str, tag: &NbtTag) -> (r: Result<Vec<u8>, ConversionError>)
    ensures
        !(str_fits(name@) && writable(tag@)) ==> r matches Err(ConversionError::NbtError(_)),
        str_fits(name@) && writable(tag@) ==> match zlib_encoded(spec_write_nbt(name@, tag@)) {
            Some(b) => r matches Ok(v) && v@ == b,
            None => r matches Err(ConversionError::Io(_)),
        },
{
    let nbt_data = write_nbt(name, tag)?;
    match zlib_encode(nbt_data.as_slice()) {
        Ok(c) => Ok(c),
        Err(e) => Err(ConversionError::Io(e)),
    }
}

/// The decompressed payload of a Java region chunk record: by its compression byte
/// (1: gzip, 2: zlib, 3: stored) after the 4-byte length; nothing for a short record, an
/// unknown scheme or a payload that does not decode.
pub open spec fn mcr_chunk_decoded(data: Seq<u8>) -> Option<Seq<u8>> {
    if data.len() < 5 {
        None
    } else {
        let payload = data.subrange(5, data.len() as int);
        if data[4] == 1 {
            gzip_decoded(payload)
        } else if data[4] == 2 {
            zlib_decoded(payload)
        } else if data[4] == 3 {
            Some(payload)
        } else {
            None
        }
    }
}

/// Decompresses a chunk record of a Java region file: a 4-byte length, a compression
/// byte (1: gzip, 2: zlib, 3: stored), then the payload.
pub fn read_mcr_chunk(data: &[u8], _compressed_size: u32) -> (r: Result<Vec<u8>, ConversionError>)
    ensures
        match mcr_chunk_decoded(data@) {
            Some(v) => r matches Ok(x) && x@ == v,
            None => r is Err,
        },
        data@.len() < 5 <==> r matches Err(ConversionError::InvalidFormat(_)),
        data@.len() >= 5 ==> ({
            let scheme = data@[4];
            let payload = data@.subrange(5, data@.len() as int);
            &&& ((scheme == 0 || scheme > 3) <==> (r matches Err(ConversionError::DecompressionFailed(_))))
            &&& (scheme == 1 ==> ((r matches Err(ConversionError::Io(_))) <==> gzip_decoded(payload) is None))
            &&& (scheme == 2 ==> ((r matches Err(ConversionError::Io(_))) <==> zlib_decoded(payload) is None))
            &&& (r matches Ok(v) ==> {
                &&& scheme == 1 ==> gzip_decoded(payload) == Some(v@)
                &&& scheme == 2 ==> zlib_decoded(payload) == Some(v@)
                &&& scheme == 3 ==> v@ == payload
            })
        }),
{
    if data.len() < 5 {
        return Err(ConversionError::InvalidFormat(to_owned_string("Chunk data too short")));
    }
    let compression_scheme = data[4];
    let payload = crate::archive::slice_from(data, 5, data.len());
    if compression_scheme == 1 {
        match gzip_decode(payload) {
            Ok(v) => Ok(v),
            Err(e) => Err(ConversionError::Io(e)),
        }
    } else if compression_scheme == 2 {
        match zlib_decode(payload) {
            Ok(v) => Ok(v),
            Err(e) => Err(ConversionError::Io(e)),
        }
    } else if compression_scheme == 3 {
        Ok(vstd::slice::slice_to_vec(payload))
    } else {
        Err(ConversionError::DecompressionFailed(to_owned_string("Unknown compression scheme")))
    }
}

} // verus!
