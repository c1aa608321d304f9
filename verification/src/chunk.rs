//! Decoding Xbox 360 chunk payloads.
use vstd::prelude::*;
use crate::error::ConversionError;
use crate::rle::{repeat, rle_expand};
use crate::bytes::{be16_at, be_u16_at};
use crate::models::LegacyBlockState;
use crate::text::to_owned_string;
use crate::archive::slice_from;
use crate::compress::{zlib_decode, zlib_decoded};

verus! {

/// Decodes a run-length coded chunk payload in full.
fn decode_rle_chunk(data: &[u8]) -> (r: Result<Vec<u8>, ConversionError>)
    ensures
        r matches Ok(v) && v@ == rle_expand(data@),
{
    let mut output: Vec<u8> = Vec::new();
    let n = data.len();
    let mut pos: usize = 0;
    assert(data@.subrange(0, n as int) =~= data@);
    while pos < n
        invariant
            n == data@.len(),
            pos <= n,
            output@ + rle_expand(data@.subrange(pos as int, n as int)) == rle_expand(data@),
        decreases n - pos,
    {
        let ghost sub = data@.subrange(pos as int, n as int);
        let ghost before = output@;
        let b = data[pos];
        pos += 1;
        if b != 0xFF {
            output.push(b);
            assert(sub.drop_first() =~= data@.subrange(pos as int, n as int));
            assert(output@ + rle_expand(data@.subrange(pos as int, n as int)) =~= before + rle_expand(sub));
        } else {
            if n - pos < 2 {
                assert(output@ + Seq::<u8>::empty() =~= output@);
                return Ok(output);
            }
            let run_len = data[pos] as usize;
            let value = data[pos + 1];
            pos += 2;
            let mut k: usize = 0;
            while k < run_len
                invariant
                    k <= run_len,
                    output@ == before + repeat(value, k as int),
                decreases run_len - k,
            {
                output.push(value);
                assert(output@ =~= before + repeat(value, k + 1));
                k += 1;
            }
            assert(sub.subrange(3, sub.len() as int) =~= data@.subrange(pos as int, n as int));
            assert(output@ + rle_expand(data@.subrange(pos as int, n as int)) =~= before + rle_expand(sub));
        }
    }
    assert(rle_expand(data@.subrange(n as int, n as int)) =~= Seq::<u8>::empty());
    assert(output@ + Seq::<u8>::empty() =~= output@);
    Ok(output)
}

/// The `(id, data)` pairs of a list of legacy blocks.
pub open spec fn blocks_view(v: Seq<LegacyBlockState>) -> Seq<(u8, u8)> {
    v.map_values(|b: LegacyBlockState| (b.id, b.data))
}

/// `n` air blocks.
pub open spec fn air(n: int) -> Seq<(u8, u8)> {
    Seq::new(if n < 0 { 0 } else { n as nat }, |i: int| (0u8, 0u8))
}

/// The low nibble of `b` when `i` is even, else the high nibble.
pub open spec fn nibble_of(b: u8, i: int) -> u8 {
    if i % 2 == 0 { b % 16 } else { b / 16 }
}

/// The sparse block list read from `sp` on: each 3-byte record `(location, id, data)`
/// pads with air up to `location` and then appends the block, until the data ends or
/// 16384 blocks are reached.
pub open spec fn sparse_blocks(data: Seq<u8>, b: Seq<(u8, u8)>, sp: int) -> Seq<(u8, u8)>
    decreases data.len() - sp,
{
    if sp < 0 || sp >= data.len() || b.len() >= 16384 || sp + 3 > data.len() {
        b
    } else {
        let loc = data[sp] as int;
        let b1 = if loc > b.len() { b + air(loc - b.len()) } else { b };
        let b2 = if b1.len() < 16384 { b1.push((data[sp + 1], data[sp + 2])) } else { b1 };
        sparse_blocks(data, b2, sp + 3)
    }
}

/// `b` padded with air up to `n` blocks.
pub open spec fn fill_air(b: Seq<(u8, u8)>, n: int) -> Seq<(u8, u8)> {
    if b.len() < n { b + air(n - b.len()) } else { b }
}

/// One step of decoding compressed tile storage: index entry `k` (a big-endian word
/// whose top 3 bits give the encoding and low 13 bits an offset) applied to the blocks
/// so far and the current payload offset. `None` when the step would read past the
/// data.
pub open spec fn tile_step(data: Seq<u8>, b: Seq<(u8, u8)>, off: int, k: int) -> Option<(Seq<(u8, u8)>, int)> {
    let iv = be16_at(data, 2 * k);
    let encoding = iv / 8192;
    let dov = iv % 8192;
    let len = data.len();
    if encoding == 1 {
        if off + 4 <= len {
            if off + 8 > len {
                None
            } else {
                Some((b + Seq::new(16, |i: int| (0u8, nibble_of(data[off + i / 2], i))), off + 4))
            }
        } else {
            Some((b, off))
        }
    } else if encoding == 2 {
        if off + 8 <= len {
            Some((b + Seq::new(16, |i: int| (if off + i < len { data[off + i] } else { 0u8 }, 0u8)), off + 8))
        } else {
            Some((b, off))
        }
    } else if encoding == 3 {
        if off + 16 <= len {
            Some((b + Seq::new(16, |i: int| if off + 2 * i + 1 < len { (data[off + 2 * i], data[off + 2 * i + 1]) } else { (0u8, 0u8) }), off + 16))
        } else {
            Some((b, off))
        }
    } else if encoding == 4 && 0 < dov < len {
        Some((fill_air(sparse_blocks(data, b, dov), 16384), off))
    } else {
        Some((b + air(16), off))
    }
}

/// The blocks and payload offset after the first `n` index entries.
pub open spec fn tile_decode(data: Seq<u8>, n: int) -> Option<(Seq<(u8, u8)>, int)>
    decreases n,
{
    if n <= 0 {
        Some((Seq::empty(), 2048))
    } else {
        match tile_decode(data, n - 1) {
            Some((b, off)) => tile_step(data, b, off, n - 1),
            None => None,
        }
    }
}

proof fn lemma_tile_decode_prefix(data: Seq<u8>, k: int, n: int)
    requires
        0 <= k <= n,
        tile_decode(data, n) is Some,
    ensures
        tile_decode(data, k) is Some,
    decreases n - k,
{
    if k < n {
        lemma_tile_decode_prefix(data, k + 1, n);
    }
}

fn push_air(blocks: &mut Vec<LegacyBlockState>, n: usize)
    ensures
        blocks_view(final(blocks)@) == blocks_view(old(blocks)@) + air(n as int),
        final(blocks)@.len() == old(blocks)@.len() + n,
{
    let ghost b0 = blocks_view(blocks@);
    let mut i: usize = 0;
    while i < n
        invariant
            i <= n,
            blocks_view(blocks@) == b0 + air(i as int),
            blocks@.len() == old(blocks)@.len() + i,
        decreases n - i,
    {
        let ghost prev = blocks@;
        blocks.push(LegacyBlockState::new(0, 0));
        assert(blocks_view(blocks@) =~= blocks_view(prev).push((0u8, 0u8)));
        assert(blocks_view(blocks@) =~= b0 + air(i + 1));
        i += 1;
    }
}

fn decode_sparse(data: &[u8], blocks: &mut Vec<LegacyBlockState>, start: usize)
    requires
        0 < start < data@.len(),
        old(blocks)@.len() <= 0x100000,
    ensures
        blocks_view(final(blocks)@) == sparse_blocks(data@, blocks_view(old(blocks)@), start as int),
        final(blocks)@.len() <= 16384 || final(blocks)@.len() == old(blocks)@.len(),
{
    let n = data.len();
    let mut sp = start;
    while sp < n && blocks.len() < 16384
        invariant
            n == data@.len(),
            sp <= n,
            sparse_blocks(data@, blocks_view(blocks@), sp as int) == sparse_blocks(data@, blocks_view(old(blocks)@), start as int),
            blocks@.len() <= 16384 || blocks@.len() == old(blocks)@.len(),
            old(blocks)@.len() <= 0x100000,
        decreases n - sp,
    {
        if n - sp < 3 {
            return;
        }
        let location = data[sp] as usize;
        let block_id = data[sp + 1];
        let block_data = data[sp + 2];
        sp += 3;
        let ghost b = blocks_view(blocks@);
        if location > blocks.len() {
            let k = location - blocks.len();
            push_air(blocks, k);
        }
        if blocks.len() < 16384 {
            let ghost b1 = blocks@;
            blocks.push(LegacyBlockState::new(block_id, block_data));
            assert(blocks_view(blocks@) =~= blocks_view(b1).push((block_id, block_data)));
        }
        assert(sparse_blocks(data@, b, (sp - 3) as int) == sparse_blocks(data@, blocks_view(blocks@), sp as int));
    }
}

/// Decodes the compressed tile storage of a console chunk section into its blocks:
/// a 2048-byte index of 1024 entries, each describing 16 blocks (all air, 4-bit data
/// only, 8-bit ids only, id and data pairs, or a sparse list), followed by the
/// payload those entries read.
pub fn try_decode_compressed_tile_storage(data: &[u8]) -> (r: Result<Vec<LegacyBlockState>, ConversionError>)
    requires
        data@.len() >= 2048 ==> tile_decode(data@, 1024) is Some,
    ensures
        data@.len() < 2048 <==> r matches Err(ConversionError::InvalidFormat(_)),
        data@.len() >= 2048 <==> r is Ok,
        r matches Ok(v) ==> tile_decode(data@, 1024) == Some((blocks_view(v@), tile_decode(data@, 1024).unwrap().1)),
{
    if data.len() < 2048 {
        return Err(ConversionError::InvalidFormat(to_owned_string("Compressed tile storage data too short")));
    }
    let n = data.len();
    let mut blocks: Vec<LegacyBlockState> = Vec::new();
    let mut data_offset: usize = 2048;
    let mut k: usize = 0;
    while k < 1024
        invariant
            n == data@.len(),
            n >= 2048,
            k <= 1024,
            tile_decode(data@, 1024) is Some,
            tile_decode(data@, k as int) == Some((blocks_view(blocks@), data_offset as int)),
            data_offset <= n,
            blocks@.len() <= 16384 + 16 * k,
        decreases 1024 - k,
    {
        proof {
            lemma_tile_decode_prefix(data@, (k + 1) as int, 1024);
        }
        let ghost b0 = blocks_view(blocks@);
        let ghost off0 = data_offset as int;
        let ghost len0 = blocks@.len();
        let index_value = be_u16_at(data, 2 * k);
        let data_type = index_value >> 13;
        let data_offset_val = (index_value & 0x1FFF) as usize;
        proof {
            crate::bytes::lemma_u16_top3(index_value);
        }
        if data_type == 1 {
            if n - data_offset >= 4 {
                let mut i: usize = 0;
                while i < 16
                    invariant
                        i <= 16,
                        data_offset + 8 <= n,
                        n == data@.len(),
                        blocks_view(blocks@) == b0 + Seq::new(i as nat, |j: int| (0u8, nibble_of(data@[data_offset + j / 2], j))),
                    decreases 16 - i,
                {
                    let byte = data[data_offset + i / 2];
                    let nibble = if i % 2 == 0 { byte & 0x0F } else { (byte >> 4) & 0x0F };
                    proof { crate::bytes::lemma_nibbles(byte); }
                    let ghost prev = blocks@;
                    blocks.push(LegacyBlockState::new(0, nibble));
                    assert(blocks_view(blocks@) =~= blocks_view(prev).push((0u8, nibble)));
                    assert(blocks_view(blocks@) =~= b0 + Seq::new((i + 1) as nat, |j: int| (0u8, nibble_of(data@[data_offset + j / 2], j))));
                    i += 1;
                }
                data_offset += 4;
            }
        } else if data_type == 2 {
            if n - data_offset >= 8 {
                let mut i: usize = 0;
                while i < 16
                    invariant
                        i <= 16,
                        data_offset + 8 <= n,
                        n == data@.len(),
                        blocks_view(blocks@) == b0 + Seq::new(i as nat, |j: int| (if data_offset + j < n { data@[data_offset + j] } else { 0u8 }, 0u8)),
                    decreases 16 - i,
                {
                    let id = if i < n - data_offset { data[data_offset + i] } else { 0 };
                    let ghost prev = blocks@;
                    blocks.push(LegacyBlockState::new(id, 0));
                    assert(blocks_view(blocks@) =~= blocks_view(prev).push((id, 0u8)));
                    assert(blocks_view(blocks@) =~= b0 + Seq::new((i + 1) as nat, |j: int| (if data_offset + j < n { data@[data_offset + j] } else { 0u8 }, 0u8)));
                    i += 1;
                }
                data_offset += 8;
            }
        } else if data_type == 3 {
            if n - data_offset >= 16 {
                let mut i: usize = 0;
                while i < 16
                    invariant
                        i <= 16,
                        data_offset + 16 <= n,
                        n == data@.len(),
                        blocks_view(blocks@) == b0 + Seq::new(i as nat, |j: int|
                            if data_offset + 2 * j + 1 < n { (data@[data_offset + 2 * j], data@[data_offset + 2 * j + 1]) } else { (0u8, 0u8) }),
                    decreases 16 - i,
                {
                    let ghost prev = blocks@;
                    let pair = if i * 2 + 1 < n - data_offset {
                        (data[data_offset + i * 2], data[data_offset + i * 2 + 1])
                    } else {
                        (0u8, 0u8)
                    };
                    blocks.push(LegacyBlockState::new(pair.0, pair.1));
                    assert(blocks_view(blocks@) =~= blocks_view(prev).push(pair));
                    assert(blocks_view(blocks@) =~= b0 + Seq::new((i + 1) as nat, |j: int|
                        if data_offset + 2 * j + 1 < n { (data@[data_offset + 2 * j], data@[data_offset + 2 * j + 1]) } else { (0u8, 0u8) }));
                    i += 1;
                }
                data_offset += 16;
            }
        } else if data_type == 4 && data_offset_val > 0 && data_offset_val < n {
            decode_sparse(data, &mut blocks, data_offset_val);
            if blocks.len() < 16384 {
                let rest = 16384 - blocks.len();
                push_air(&mut blocks, rest);
            }
        } else {
            push_air(&mut blocks, 16);
        }
        assert(tile_decode(data@, k + 1) == tile_step(data@, b0, off0, k as int));
        assert(tile_step(data@, b0, off0, k as int) == Some((blocks_view(blocks@), data_offset as int)));
        assert(blocks@.len() <= 16384 + 16 * (k + 1));
        k += 1;
    }
    Ok(blocks)
}

/// Whether one of the first four bytes of a scheme-2 payload is `0xFF`, which marks
/// it as run-length coded.
pub open spec fn looks_rle(p: Seq<u8>) -> bool {
    p.len() >= 4 && (p[0] == 0xFF || p[1] == 0xFF || p[2] == 0xFF || p[3] == 0xFF)
}

/// Decodes an Xbox 360 chunk record: a 4-byte size, a compression scheme byte, then
/// the payload (scheme 0: stored; 1: zlib; 2: run-length coded when it looks so,
/// else stored).
pub fn decode_xbox360_chunk(chunk_data: &[u8]) -> (r: Result<Vec<u8>, ConversionError>)
    ensures
        chunk_data@.len() < 5 <==> r matches Err(ConversionError::InvalidFormat(_)),
        chunk_data@.len() < 5 ==> r is Err,
        chunk_data@.len() >= 5 ==> ({
            let scheme = chunk_data@[4];
            let payload = chunk_data@.subrange(5, chunk_data@.len() as int);
            &&& (scheme > 2 <==> (r matches Err(ConversionError::DecompressionFailed(_))))
            &&& (scheme == 1 ==> ((r matches Err(ConversionError::Io(_))) <==> zlib_decoded(payload) is None))
            &&& ((scheme == 0 || scheme == 2 || (scheme == 1 && zlib_decoded(payload) is Some)) <==> r is Ok)
            &&& (r matches Ok(v) ==> {
                &&& scheme == 0 ==> v@ == payload
                &&& scheme == 1 ==> zlib_decoded(payload) == Some(v@)
                &&& scheme == 2 ==> v@ == if looks_rle(payload) { rle_expand(payload) } else { payload }
            })
        }),
{
    if chunk_data.len() < 5 {
        return Err(ConversionError::InvalidFormat(to_owned_string("Chunk data too short")));
    }
    let compression_scheme = chunk_data[4];
    let payload = slice_from(chunk_data, 5, chunk_data.len());
    if compression_scheme == 0 {
        Ok(vstd::slice::slice_to_vec(payload))
    } else if compression_scheme == 1 {
        match zlib_decode(payload) {
            Ok(v) => Ok(v),
            Err(e) => Err(ConversionError::Io(e)),
        }
    } else if compression_scheme == 2 {
        let is_rle = payload.len() >= 4 && (payload[0] == 0xFF || payload[1] == 0xFF || payload[2] == 0xFF
            || payload[3] == 0xFF);
        if is_rle {
            decode_rle_chunk(payload)
        } else {
            Ok(vstd::slice::slice_to_vec(payload))
        }
    } else {
        Err(ConversionError::DecompressionFailed(to_owned_string("Unknown chunk compression scheme")))
    }
}

} // verus!
