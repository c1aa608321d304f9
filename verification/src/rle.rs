//! The byte run-length code of console chunk payloads and savegames: `0xFF n v`
//! stands for `n` copies of `v`; any other byte stands for itself.
use vstd::prelude::*;

verus! {

/// `n` copies of `v`.
pub open spec fn repeat(v: u8, n: int) -> Seq<u8> {
    Seq::new(if n < 0 { 0 } else { n as nat }, |i: int| v)
}

/// The bytes a run-length code stands for. A trailing `0xFF` with fewer than two
/// bytes after it stands for nothing.
pub open spec fn rle_expand(d: Seq<u8>) -> Seq<u8>
    decreases d.len(),
{
    if d.len() == 0 {
        Seq::empty()
    } else if d[0] != 0xFF {
        seq![d[0]] + rle_expand(d.drop_first())
    } else if d.len() < 3 {
        Seq::empty()
    } else {
        repeat(d[2], d[1] as int) + rle_expand(d.subrange(3, d.len() as int))
    }
}

/// The first `n` bytes (or fewer, if the code stands for fewer) of `rle_expand(d)`,
/// produced step by step without going past `n`.
pub open spec fn rle_expand_bounded(d: Seq<u8>, n: int) -> Seq<u8>
    decreases d.len(),
{
    if n <= 0 || d.len() == 0 {
        Seq::empty()
    } else if d[0] != 0xFF {
        seq![d[0]] + rle_expand_bounded(d.drop_first(), n - 1)
    } else if d.len() < 3 {
        Seq::empty()
    } else {
        let k = if (d[1] as int) < n { d[1] as int } else { n };
        repeat(d[2], k) + rle_expand_bounded(d.subrange(3, d.len() as int), n - k)
    }
}

/// The length of the run of bytes equal to `d[0]` at the start of `d`, counted from
/// position `j` on and capped at 255.
pub open spec fn run_from(d: Seq<u8>, j: int) -> int
    decreases 255 - j,
{
    if j < 0 || j >= 255 || j >= d.len() || d[j] != d[0] {
        j
    } else {
        run_from(d, j + 1)
    }
}

/// The length of the run at the start of `d` (at most 255).
pub open spec fn run_len(d: Seq<u8>) -> int {
    run_from(d, 0)
}

/// The run-length code the encoder writes for `d`: runs of 4 to 255 equal bytes
/// become `0xFF n v`; other bytes are written as they are.
pub open spec fn rle_encode(d: Seq<u8>) -> Seq<u8>
    decreases d.len(),
{
    if d.len() == 0 {
        Seq::empty()
    } else {
        let r = run_len(d);
        if r >= 4 {
            if r <= d.len() {
                seq![0xFFu8, r as u8, d[0]] + rle_encode(d.subrange(r, d.len() as int))
            } else {
                Seq::empty()
            }
        } else {
            seq![d[0]] + rle_encode(d.drop_first())
        }
    }
}

/// The encoder never writes `0xFF` as a plain byte for `d`: every `0xFF` of `d` lies
/// in a run of four or more. Exactly on these inputs the code decodes back.
pub open spec fn no_literal_ff(d: Seq<u8>) -> bool
    decreases d.len(),
{
    if d.len() == 0 {
        true
    } else {
        let r = run_len(d);
        if r >= 4 {
            r <= d.len() && no_literal_ff(d.subrange(r, d.len() as int))
        } else {
            d[0] != 0xFF && no_literal_ff(d.drop_first())
        }
    }
}

/// A run counted from `j` ends at a position in `j..=min(255, len)`, and every byte
/// before it from `j` on equals `d[0]`.
pub proof fn lemma_run_from(d: Seq<u8>, j: int)
    requires
        0 <= j <= 255,
        j <= d.len(),
    ensures
        j <= run_from(d, j) <= 255,
        run_from(d, j) <= d.len(),
        forall|i: int| j <= i < run_from(d, j) ==> #[trigger] d[i] == d[0],
        run_from(d, j) < 255 && run_from(d, j) < d.len() ==> d[run_from(d, j)] != d[0],
    decreases 255 - j,
{
    if j < 255 && j < d.len() && d[j] == d[0] {
        lemma_run_from(d, j + 1);
    }
}

/// A non-empty input starts with a run of at least one byte.
pub proof fn lemma_run_len(d: Seq<u8>)
    requires
        d.len() > 0,
    ensures
        1 <= run_len(d) <= 255,
        run_len(d) <= d.len(),
        forall|i: int| 0 <= i < run_len(d) ==> #[trigger] d[i] == d[0],
{
    lemma_run_from(d, 0);
    lemma_run_from(d, 1);
}

/// The bounded expansion is the unbounded one cut at `n`.
pub proof fn lemma_expand_bounded(d: Seq<u8>, n: int)
    requires
        n >= 0,
    ensures
        rle_expand_bounded(d, n) == rle_expand(d).take(if n < rle_expand(d).len() { n } else { rle_expand(d).len() as int }),
    decreases d.len(),
{
    let e = rle_expand(d);
    if n == 0 || d.len() == 0 {
        assert(e.take(0) =~= Seq::<u8>::empty());
        if d.len() == 0 {
            assert(e.take(e.len() as int) =~= e);
        }
    } else if d[0] != 0xFF {
        lemma_expand_bounded(d.drop_first(), n - 1);
        let t = rle_expand(d.drop_first());
        let m = if n - 1 < t.len() { n - 1 } else { t.len() as int };
        assert(seq![d[0]] + t.take(m) =~= e.take(m + 1));
    } else if d.len() < 3 {
        assert(e.take(0) =~= Seq::<u8>::empty());
    } else {
        let rest = d.subrange(3, d.len() as int);
        let k = if (d[1] as int) < n { d[1] as int } else { n };
        lemma_expand_bounded(rest, n - k);
        let t = rle_expand(rest);
        let m = if n - k < t.len() { n - k } else { t.len() as int };
        if (d[1] as int) < n {
            assert(repeat(d[2], k) + t.take(m) =~= e.take(k + m));
        } else {
            assert(t.take(0) =~= Seq::<u8>::empty());
            assert(repeat(d[2], k) + t.take(m) =~= e.take(n));
        }
    }
}

/// Decoding the code of `d` gives back `d`, for every input on which the encoder
/// writes no plain `0xFF`.
pub proof fn lemma_rle_roundtrip(d: Seq<u8>)
    requires
        no_literal_ff(d),
    ensures
        rle_expand(rle_encode(d)) == d,
    decreases d.len(),
{
    if d.len() > 0 {
        lemma_run_len(d);
        let r = run_len(d);
        if r >= 4 {
            let rest = d.subrange(r, d.len() as int);
            lemma_rle_roundtrip(rest);
            let c = seq![0xFFu8, r as u8, d[0]] + rle_encode(rest);
            assert(c[0] == 0xFF && c[1] == r as u8 && c[2] == d[0]);
            assert(c.subrange(3, c.len() as int) =~= rle_encode(rest));
            assert(repeat(d[0], r) + rest =~= d);
        } else {
            lemma_rle_roundtrip(d.drop_first());
            let c = seq![d[0]] + rle_encode(d.drop_first());
            assert(c.drop_first() =~= rle_encode(d.drop_first()));
            assert(seq![d[0]] + d.drop_first() =~= d);
        }
    }
}

/// An input without any `0xFF` byte is one the code decodes back.
pub proof fn lemma_no_ff_byte(d: Seq<u8>)
    requires
        forall|i: int| 0 <= i < d.len() ==> d[i] != 0xFF,
    ensures
        no_literal_ff(d),
    decreases d.len(),
{
    if d.len() > 0 {
        lemma_run_len(d);
        let r = run_len(d);
        if r >= 4 {
            lemma_no_ff_byte(d.subrange(r, d.len() as int));
        } else {
            lemma_no_ff_byte(d.drop_first());
        }
    }
}

} // verus!
