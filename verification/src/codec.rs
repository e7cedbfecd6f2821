//! H.264 stream layout: the `avcC` record, length-prefixed samples and Annex-B streams.
//!
//! MP4 files store each sample as a run of NAL units that carry their length in front,
//! and keep the parameter sets (SPS, PPS) apart, in the `avcC` record. A decoder wants
//! Annex-B: every NAL unit preceded by a start code, the parameter sets first.

use crate::media::{ExtraData, MediaTrack, TrackParams};
use crate::time::TimeBase;
use vstd::prelude::*;

verus! {

/// The start code that precedes a NAL unit in an Annex-B stream.
pub open spec fn start_code() -> Seq<u8> {
    seq![0u8, 0u8, 0u8, 1u8]
}

/// The Annex-B stream of a list of NAL units.
pub open spec fn annex_b(nals: Seq<Seq<u8>>) -> Seq<u8>
    decreases nals.len(),
{
    if nals.len() == 0 {
        Seq::empty()
    } else {
        annex_b(nals.drop_last()) + start_code() + nals.last()
    }
}

/// The number that a run of bytes stands for, most significant byte first.
pub open spec fn big_endian(bytes: Seq<u8>) -> nat
    decreases bytes.len(),
{
    if bytes.len() == 0 {
        0
    } else {
        big_endian(bytes.drop_last()) * 256 + bytes.last() as nat
    }
}

/// The lowest `width` bytes of a number, most significant byte first.
pub open spec fn to_big_endian(value: nat, width: nat) -> Seq<u8>
    decreases width,
{
    if width == 0 {
        Seq::empty()
    } else {
        to_big_endian(value / 256, (width - 1) as nat).push((value % 256) as u8)
    }
}

/// How many numbers `width` bytes can tell apart.
pub open spec fn byte_capacity(width: nat) -> nat
    decreases width,
{
    if width == 0 {
        1
    } else {
        256 * byte_capacity((width - 1) as nat)
    }
}

/// NAL units one after the other, each behind its length in `width` bytes.
pub open spec fn length_prefixed(nals: Seq<Seq<u8>>, width: nat) -> Seq<u8>
    decreases nals.len(),
{
    if nals.len() == 0 {
        Seq::empty()
    } else {
        length_prefixed(nals.drop_last(), width) + to_big_endian(nals.last().len(), width)
            + nals.last()
    }
}

/// Whether a buffer begins with a start code.
pub open spec fn is_annex_b(data: Seq<u8>) -> bool {
    data.len() >= 4 && data[0] == 0 && data[1] == 0 && (data[2] == 1 || (data[2] == 0 && data[3]
        == 1))
}

/// The `count` NAL units with two-byte lengths that stand at `pos`, and the position
/// behind them; nothing if the buffer ends too early.
pub open spec fn read_nals(data: Seq<u8>, pos: int, count: nat) -> Option<(Seq<Seq<u8>>, int)>
    decreases count,
{
    if count == 0 {
        Some((Seq::empty(), pos))
    } else {
        match read_nals(data, pos, (count - 1) as nat) {
            None => None,
            Some((nals, p)) => {
                if p + 2 > data.len() {
                    None
                } else {
                    let n = big_endian(data.subrange(p, p + 2));
                    if p + 2 + n > data.len() {
                        None
                    } else {
                        Some((nals.push(data.subrange(p + 2, p + 2 + n)), p + 2 + n))
                    }
                }
            },
        }
    }
}

/// The parameter sets of an `avcC` record, SPS before PPS; nothing if it is malformed.
/// The PPS part may be missing altogether.
pub open spec fn parameter_sets(avcc: Seq<u8>) -> Option<Seq<Seq<u8>>> {
    if avcc.len() < 7 || avcc[0] != 1 {
        None
    } else {
        match read_nals(avcc, 6, (avcc[5] & 0x1f) as nat) {
            None => None,
            Some((sps, p)) => {
                if p < avcc.len() {
                    match read_nals(avcc, p + 1, avcc[p] as nat) {
                        None => None,
                        Some((pps, _)) => Some(sps + pps),
                    }
                } else {
                    Some(sps)
                }
            },
        }
    }
}

/// What an `avcC` record says: its parameter sets as an Annex-B stream and the width of
/// the length prefixes of the samples. A record without any parameter set says nothing.
pub open spec fn avcc_contents(avcc: Seq<u8>) -> Option<(Seq<u8>, int)> {
    match parameter_sets(avcc) {
        Some(sets) if sets.len() > 0 => Some((annex_b(sets), (avcc[4] & 0x03) + 1)),
        _ => None,
    }
}

/// The NAL units of a sample from position `i` on, up to the first empty or cut-off one.
pub open spec fn sample_nals(data: Seq<u8>, i: int, width: int) -> Seq<Seq<u8>>
    decreases data.len() - i,
{
    if width <= 0 || i < 0 || i + width > data.len() {
        Seq::empty()
    } else {
        let n = big_endian(data.subrange(i, i + width));
        if n == 0 || i + width + n > data.len() {
            Seq::empty()
        } else {
            seq![data.subrange(i + width, i + width + n)] + sample_nals(data, i + width + n, width)
        }
    }
}

/// A prefix width brought into the range that a container can use.
pub open spec fn prefix_width(nal_length_size: int) -> int {
    if nal_length_size < 1 {
        1
    } else if nal_length_size > 4 {
        4
    } else {
        nal_length_size
    }
}

/// The Annex-B form of a sample. What already is Annex-B, and what does not parse at
/// all, stays as it is.
pub open spec fn sample_as_annex_b(data: Seq<u8>, nal_length_size: int) -> Seq<u8> {
    let nals = sample_nals(data, 0, prefix_width(nal_length_size));
    if is_annex_b(data) || nals.len() == 0 {
        data
    } else {
        annex_b(nals)
    }
}

/// A run of NAL units with four-byte lengths, each length replaced by a start code, up
/// to the first length that reaches past the end.
pub open spec fn start_codes_in_place(data: Seq<u8>) -> Seq<u8>
    decreases data.len(),
{
    if data.len() < 4 {
        data
    } else {
        let n = big_endian(data.subrange(0, 4)) as int;
        if 4 + n > data.len() {
            data
        } else {
            start_code() + data.subrange(4, 4 + n) + start_codes_in_place(
                data.subrange(4 + n, data.len() as int),
            )
        }
    }
}

proof fn lemma_read_nals_stays_none(data: Seq<u8>, pos: int, few: nat, many: nat)
    requires
        few <= many,
        read_nals(data, pos, few) is None,
    ensures
        read_nals(data, pos, many) is None,
    decreases many,
{
    if few < many {
        lemma_read_nals_stays_none(data, pos, few, (many - 1) as nat);
    }
}

proof fn lemma_annex_b_empty(nals: Seq<Seq<u8>>)
    ensures
        annex_b(nals).len() == 0 <==> nals.len() == 0,
{
}

proof fn lemma_annex_b_concat(a: Seq<Seq<u8>>, b: Seq<Seq<u8>>)
    ensures
        annex_b(a + b) == annex_b(a) + annex_b(b),
    decreases b.len(),
{
    if b.len() == 0 {
        assert(a + b =~= a);
        assert(annex_b(a + b) =~= annex_b(a) + annex_b(b));
    } else {
        lemma_annex_b_concat(a, b.drop_last());
        assert((a + b).drop_last() =~= a + b.drop_last());
        assert(annex_b(a + b) =~= annex_b(a) + annex_b(b));
    }
}

proof fn lemma_big_endian_two(b: Seq<u8>)
    requires
        b.len() == 2,
    ensures
        big_endian(b) == b[0] * 256 + b[1],
{
    reveal_with_fuel(big_endian, 3);
}

proof fn lemma_big_endian_four(b: Seq<u8>)
    requires
        b.len() == 4,
    ensures
        big_endian(b) == ((b[0] * 256 + b[1]) * 256 + b[2]) * 256 + b[3],
{
    reveal_with_fuel(big_endian, 5);
}

/// Appends the bytes `from..to` of `data` behind a start code.
fn push_nal(out: &mut Vec<u8>, data: &[u8], from: usize, to: usize)
    requires
        from <= to <= data@.len(),
    ensures
        final(out)@ == old(out)@ + start_code() + data@.subrange(from as int, to as int),
{
    out.push(0);
    out.push(0);
    out.push(0);
    out.push(1);
    assert(out@ =~= old(out)@ + start_code());
    let ghost before = out@;
    let mut k: usize = from;
    while k < to
        invariant
            from <= k <= to <= data@.len(),
            out@ == before + data@.subrange(from as int, k as int),
        decreases to - k,
    {
        out.push(data[k]);
        k += 1;
        assert(out@ =~= before + data@.subrange(from as int, k as int));
    }
}

/// Reads `count` NAL units with two-byte lengths at `pos` and appends them to `out`.
/// Returns the position behind them.
fn push_nals(out: &mut Vec<u8>, data: &[u8], pos: usize, count: usize) -> (r: Option<usize>)
    requires
        pos <= data@.len(),
    ensures
        match read_nals(data@, pos as int, count as nat) {
            Some((nals, p)) => r matches Some(q) && q == p && p <= data@.len() && final(out)@ == old(
                out,
            )@ + annex_b(nals),
            None => r is None,
        },
{
    let mut at: usize = pos;
    let mut i: usize = 0;
    let ghost mut nals: Seq<Seq<u8>> = Seq::empty();
    assert(out@ =~= old(out)@ + annex_b(nals));
    while i < count
        invariant
            i <= count,
            pos <= at <= data@.len(),
            read_nals(data@, pos as int, i as nat) == Some((nals, at as int)),
            out@ == old(out)@ + annex_b(nals),
        decreases count - i,
    {
        if data.len() - at < 2 {
            proof {
                assert(read_nals(data@, pos as int, (i + 1) as nat) is None);
                lemma_read_nals_stays_none(data@, pos as int, (i + 1) as nat, count as nat);
            }
            return None;
        }
        let n: usize = data[at] as usize * 256 + data[at + 1] as usize;
        proof {
            lemma_big_endian_two(data@.subrange(at as int, at + 2));
        }
        let body: usize = at + 2;
        if data.len() - body < n {
            proof {
                assert(read_nals(data@, pos as int, (i + 1) as nat) is None);
                lemma_read_nals_stays_none(data@, pos as int, (i + 1) as nat, count as nat);
            }
            return None;
        }
        push_nal(out, data, body, body + n);
        proof {
            let nal = data@.subrange(body as int, body + n);
            assert(nals.push(nal).drop_last() =~= nals);
            nals = nals.push(nal);
            assert(out@ =~= old(out)@ + annex_b(nals));
        }
        at = body + n;
        i += 1;
    }
    Some(at)
}

/// Parses an `avcC` record into its parameter sets as an Annex-B stream and the width of
/// the length prefixes. Returns `None` if the record is malformed.
pub fn parse_avcc(avcc: &[u8]) -> (r: Option<(Vec<u8>, usize)>)
    ensures
        match avcc_contents(avcc@) {
            Some((header, width)) => r matches Some((h, w)) && h@ == header && w == width,
            None => r is None,
        },
        r matches Some((_, w)) ==> 1 <= w <= 4,
{
    if avcc.len() < 7 || avcc[0] != 1 {
        return None;
    }
    let width_bits: u8 = avcc[4] & 0x03;
    let num_sps: u8 = avcc[5] & 0x1f;
    proof {
        let b = avcc[4];
        assert(b & 0x03 <= 3) by (bit_vector);
    }
    let nal_length_size: usize = width_bits as usize + 1;
    let mut out: Vec<u8> = Vec::new();
    let after_sps: usize = match push_nals(&mut out, avcc, 6, num_sps as usize) {
        Some(p) => p,
        None => return None,
    };
    let ghost sps = (read_nals(avcc@, 6, num_sps as nat)->0).0;
    assert(out@ =~= annex_b(sps));
    if after_sps < avcc.len() {
        let num_pps: u8 = avcc[after_sps];
        match push_nals(&mut out, avcc, after_sps + 1, num_pps as usize) {
            Some(_) => {},
            None => return None,
        }
        proof {
            let pps = (read_nals(avcc@, after_sps + 1, num_pps as nat)->0).0;
            lemma_annex_b_concat(sps, pps);
        }
    }
    proof {
        lemma_annex_b_empty(parameter_sets(avcc@)->0);
    }
    if out.len() == 0 {
        None
    } else {
        Some((out, nal_length_size))
    }
}

fn starts_with_start_code(data: &[u8]) -> (r: bool)
    ensures
        r == is_annex_b(data@),
{
    data.len() >= 4 && data[0] == 0 && data[1] == 0 && (data[2] == 1 || (data[2] == 0 && data[3]
        == 1))
}

/// Converts a sample of length-prefixed NAL units into an Annex-B stream.
///
/// A sample that already begins with a start code is returned unchanged.
/// `nal_length_size` is the width of the length prefixes in bytes.
pub fn to_annex_b(data: &[u8], nal_length_size: usize) -> (r: Vec<u8>)
    ensures
        r@ == sample_as_annex_b(data@, nal_length_size as int),
{
    if starts_with_start_code(data) {
        return vstd::slice::slice_to_vec(data);
    }
    let width: usize = if nal_length_size < 1 {
        1
    } else if nal_length_size > 4 {
        4
    } else {
        nal_length_size
    };
    let mut out: Vec<u8> = Vec::with_capacity(data.len());
    let mut i: usize = 0;
    let ghost mut done: Seq<Seq<u8>> = Seq::empty();
    assert(out@ =~= annex_b(done));
    assert(done + sample_nals(data@, 0, width as int) =~= sample_nals(data@, 0, width as int));
    while data.len() - i >= width
        invariant_except_break
            sample_nals(data@, 0, width as int) == done + sample_nals(data@, i as int, width as int),
        invariant
            1 <= width <= 4,
            i <= data@.len(),
            out@ == annex_b(done),
        ensures
            sample_nals(data@, 0, width as int) == done,
        decreases data@.len() - i,
    {
        let mut n: usize = 0;
        let mut k: usize = 0;
        while k < width
            invariant
                k <= width <= 4,
                i + width <= data.len(),
                n == big_endian(data@.subrange(i as int, i + k)),
                k == 0 ==> n == 0,
                k == 1 ==> n < 0x100,
                k == 2 ==> n < 0x1_0000,
                k == 3 ==> n < 0x100_0000,
                k == 4 ==> n <= 0xffff_ffff,
            decreases width - k,
        {
            assert(data@.subrange(i as int, i + k + 1).drop_last() =~= data@.subrange(
                i as int,
                i + k,
            ));
            n = n * 256 + data[i + k] as usize;
            k += 1;
        }
        let body: usize = i + width;
        if n == 0 || data.len() - body < n {
            assert(done + Seq::<Seq<u8>>::empty() =~= done);
            break;
        }
        push_nal(&mut out, data, body, body + n);
        proof {
            let nal = data@.subrange(body as int, body + n);
            let rest = sample_nals(data@, body + n, width as int);
            assert(done + (seq![nal] + rest) =~= done.push(nal) + rest);
            assert(done.push(nal).drop_last() =~= done);
            done = done.push(nal);
        }
        i = body + n;
    }
    proof {
        lemma_annex_b_empty(done);
    }
    // What does not parse is handed on as it is, so that the decoder at least sees it.
    if out.len() == 0 {
        vstd::slice::slice_to_vec(data)
    } else {
        out
    }
}

/// Replaces the four-byte lengths of a sample by start codes, in place. A sample that
/// already begins with a start code is left alone.
pub fn avcc_to_annex_b(data: &mut [u8])
    ensures
        final(data)@ == (if is_annex_b(old(data)@) {
            old(data)@
        } else {
            start_codes_in_place(old(data)@)
        }),
{
    if starts_with_start_code(data) {
        return;
    }
    let ghost whole = data@;
    let mut i: usize = 0;
    let ghost mut done: Seq<u8> = Seq::empty();
    assert(data@ =~= done + whole.subrange(0, whole.len() as int));
    assert(whole.subrange(0, whole.len() as int) =~= whole);
    assert(done + start_codes_in_place(whole) =~= start_codes_in_place(whole));
    while data.len() - i >= 4
        invariant_except_break
            done.len() == i,
            data@ == done + whole.subrange(i as int, whole.len() as int),
            start_codes_in_place(whole) == done + start_codes_in_place(
                whole.subrange(i as int, whole.len() as int),
            ),
        invariant
            i <= whole.len(),
            data@.len() == whole.len(),
        ensures
            data@ == start_codes_in_place(whole),
        decreases whole.len() - i,
    {
        let ghost rest = whole.subrange(i as int, whole.len() as int);
        proof {
            assert(rest.subrange(0, 4) =~= seq![rest[0], rest[1], rest[2], rest[3]]);
            lemma_big_endian_four(rest.subrange(0, 4));
            assert(data@[i as int] == rest[0] && data@[i + 1] == rest[1] && data@[i + 2] == rest[2]
                && data@[i + 3] == rest[3]);
        }
        let n: u64 = ((data[i] as u64 * 256 + data[i + 1] as u64) * 256 + data[i + 2] as u64) * 256
            + data[i + 3] as u64;
        if n <= (data.len() - i - 4) as u64 {
            data[i] = 0;
            data[i + 1] = 0;
            data[i + 2] = 0;
            data[i + 3] = 1;
            let next: usize = i + 4 + n as usize;
            proof {
                let tail = whole.subrange(next as int, whole.len() as int);
                let piece = start_code() + rest.subrange(4, 4 + n as int);
                assert(rest.subrange(4 + n as int, rest.len() as int) =~= tail);
                assert(data@ =~= (done + piece) + tail);
                assert(done + (piece + start_codes_in_place(tail)) =~= (done + piece)
                    + start_codes_in_place(tail));
                done = done + piece;
            }
            i = next;
        } else {
            break;
        }
    }
}

proof fn lemma_length_prefixed_concat(a: Seq<Seq<u8>>, b: Seq<Seq<u8>>, width: nat)
    ensures
        length_prefixed(a + b, width) == length_prefixed(a, width) + length_prefixed(b, width),
    decreases b.len(),
{
    if b.len() == 0 {
        assert(a + b =~= a);
        assert(length_prefixed(a + b, width) =~= length_prefixed(a, width) + length_prefixed(
            b,
            width,
        ));
    } else {
        lemma_length_prefixed_concat(a, b.drop_last(), width);
        assert((a + b).drop_last() =~= a + b.drop_last());
        assert(length_prefixed(a + b, width) =~= length_prefixed(a, width) + length_prefixed(
            b,
            width,
        ));
    }
}

proof fn lemma_length_prefixed_first(nals: Seq<Seq<u8>>, width: nat)
    requires
        nals.len() > 0,
    ensures
        length_prefixed(nals, width) == to_big_endian(nals[0].len(), width) + nals[0]
            + length_prefixed(nals.drop_first(), width),
{
    let one = seq![nals[0]];
    assert(one + nals.drop_first() =~= nals);
    lemma_length_prefixed_concat(one, nals.drop_first(), width);
    assert(one.drop_last() =~= Seq::<Seq<u8>>::empty());
    assert(length_prefixed(one, width) =~= to_big_endian(nals[0].len(), width) + nals[0]) by {
        reveal_with_fuel(length_prefixed, 2);
    }
}

proof fn lemma_annex_b_first(nals: Seq<Seq<u8>>)
    requires
        nals.len() > 0,
    ensures
        annex_b(nals) == start_code() + nals[0] + annex_b(nals.drop_first()),
{
    let one = seq![nals[0]];
    assert(one + nals.drop_first() =~= nals);
    lemma_annex_b_concat(one, nals.drop_first());
    assert(one.drop_last() =~= Seq::<Seq<u8>>::empty());
    assert(annex_b(one) =~= start_code() + nals[0]) by {
        reveal_with_fuel(annex_b, 2);
    }
}

/// Writing a number in enough bytes and reading it back gives the number.
pub proof fn big_endian_roundtrip(value: nat, width: nat)
    requires
        value < byte_capacity(width),
    ensures
        to_big_endian(value, width).len() == width,
        big_endian(to_big_endian(value, width)) == value,
    decreases width,
{
    if width > 0 {
        big_endian_roundtrip(value / 256, (width - 1) as nat);
        let bytes = to_big_endian(value, width);
        assert(bytes.drop_last() =~= to_big_endian(value / 256, (width - 1) as nat));
    }
}

proof fn lemma_read_back(data: Seq<u8>, pos: int, nals: Seq<Seq<u8>>)
    requires
        0 <= pos,
        pos + length_prefixed(nals, 2).len() <= data.len(),
        data.subrange(pos, pos + length_prefixed(nals, 2).len()) == length_prefixed(nals, 2),
        forall|k: int| 0 <= k < nals.len() ==> (#[trigger] nals[k]).len() < 0x1_0000,
    ensures
        read_nals(data, pos, nals.len()) == Some(
            (nals, (pos + length_prefixed(nals, 2).len()) as int),
        ),
    decreases nals.len(),
{
    if nals.len() == 0 {
        assert(nals =~= Seq::empty());
    } else {
        let front = nals.drop_last();
        let nal = nals.last();
        let whole = length_prefixed(nals, 2);
        let head = length_prefixed(front, 2);
        let h = head.len() as int;
        assert(nals[nals.len() - 1].len() < 0x1_0000);
        assert(byte_capacity(2) == 0x1_0000) by {
            reveal_with_fuel(byte_capacity, 3);
        }
        big_endian_roundtrip(nal.len(), 2);
        assert(data.subrange(pos, pos + h) =~= whole.subrange(0, h));
        assert(whole.subrange(0, h) =~= head);
        assert forall|k: int| 0 <= k < front.len() implies (#[trigger] front[k]).len() < 0x1_0000 by {
            assert(front[k] == nals[k]);
        }
        lemma_read_back(data, pos, front);
        let p = pos + h;
        assert(data.subrange(p, p + 2) =~= whole.subrange(h, h + 2));
        assert(whole.subrange(h, h + 2) =~= to_big_endian(nal.len(), 2));
        assert(data.subrange(p + 2, p + 2 + nal.len()) =~= whole.subrange(
            h + 2,
            h + 2 + nal.len(),
        ));
        assert(whole.subrange(h + 2, h + 2 + nal.len()) =~= nal);
        assert(front.push(nal) =~= nals);
    }
}

/// An `avcC` record yields the parameter sets that it was written with, SPS before PPS,
/// and the prefix width that its fifth byte holds, whatever the profile bytes are.
pub proof fn avcc_record_roundtrip(
    profile: Seq<u8>,
    width_byte: u8,
    sps_byte: u8,
    sps: Seq<Seq<u8>>,
    pps: Seq<Seq<u8>>,
)
    requires
        profile.len() == 3,
        sps.len() == (sps_byte & 0x1f),
        pps.len() <= 255,
        sps.len() + pps.len() > 0,
        forall|k: int| 0 <= k < sps.len() ==> (#[trigger] sps[k]).len() < 0x1_0000,
        forall|k: int| 0 <= k < pps.len() ==> (#[trigger] pps[k]).len() < 0x1_0000,
    ensures
        avcc_contents(
            seq![1u8] + profile + seq![width_byte, sps_byte] + length_prefixed(sps, 2)
                + seq![pps.len() as u8] + length_prefixed(pps, 2),
        ) == Some((annex_b(sps + pps), (width_byte & 0x03) + 1)),
{
    let head = seq![1u8] + profile + seq![width_byte, sps_byte];
    let record = head + length_prefixed(sps, 2) + seq![pps.len() as u8] + length_prefixed(pps, 2);
    let p = 6 + length_prefixed(sps, 2).len() as int;
    assert(record.subrange(6, p) =~= length_prefixed(sps, 2));
    lemma_read_back(record, 6, sps);
    assert(record[p] == pps.len() as u8);
    assert(record.subrange(p + 1, p + 1 + length_prefixed(pps, 2).len()) =~= length_prefixed(
        pps,
        2,
    ));
    lemma_read_back(record, p + 1, pps);
}

proof fn lemma_sample_nals_of_prefixed(before: Seq<u8>, nals: Seq<Seq<u8>>, width: nat)
    requires
        1 <= width <= 4,
        forall|k: int|
            0 <= k < nals.len() ==> 0 < (#[trigger] nals[k]).len() < byte_capacity(width),
    ensures
        sample_nals(before + length_prefixed(nals, width), before.len() as int, width as int)
            == nals,
    decreases nals.len(),
{
    let data = before + length_prefixed(nals, width);
    let i = before.len() as int;
    if nals.len() == 0 {
        assert(nals =~= Seq::empty());
    } else {
        let nal = nals[0];
        let rest = nals.drop_first();
        lemma_length_prefixed_first(nals, width);
        big_endian_roundtrip(nal.len(), width);
        assert(data.subrange(i, i + width) =~= to_big_endian(nal.len(), width));
        assert(data.subrange(i + width, i + width + nal.len()) =~= nal);
        let further = before + to_big_endian(nal.len(), width) + nal;
        assert(data =~= further + length_prefixed(rest, width));
        assert forall|k: int| 0 <= k < rest.len() implies 0 < (#[trigger] rest[k]).len()
            < byte_capacity(width) by {
            assert(rest[k] == nals[k + 1]);
        }
        lemma_sample_nals_of_prefixed(further, rest, width);
        assert(seq![nal] + rest =~= nals);
    }
}

/// A sample made of non-empty NAL units converts to exactly those units behind start
/// codes. Left out are samples whose first length happens to read as a start code.
pub proof fn sample_roundtrip(nals: Seq<Seq<u8>>, width: nat)
    requires
        1 <= width <= 4,
        nals.len() > 0,
        forall|k: int|
            0 <= k < nals.len() ==> 0 < (#[trigger] nals[k]).len() < byte_capacity(width),
        !is_annex_b(length_prefixed(nals, width)),
    ensures
        sample_as_annex_b(length_prefixed(nals, width), width as int) == annex_b(nals),
{
    lemma_sample_nals_of_prefixed(Seq::empty(), nals, width);
    assert(Seq::<u8>::empty() + length_prefixed(nals, width) =~= length_prefixed(nals, width));
}

/// Converting in place turns a sample of NAL units with four-byte lengths into the same
/// Annex-B stream as the copying conversion.
pub proof fn in_place_agrees(nals: Seq<Seq<u8>>)
    requires
        forall|k: int| 0 <= k < nals.len() ==> (#[trigger] nals[k]).len() < byte_capacity(4),
    ensures
        start_codes_in_place(length_prefixed(nals, 4)) == annex_b(nals),
    decreases nals.len(),
{
    let data = length_prefixed(nals, 4);
    if nals.len() == 0 {
        assert(data =~= annex_b(nals));
    } else {
        let nal = nals[0];
        let rest = nals.drop_first();
        lemma_length_prefixed_first(nals, 4);
        lemma_annex_b_first(nals);
        big_endian_roundtrip(nal.len(), 4);
        assert(data.subrange(0, 4) =~= to_big_endian(nal.len(), 4));
        let next = 4 + nal.len() as int;
        assert(data.subrange(4, next) =~= nal);
        assert(data.subrange(next, data.len() as int) =~= length_prefixed(rest, 4));
        assert forall|k: int| 0 <= k < rest.len() implies (#[trigger] rest[k]).len()
            < byte_capacity(4) by {
            assert(rest[k] == nals[k + 1]);
        }
        in_place_agrees(rest);
    }
}

/// What is already Annex-B stays as it is under any prefix width.
pub proof fn annex_b_unchanged(data: Seq<u8>, nal_length_size: int)
    requires
        is_annex_b(data),
    ensures
        sample_as_annex_b(data, nal_length_size) == data,
{
}

/// The stream that a conversion produces is Annex-B, so converting twice changes nothing.
pub proof fn conversion_idempotent(data: Seq<u8>, nal_length_size: int)
    ensures
        sample_as_annex_b(sample_as_annex_b(data, nal_length_size), nal_length_size)
            == sample_as_annex_b(data, nal_length_size),
{
    let nals = sample_nals(data, 0, prefix_width(nal_length_size));
    if !is_annex_b(data) && nals.len() > 0 {
        lemma_annex_b_first(nals);
        assert(is_annex_b(annex_b(nals)));
    }
}

// Finding the video track

/// What a decoder needs to know of a file's H.264 track.
#[derive(Debug)]
pub struct VideoTrackInfo {
    /// The track's id, by which its packets are told apart.
    pub track_id: u32,
    /// The length of a clock tick of the track.
    pub time_base: TimeBase,
    /// The parameter sets as an Annex-B stream. Empty where the container has no `avcC`
    /// record.
    pub annexb_header: Vec<u8>,
    /// The width of the length prefixes in the track's samples.
    pub nal_length_size: usize,
}

#[verifier::ext_equal]
pub struct VideoTrackModel {
    pub track_id: u32,
    pub time_base: TimeBase,
    pub annexb_header: Seq<u8>,
    pub nal_length_size: usize,
}

impl View for VideoTrackInfo {
    type V = VideoTrackModel;

    open spec fn view(&self) -> VideoTrackModel {
        VideoTrackModel {
            track_id: self.track_id,
            time_base: self.time_base,
            annexb_header: self.annexb_header@,
            nal_length_size: self.nal_length_size,
        }
    }
}

/// The time base of a track that gives none: a thirtieth of a second.
pub open spec fn fallback_time_base() -> TimeBase {
    TimeBase { numer: 1, denom: 30 }
}

fn default_time_base() -> (r: TimeBase)
    ensures
        r == fallback_time_base(),
{
    TimeBase::new(1, 30)
}

/// The condition of being an H.264 track of known size.
pub open spec fn usable() -> spec_fn(MediaTrack) -> bool {
    |t: MediaTrack|
        t.params matches TrackParams::Video(v) && v.is_h264 && v.width is Some && v.height is Some
}

/// What an `avcC` record says, if it can be parsed and the prefix width is one that samples
/// have: one, two or four bytes.
pub open spec fn usable_record(avcc: Seq<u8>) -> Option<(Seq<u8>, int)> {
    match avcc_contents(avcc) {
        Some((header, width)) if width != 3 => Some((header, width)),
        _ => None,
    }
}

/// The parameter sets and the prefix width from the last `avcC` record that can be used;
/// nothing and four bytes where there is none.
pub open spec fn priming(extra: Seq<ExtraData>) -> (Seq<u8>, int)
    decreases extra.len(),
{
    if extra.len() == 0 {
        (Seq::empty(), 4)
    } else {
        let last = extra.last();
        match usable_record(last.data@) {
            Some(found) if last.is_avc_config => found,
            _ => priming(extra.drop_last()),
        }
    }
}

/// The first H.264 track of known size, with its parameter sets.
pub open spec fn video_track(tracks: Seq<MediaTrack>) -> Option<VideoTrackModel> {
    match crate::search::first_where(tracks, usable()) {
        Some(i) => {
            let t = tracks[i];
            let (header, width) = priming(t.params->Video_0.extra_data@);
            Some(
                VideoTrackModel {
                    track_id: t.id,
                    time_base: match t.time_base {
                        Some(tb) => tb,
                        None => fallback_time_base(),
                    },
                    annexb_header: header,
                    nal_length_size: width as usize,
                },
            )
        },
        None => None,
    }
}

fn find_priming(extra: &Vec<ExtraData>) -> (r: (Vec<u8>, usize))
    ensures
        r.0@ == priming(extra@).0,
        r.1 == priming(extra@).1,
        r.1 == 1 || r.1 == 2 || r.1 == 4,
{
    let mut header: Vec<u8> = Vec::new();
    let mut width: usize = 4;
    let mut i: usize = 0;
    assert(extra@.take(0) =~= Seq::empty());
    assert(header@ =~= Seq::empty());
    while i < extra.len()
        invariant
            i <= extra@.len(),
            header@ == priming(extra@.take(i as int)).0,
            width == priming(extra@.take(i as int)).1,
            width == 1 || width == 2 || width == 4,
        decreases extra@.len() - i,
    {
        proof {
            assert(extra@.take(i + 1).drop_last() =~= extra@.take(i as int));
            assert(extra@.take(i + 1).last() == extra@[i as int]);
        }
        if extra[i].is_avc_config {
            if let Some((h, w)) = parse_avcc(extra[i].data.as_slice()) {
                if w != 3 {
                    header = h;
                    width = w;
                }
            }
        }
        i += 1;
    }
    assert(extra@.take(i as int) =~= extra@);
    (header, width)
}

/// Finds the first H.264 track of known size and gathers what a decoder needs: its id, its
/// time base, its parameter sets and the width of its length prefixes.
pub fn find_video_track(tracks: &Vec<MediaTrack>) -> (r: Option<VideoTrackInfo>)
    ensures
        match r {
            Some(info) => video_track(tracks@) == Some(info@),
            None => video_track(tracks@) is None,
        },
        r matches Some(info) ==> info.nal_length_size == 1 || info.nal_length_size == 2
            || info.nal_length_size == 4,
{
    let mut i: usize = 0;
    while i < tracks.len()
        invariant
            i <= tracks@.len(),
            forall|j: int| 0 <= j < i ==> !usable()(#[trigger] tracks@[j]),
        decreases tracks@.len() - i,
    {
        let t: &MediaTrack = &tracks[i];
        if let TrackParams::Video(v) = &t.params {
            if v.is_h264 && v.width.is_some() && v.height.is_some() {
                proof {
                    crate::search::lemma_first_where_at(tracks@, usable(), i as int);
                }
                let (annexb_header, nal_length_size) = find_priming(&v.extra_data);
                let time_base: TimeBase = match t.time_base {
                    Some(tb) => tb,
                    None => default_time_base(),
                };
                return Some(
                    VideoTrackInfo { track_id: t.id, time_base, annexb_header, nal_length_size },
                );
            }
        }
        i += 1;
    }
    proof {
        crate::search::lemma_first_where_at(tracks@, usable(), i as int);
    }
    None
}

// The encoder's bit rate

/// Bits per second for a picture size, a frame rate and a quality in thousandths: a tenth
/// of a bit for each pixel of a second, scaled by the quality and kept within bounds.
pub open spec fn bitrate(width: int, height: int, fps: int, quality: int) -> int {
    let rate = if fps < 1 {
        1
    } else {
        fps
    };
    let pixels = width * height * rate;
    let base = (if pixels > u64::MAX {
        u64::MAX as int
    } else {
        pixels
    }) / 10;
    let scale = if quality < 100 {
        100
    } else if quality > 8_000 {
        8_000
    } else {
        quality
    };
    let scaled = base * scale / 1_000;
    if scaled < 500_000 {
        500_000
    } else if scaled > 80_000_000 {
        80_000_000
    } else {
        scaled
    }
}

/// The bit rate for a picture size, a frame rate and a quality in thousandths.
pub fn encoder_bitrate(width: u32, height: u32, fps: u32, quality: u32) -> (r: u32)
    ensures
        r == bitrate(width as int, height as int, fps as int, quality as int),
        500_000 <= r <= 80_000_000,
{
    let rate: u32 = if fps < 1 {
        1
    } else {
        fps
    };
    proof {
        let (a, b, c) = (width as int, height as int, rate as int);
        assert(0 <= a * b <= 0xffff_ffff * 0xffff_ffff) by (nonlinear_arith)
            requires
                0 <= a <= 0xffff_ffff,
                0 <= b <= 0xffff_ffff,
        ;
        assert(0 <= (a * b) * c <= 0xffff_ffff * 0xffff_ffff * 0xffff_ffff) by (nonlinear_arith)
            requires
                0 <= a * b <= 0xffff_ffff * 0xffff_ffff,
                0 <= c <= 0xffff_ffff,
        ;
    }
    let pixels: u128 = width as u128 * height as u128 * rate as u128;
    let base: u128 = (if pixels > u64::MAX as u128 {
        u64::MAX as u128
    } else {
        pixels
    }) / 10;
    let scale: u128 = if quality < 100 {
        100
    } else if quality > 8_000 {
        8_000
    } else {
        quality as u128
    };
    proof {
        let (a, b) = (base as int, scale as int);
        assert(0 <= a * b <= 0xffff_ffff_ffff_ffff * 8_000) by (nonlinear_arith)
            requires
                0 <= a <= 0xffff_ffff_ffff_ffff,
                0 <= b <= 8_000,
        ;
    }
    let scaled: u128 = base * scale / 1_000;
    if scaled < 500_000 {
        500_000
    } else if scaled > 80_000_000 {
        80_000_000
    } else {
        scaled as u32
    }
}

/// More quality never lowers the bit rate.
pub proof fn bitrate_grows_with_quality(width: int, height: int, fps: int, low: int, high: int)
    requires
        width >= 0,
        height >= 0,
        low <= high,
    ensures
        bitrate(width, height, fps, low) <= bitrate(width, height, fps, high),
{
    let rate = if fps < 1 {
        1
    } else {
        fps
    };
    let pixels = width * height * rate;
    assert(pixels >= 0) by (nonlinear_arith)
        requires
            pixels == width * height * rate,
            width >= 0,
            height >= 0,
            rate >= 1,
    ;
    let base = (if pixels > u64::MAX {
        u64::MAX as int
    } else {
        pixels
    }) / 10;
    let a = if low < 100 {
        100
    } else if low > 8_000 {
        8_000
    } else {
        low
    };
    let b = if high < 100 {
        100
    } else if high > 8_000 {
        8_000
    } else {
        high
    };
    assert(base * a <= base * b) by (nonlinear_arith)
        requires
            base >= 0,
            a <= b,
    ;
}

} // verus!
