//! What the library promises of media files.

use crate::laws::view::content_ends;
use crate::media::{ExtraData, MediaAsset, MediaTrack, OpenFailure, TrackParams};
use crate::status::Status;
use crate::time::{FrameRate, TimeBase};
use vstd::prelude::*;

verus! {

// Clocks

/// Whether `t` is the time of so many ticks, rounded down to a nanosecond.
pub open spec fn is_time_of_ticks(base: TimeBase, ticks: int, t: int) -> bool {
    t * base.denom <= ticks * base.numer * 1_000_000_000 < (t + 1) * base.denom
}

/// The time of a tick is as many tick lengths behind zero as its number says.
pub proof fn ticks_have_their_time(base: TimeBase, ticks: int, t: int)
    requires
        base.numer > 0,
        base.denom > 0,
    ensures
        is_time_of_ticks(base, ticks, base.instant(ticks)),
        is_time_of_ticks(base, ticks, t) ==> base.instant(ticks) == t,
{
    let n = ticks * base.numer * 1_000_000_000;
    let d = base.denom as int;
    let q = n / d;
    vstd::arithmetic::div_mod::lemma_fundamental_div_mod(n, d);
    assert(d * q == q * d) by (nonlinear_arith);
    assert((q + 1) * d == q * d + d) by (nonlinear_arith);
    if is_time_of_ticks(base, ticks, t) {
        assert((t + 1) * d == t * d + d) by (nonlinear_arith);
        vstd::arithmetic::div_mod::lemma_fundamental_div_mod_converse(n, d, t, n - t * d);
    }
}

/// A number stays as it is within the range of its type, and else becomes the nearer limit.
pub proof fn numbers_are_brought_into_range(v: int)
    ensures
        i64::MIN <= v <= i64::MAX ==> crate::time::saturated_i64(v) == v,
        v < i64::MIN ==> crate::time::saturated_i64(v) == i64::MIN,
        v > i64::MAX ==> crate::time::saturated_i64(v) == i64::MAX,
        0 <= v <= usize::MAX ==> crate::time::saturated_usize(v) == v,
        v < 0 ==> crate::time::saturated_usize(v) == 0,
        v > usize::MAX ==> crate::time::saturated_usize(v) == usize::MAX,
{
}

/// A quotient that is rounded toward zero is no farther from zero than the exact one, and less
/// than one away from it.
pub proof fn quotients_are_rounded_toward_zero(a: int, b: int)
    requires
        b > 0,
    ensures
        ({
            let q = crate::time::truncated_quotient(a, b);
            if a >= 0 {
                0 <= q && q * b <= a < (q + 1) * b
            } else {
                q <= 0 && (q - 1) * b < a <= q * b
            }
        }),
{
    let n = if a >= 0 {
        a
    } else {
        -a
    };
    let q = n / b;
    vstd::arithmetic::div_mod::lemma_fundamental_div_mod(n, b);
    vstd::arithmetic::div_mod::lemma_div_pos_is_pos(n, b);
    assert(b * q == q * b) by (nonlinear_arith);
    assert((q + 1) * b == q * b + b) by (nonlinear_arith);
    assert((-q - 1) * b == -(q * b) - b) by (nonlinear_arith);
    assert((-q) * b == -(q * b)) by (nonlinear_arith);
}

/// The frame rate of a track is that of its ticks where these are between one and 240 to a
/// second; else it is thirty.
pub proof fn only_plausible_frame_rates_are_believed(base: Option<TimeBase>)
    ensures
        ({
            let fps = FrameRate::implied_by(base);
            match base {
                Some(b) => if b.numer <= b.denom && b.denom <= 240 * b.numer {
                    fps.num == b.denom && fps.den == b.numer
                } else {
                    fps.num == 30 && fps.den == 1
                },
                None => fps.num == 30 && fps.den == 1,
            }
        }),
{
}

// Describing a file

/// Whether a track plays for `length`, as its container tells; nothing where it does not.
pub open spec fn lasts(t: MediaTrack, length: int) -> bool {
    match (t.time_base, t.duration) {
        (Some(base), Some(ticks)) => is_time_of_ticks(base, ticks as int, length),
        _ => length == 0,
    }
}

/// Tracks last as long as their container tells.
pub proof fn tracks_last_as_told(t: MediaTrack, length: int)
    requires
        t.wf(),
        lasts(t, length),
        length <= i64::MAX,
    ensures
        t.length() == length,
{
    match (t.time_base, t.duration) {
        (Some(base), Some(ticks)) => {
            ticks_have_their_time(base, ticks as int, length);
            let n = ticks * base.numer * 1_000_000_000;
            assert(n >= 0) by (nonlinear_arith)
                requires
                    n == ticks * base.numer * 1_000_000_000,
                    ticks >= 0,
                    base.numer >= 0,
            ;
            vstd::arithmetic::div_mod::lemma_div_pos_is_pos(n, base.denom as int);
        },
        _ => {},
    }
}

/// Whether the track `i` is the first video track.
pub open spec fn is_first_video(tracks: Seq<MediaTrack>, i: int) -> bool {
    0 <= i < tracks.len() && tracks[i].params is Video && forall|j: int|
        0 <= j < i ==> !((#[trigger] tracks[j]).params is Video)
}

/// Whether the track `i` is the first audio track.
pub open spec fn is_first_audio(tracks: Seq<MediaTrack>, i: int) -> bool {
    0 <= i < tracks.len() && tracks[i].params is Audio && forall|j: int|
        0 <= j < i ==> !((#[trigger] tracks[j]).params is Audio)
}

proof fn lemma_firsts(tracks: Seq<MediaTrack>)
    ensures
        match crate::media::first_video(tracks) {
            Some(v) => is_first_video(tracks, v),
            None => forall|i: int| 0 <= i < tracks.len() ==> !((#[trigger] tracks[i]).params is Video),
        },
        match crate::media::first_audio(tracks) {
            Some(a) => is_first_audio(tracks, a),
            None => forall|i: int| 0 <= i < tracks.len() ==> !((#[trigger] tracks[i]).params is Audio),
        },
{
    let video = |t: MediaTrack| t.params is Video;
    let audio = |t: MediaTrack| t.params is Audio;
    crate::search::first_where_is_first(tracks, video);
    crate::search::first_where_is_first(tracks, audio);
    assert forall|i: int| 0 <= i < tracks.len() implies video(#[trigger] tracks[i]) == (
    tracks[i].params is Video) && audio(tracks[i]) == (tracks[i].params is Audio) by {}
    match crate::media::first_video(tracks) {
        Some(v) => {
            assert(video(tracks[v]));
            assert forall|j: int| 0 <= j < v implies !((#[trigger] tracks[j]).params is Video) by {
                assert(!video(tracks[j]));
            }
        },
        None => {
            assert forall|j: int| 0 <= j < tracks.len() implies !((
            #[trigger] tracks[j]).params is Video) by {
                assert(!video(tracks[j]));
            }
        },
    }
    match crate::media::first_audio(tracks) {
        Some(v) => {
            assert(audio(tracks[v]));
            assert forall|j: int| 0 <= j < v implies !((#[trigger] tracks[j]).params is Audio) by {
                assert(!audio(tracks[j]));
            }
        },
        None => {
            assert forall|j: int| 0 <= j < tracks.len() implies !((
            #[trigger] tracks[j]).params is Audio) by {
                assert(!audio(tracks[j]));
            }
        },
    }
}

/// An asset goes on video tracks exactly where its file has a video track. It has the size and
/// the frame rate of the first of these, and the channels and the sample rate of the first
/// audio track; what a file does not have or does not tell is zero.
pub proof fn assets_are_what_their_tracks_are(
    asset: MediaAsset,
    tracks: Seq<MediaTrack>,
    i: int,
)
    requires
        asset.described_by(tracks),
        0 <= i < tracks.len(),
    ensures
        tracks[i].params is Video ==> asset.is_video,
        asset.is_video ==> exists|v: int|
            0 <= v < tracks.len() && (#[trigger] tracks[v]).params is Video,
        asset.duration == crate::media::media_length(tracks),
        !asset.is_image,
        asset.audio_samples is None,
        is_first_video(tracks, i) ==> {
            let p = tracks[i].params->Video_0;
            &&& p.width matches Some(n) ==> asset.width == n
            &&& p.width is None ==> asset.width == 0
            &&& p.height matches Some(n) ==> asset.height == n
            &&& p.height is None ==> asset.height == 0
            &&& asset.fps == FrameRate::implied_by(tracks[i].time_base)
        },
        !asset.is_video ==> asset.width == 0 && asset.height == 0 && asset.fps.num == 0
            && asset.fps.den == 1,
        is_first_audio(tracks, i) ==> {
            let p = tracks[i].params->Audio_0;
            &&& p.channels matches Some(n) ==> asset.audio_channels == n
            &&& p.channels is None ==> asset.audio_channels == 0
            &&& p.sample_rate matches Some(n) ==> asset.audio_sample_rate == n
            &&& p.sample_rate is None ==> asset.audio_sample_rate == 0
        },
        (forall|a: int| 0 <= a < tracks.len() ==> !((#[trigger] tracks[a]).params is Audio))
            ==> asset.audio_channels == 0 && asset.audio_sample_rate == 0,
{
    lemma_firsts(tracks);
    match crate::media::first_video(tracks) {
        Some(v) => {
            assert(tracks[v].params is Video);
        },
        None => {},
    }
}

/// A file is as long as its first video track, or its first audio track where it has no video.
/// Where that tells nothing it is as long as its longest track.
pub proof fn files_are_as_long_as_their_tracks(tracks: Seq<MediaTrack>, i: int, length: int)
    requires
        forall|k: int| 0 <= k < tracks.len() ==> (#[trigger] tracks[k]).wf(),
        0 <= i < tracks.len(),
        lasts(tracks[i], length),
        length <= i64::MAX,
    ensures
        is_first_video(tracks, i) && length > 0 ==> crate::media::media_length(tracks) == length,
        is_first_audio(tracks, i) && length > 0 && (forall|v: int|
            0 <= v < tracks.len() ==> !((#[trigger] tracks[v]).params is Video))
            ==> crate::media::media_length(tracks) == length,
        is_first_video(tracks, i) && length == 0 ==> crate::media::media_length(tracks)
            == crate::media::longest(tracks),
        crate::media::longest(tracks) >= length,
{
    lemma_firsts(tracks);
    tracks_last_as_told(tracks[i], length);
    the_longest_track_is_as_long_as_any(tracks);
    assert(tracks[i].length() <= crate::media::longest(tracks));
}

/// No track is longer than the longest, which is one of them unless all tell nothing.
pub proof fn the_longest_track_is_as_long_as_any(tracks: Seq<MediaTrack>)
    ensures
        forall|i: int|
            0 <= i < tracks.len() ==> (#[trigger] tracks[i]).length() <= crate::media::longest(
                tracks,
            ),
        crate::media::longest(tracks) == 0 || exists|i: int|
            0 <= i < tracks.len() && (#[trigger] tracks[i]).length() == crate::media::longest(
                tracks,
            ),
    decreases tracks.len(),
{
    if tracks.len() > 0 {
        let front = tracks.drop_last();
        the_longest_track_is_as_long_as_any(front);
        let all = crate::media::longest(tracks);
        assert(tracks[tracks.len() - 1] == tracks.last());
        assert forall|i: int| 0 <= i < tracks.len() implies (#[trigger] tracks[i]).length()
            <= all by {
            if i < front.len() {
                assert(front[i] == tracks[i]);
            }
        }
        if all != 0 {
            if all == crate::media::longest(front) && all != tracks.last().length() {
                let i = choose|i: int|
                    0 <= i < front.len() && (#[trigger] front[i]).length() == crate::media::longest(
                        front,
                    );
                assert(tracks[i].length() == all);
            } else {
                assert(tracks[tracks.len() - 1].length() == all);
            }
        }
    }
}

// The H.264 track

/// Whether a track can be decoded: it is an H.264 track of known size.
pub open spec fn can_be_decoded(t: MediaTrack) -> bool {
    t.params matches TrackParams::Video(v) && v.is_h264 && v.width is Some && v.height is Some
}

/// Whether a block is an `avcC` record that can be used: it can be parsed, and its prefixes
/// have one, two or four bytes.
pub open spec fn can_prime(e: ExtraData) -> bool {
    &&& e.is_avc_config
    &&& crate::codec::avcc_contents(e.data@) matches Some((_, width))
    &&& width != 3
}

/// The parameter sets and the prefix width come from the last record that can be used. Without
/// one there are no parameter sets, and prefixes have four bytes.
pub proof fn the_last_usable_record_counts(extra: Seq<ExtraData>, i: int)
    ensures
        0 <= i < extra.len() && can_prime(extra[i]) && (forall|j: int|
            i < j < extra.len() ==> !can_prime(#[trigger] extra[j])) ==> Some(
            crate::codec::priming(extra),
        ) == crate::codec::avcc_contents(extra[i].data@),
        (forall|j: int| 0 <= j < extra.len() ==> !can_prime(#[trigger] extra[j]))
            ==> crate::codec::priming(extra).0.len() == 0 && crate::codec::priming(extra).1 == 4,
    decreases extra.len(),
{
    if extra.len() > 0 {
        let front = extra.drop_last();
        the_last_usable_record_counts(front, i);
        assert(extra.last() == extra[extra.len() - 1]);
        assert forall|j: int| 0 <= j < front.len() implies #[trigger] front[j] == extra[j] by {}
        if i < extra.len() - 1 && 0 <= i && !can_prime(extra.last()) && can_prime(extra[i]) && (
        forall|j: int| i < j < extra.len() ==> !can_prime(#[trigger] extra[j])) {
            assert forall|j: int| i < j < front.len() implies !can_prime(#[trigger] front[j]) by {
                assert(!can_prime(extra[j]));
            }
        }
        if forall|j: int| 0 <= j < extra.len() ==> !can_prime(#[trigger] extra[j]) {
            assert(!can_prime(extra[extra.len() - 1]));
            assert forall|j: int| 0 <= j < front.len() implies !can_prime(#[trigger] front[j]) by {
                assert(!can_prime(extra[j]));
            }
        }
    }
}

/// The video of a file is its first track that can be decoded, by its own id and clock; a track
/// without a clock has thirty ticks to a second. There is none only where no track can be
/// decoded.
pub proof fn the_first_decodable_track_is_taken(tracks: Seq<MediaTrack>, i: int)
    ensures
        0 <= i < tracks.len() && can_be_decoded(tracks[i]) && (forall|j: int|
            0 <= j < i ==> !can_be_decoded(#[trigger] tracks[j])) ==> {
            &&& crate::codec::video_track(tracks) matches Some(t)
            &&& t.track_id == tracks[i].id
            &&& tracks[i].time_base matches Some(b) ==> t.time_base == b
            &&& tracks[i].time_base is None ==> t.time_base.numer == 1 && t.time_base.denom == 30
            &&& t.annexb_header == crate::codec::priming(
                tracks[i].params->Video_0.extra_data@,
            ).0
            &&& t.nal_length_size == crate::codec::priming(
                tracks[i].params->Video_0.extra_data@,
            ).1 as usize
        },
        (forall|j: int| 0 <= j < tracks.len() ==> !can_be_decoded(#[trigger] tracks[j]))
            ==> crate::codec::video_track(tracks) is None,
{
    let cond = crate::codec::usable();
    crate::search::first_where_is_first(tracks, cond);
    assert forall|j: int| 0 <= j < tracks.len() implies cond(#[trigger] tracks[j])
        == can_be_decoded(tracks[j]) by {}
    match crate::search::first_where(tracks, cond) {
        Some(k) => {
            assert(can_be_decoded(tracks[k]));
            assert forall|j: int| 0 <= j < k implies !can_be_decoded(#[trigger] tracks[j]) by {
                assert(!cond(tracks[j]));
            }
        },
        None => {
            assert forall|j: int| 0 <= j < tracks.len() implies !can_be_decoded(
                #[trigger] tracks[j],
            ) by {
                assert(!cond(tracks[j]));
            }
        },
    }
}

// Stream layout

/// An Annex-B stream is its NAL units one after the other, each behind the bytes 0, 0, 0, 1.
pub proof fn units_follow_start_codes(nals: Seq<Seq<u8>>, nal: Seq<u8>)
    ensures
        crate::codec::annex_b(Seq::empty()).len() == 0,
        crate::codec::annex_b(nals.push(nal)) == crate::codec::annex_b(nals) + seq![
            0u8,
            0u8,
            0u8,
            1u8,
        ] + nal,
{
    assert(nals.push(nal).drop_last() =~= nals);
}

/// Units with lengths stand one after the other, each behind its length, the most significant
/// byte first.
pub proof fn units_follow_their_lengths(nals: Seq<Seq<u8>>, nal: Seq<u8>, width: nat)
    requires
        nal.len() < crate::codec::byte_capacity(width),
    ensures
        crate::codec::length_prefixed(Seq::empty(), width).len() == 0,
        ({
            let before = crate::codec::length_prefixed(nals, width);
            let all = crate::codec::length_prefixed(nals.push(nal), width);
            &&& all.len() == before.len() + width + nal.len()
            &&& all.subrange(0, before.len() as int) == before
            &&& all.subrange((before.len() + width) as int, all.len() as int) == nal
            &&& crate::codec::big_endian(
                all.subrange(before.len() as int, (before.len() + width) as int),
            ) == nal.len()
        }),
{
    let before = crate::codec::length_prefixed(nals, width);
    let all = crate::codec::length_prefixed(nals.push(nal), width);
    assert(nals.push(nal).drop_last() =~= nals);
    crate::codec::big_endian_roundtrip(nal.len(), width);
    assert(all.subrange(0, before.len() as int) =~= before);
    assert(all.subrange((before.len() + width) as int, all.len() as int) =~= nal);
    assert(all.subrange(before.len() as int, (before.len() + width) as int)
        =~= crate::codec::to_big_endian(nal.len(), width));
}

/// A number is read with the most significant byte first.
pub proof fn numbers_are_read_from_the_top(bytes: Seq<u8>, b: u8)
    ensures
        crate::codec::big_endian(Seq::empty()) == 0,
        crate::codec::big_endian(bytes.push(b)) == crate::codec::big_endian(bytes) * 256 + b,
        crate::codec::byte_capacity(0) == 1,
        crate::codec::byte_capacity(1) == 256,
        crate::codec::byte_capacity(2) == 65_536,
        crate::codec::byte_capacity(4) == 4_294_967_296,
{
    assert(bytes.push(b).drop_last() =~= bytes);
    reveal_with_fuel(crate::codec::byte_capacity, 5);
}

proof fn lemma_nals_read(data: Seq<u8>, pos: int, count: nat)
    requires
        0 <= pos <= data.len(),
    ensures
        crate::codec::read_nals(data, pos, count) matches Some((nals, p)) ==> {
            &&& nals.len() == count
            &&& pos <= p <= data.len()
            &&& data.subrange(pos, p) == crate::codec::length_prefixed(nals, 2)
        },
    decreases count,
{
    if count == 0 {
        assert(data.subrange(pos, pos) =~= Seq::empty());
    } else {
        lemma_nals_read(data, pos, (count - 1) as nat);
        if let Some((front, q)) = crate::codec::read_nals(data, pos, (count - 1) as nat) {
            if let Some((nals, p)) = crate::codec::read_nals(data, pos, count) {
                let head = data.subrange(q, q + 2);
                let n = crate::codec::big_endian(head);
                lemma_two_bytes(head);
                let nal = data.subrange(q + 2, q + 2 + n);
                assert(nals == front.push(nal));
                assert(nals.drop_last() =~= front);
                assert(data.subrange(pos, p) =~= data.subrange(pos, q) + head + nal);
            }
        }
    }
}

proof fn lemma_two_bytes(b: Seq<u8>)
    requires
        b.len() == 2,
    ensures
        crate::codec::to_big_endian(crate::codec::big_endian(b), 2) == b,
{
    reveal_with_fuel(crate::codec::big_endian, 3);
    reveal_with_fuel(crate::codec::to_big_endian, 3);
    let n = crate::codec::big_endian(b);
    assert(n == b[0] * 256 + b[1]);
    assert(n / 256 == b[0] && n % 256 == b[1]);
    assert(b[0] as nat % 256 == b[0] as nat);
    assert(crate::codec::to_big_endian(n, 2) =~= b);
}

/// What is read from an `avcC` record is what stands there: a version of one, the prefix width
/// in the lowest two bits of the fifth byte, as many SPS as the lowest five bits of the sixth
/// byte say, and, unless the record ends there, as many PPS as the next byte says, each behind
/// its length in two bytes. From a record that is shorter nothing is read, nor from one without
/// any set.
pub proof fn records_are_read_as_they_stand(avcc: Seq<u8>) -> (sets: (Seq<Seq<u8>>, Seq<Seq<u8>>))
    ensures
        crate::codec::avcc_contents(avcc) matches Some((header, width)) ==> {
            let (sps, pps) = sets;
            let p = 6 + crate::codec::length_prefixed(sps, 2).len() as int;
            let q = p + 1 + crate::codec::length_prefixed(pps, 2).len() as int;
            &&& avcc.len() >= 7
            &&& avcc[0] == 1
            &&& width == (avcc[4] & 0x03) + 1
            &&& sps.len() == (avcc[5] & 0x1f)
            &&& p <= avcc.len()
            &&& avcc.subrange(6, p) == crate::codec::length_prefixed(sps, 2)
            &&& if p < avcc.len() {
                &&& pps.len() == avcc[p]
                &&& q <= avcc.len()
                &&& avcc.subrange(p + 1, q) == crate::codec::length_prefixed(pps, 2)
            } else {
                pps.len() == 0
            }
            &&& sps.len() + pps.len() > 0
            &&& header == crate::codec::annex_b(sps + pps)
        },
{
    if crate::codec::avcc_contents(avcc) is Some {
        lemma_nals_read(avcc, 6, (avcc[5] & 0x1f) as nat);
        let (sps, p) = crate::codec::read_nals(avcc, 6, (avcc[5] & 0x1f) as nat)->0;
        assert(avcc.subrange(6, p).len() == p - 6);
        if p < avcc.len() {
            lemma_nals_read(avcc, p + 1, avcc[p] as nat);
            let (pps, q) = crate::codec::read_nals(avcc, p + 1, avcc[p] as nat)->0;
            assert(avcc.subrange(p + 1, q).len() == q - (p + 1));
            (sps, pps)
        } else {
            assert(sps + Seq::<Seq<u8>>::empty() =~= sps);
            (sps, Seq::empty())
        }
    } else {
        (Seq::empty(), Seq::empty())
    }
}

/// A sample is converted unit by unit from its beginning: nothing is left out, nothing is added
/// and the order stays, up to the first unit that is empty or cut off.
pub proof fn samples_are_read_as_they_stand(data: Seq<u8>, from: int, width: nat)
    requires
        1 <= width <= 4,
        0 <= from <= data.len(),
    ensures
        ({
            let nals = crate::codec::sample_nals(data, from, width as int);
            let end = from + framed_length(nals, width);
            &&& end <= data.len()
            &&& end + width <= data.len() ==> {
                let n = crate::codec::big_endian(data.subrange(end, end + width));
                n == 0 || end + width + n > data.len()
            }
            &&& nals.len() > 0 ==> {
                &&& crate::codec::big_endian(data.subrange(from, from + width)) == nals[0].len()
                &&& data.subrange(from + width, from + width + nals[0].len()) == nals[0]
                &&& nals[0].len() > 0
                &&& nals.drop_first() == crate::codec::sample_nals(
                    data,
                    (from + width + nals[0].len()) as int,
                    width as int,
                )
            }
        }),
    decreases data.len() - from,
{
    let nals = crate::codec::sample_nals(data, from, width as int);
    if nals.len() > 0 {
        let n = crate::codec::big_endian(data.subrange(from, from + width));
        let next = from + width + n;
        samples_are_read_as_they_stand(data, next, width);
        let rest = crate::codec::sample_nals(data, next, width as int);
        assert(nals.drop_first() =~= rest);
        assert(nals[0] == data.subrange(from + width, next));
    }
}

/// How many bytes units take up behind lengths of the given width.
pub open spec fn framed_length(nals: Seq<Seq<u8>>, width: nat) -> int
    decreases nals.len(),
{
    if nals.len() == 0 {
        0
    } else {
        width + nals[0].len() + framed_length(nals.drop_first(), width)
    }
}

/// What begins with a start code of three or four bytes stays as it is, and so does what holds
/// no unit. All else becomes its units behind start codes. A prefix width below one counts as
/// one, and above four as four.
pub proof fn samples_become_streams(data: Seq<u8>, width: int)
    ensures
        ({
            let r = crate::codec::sample_as_annex_b(data, width);
            let w = if width < 1 {
                1
            } else if width > 4 {
                4
            } else {
                width
            };
            let nals = crate::codec::sample_nals(data, 0, w);
            let is_stream = data.len() >= 4 && data[0] == 0 && data[1] == 0 && (data[2] == 1
                || data[2] == 0 && data[3] == 1);
            &&& is_stream || nals.len() == 0 ==> r == data
            &&& !is_stream && nals.len() > 0 ==> r == crate::codec::annex_b(nals)
            &&& crate::codec::is_annex_b(data) == is_stream
        }),
{
}

/// Converting in place changes no length and nothing but lengths: the bytes of a unit stay
/// where they are, behind 0, 0, 0, 1.
pub proof fn converting_in_place_keeps_the_units(data: Seq<u8>)
    ensures
        crate::codec::start_codes_in_place(data).len() == data.len(),
        data.len() >= 4 && 4 + crate::codec::big_endian(data.subrange(0, 4)) <= data.len() ==> {
            let n = crate::codec::big_endian(data.subrange(0, 4)) as int;
            let r = crate::codec::start_codes_in_place(data);
            &&& r.subrange(0, 4) == seq![0u8, 0u8, 0u8, 1u8]
            &&& r.subrange(4, 4 + n) == data.subrange(4, 4 + n)
            &&& r.subrange(4 + n, data.len() as int) == crate::codec::start_codes_in_place(
                data.subrange(4 + n, data.len() as int),
            )
        },
        data.len() < 4 || 4 + crate::codec::big_endian(data.subrange(0, 4)) > data.len()
            ==> crate::codec::start_codes_in_place(data) == data,
    decreases data.len(),
{
    if data.len() >= 4 && 4 + crate::codec::big_endian(data.subrange(0, 4)) <= data.len() {
        let n = crate::codec::big_endian(data.subrange(0, 4)) as int;
        let rest = data.subrange(4 + n, data.len() as int);
        let r = crate::codec::start_codes_in_place(data);
        converting_in_place_keeps_the_units(rest);
        assert(r.subrange(0, 4) =~= seq![0u8, 0u8, 0u8, 1u8]);
        assert(r.subrange(4, 4 + n) =~= data.subrange(4, 4 + n));
        assert(r.subrange(4 + n, data.len() as int) =~= crate::codec::start_codes_in_place(rest));
    }
}

/// A decoder is fed the parameter sets of its track once, before anything else, where there are
/// any that it can take; and each sample as a stream.
pub proof fn decoders_are_fed_the_parameter_sets_first(header: Seq<u8>)
    ensures
        0 < header.len() <= i32::MAX ==> crate::h264::primed(header).len() == 1
            && crate::h264::primed(header)[0] == header,
        header.len() == 0 || header.len() > i32::MAX ==> crate::h264::primed(header).len() == 0,
{
}

// Sound files

/// A sound file says how long it is, and that it holds stereo sound at 44100 frames per second
/// in samples of sixteen bits. Numbers come with the lowest byte first.
pub proof fn sound_files_say_what_they_hold(bytes: nat)
    requires
        bytes + 36 <= u32::MAX,
    ensures
        ({
            let h = crate::audio::wav_header(bytes);
            &&& h.len() == 44
            &&& h.subrange(0, 4) == seq![0x52u8, 0x49, 0x46, 0x46]
            &&& h[4] + 256 * h[5] + 65_536 * h[6] + 16_777_216 * h[7] == bytes + 36
            &&& h.subrange(8, 12) == seq![0x57u8, 0x41, 0x56, 0x45]
            &&& h.subrange(12, 16) == seq![0x66u8, 0x6d, 0x74, 0x20]
            &&& h[16] + 256 * h[17] + 65_536 * h[18] + 16_777_216 * h[19] == 16
            &&& h[20] + 256 * h[21] == 1
            &&& h[22] + 256 * h[23] == 2
            &&& h[24] + 256 * h[25] + 65_536 * h[26] + 16_777_216 * h[27] == 44_100
            &&& h[28] + 256 * h[29] + 65_536 * h[30] + 16_777_216 * h[31] == 44_100 * 2 * 2
            &&& h[32] + 256 * h[33] == 2 * 2
            &&& h[34] + 256 * h[35] == 16
            &&& h.subrange(36, 40) == seq![0x64u8, 0x61, 0x74, 0x61]
            &&& h[40] + 256 * h[41] + 65_536 * h[42] + 16_777_216 * h[43] == bytes
        }),
{
    lemma_little_endian_four(bytes + 36);
    lemma_little_endian_four(16);
    lemma_little_endian_two(1);
    lemma_little_endian_two(2);
    lemma_little_endian_four(44_100);
    lemma_little_endian_four(176_400);
    lemma_little_endian_two(4);
    lemma_little_endian_two(16);
    lemma_little_endian_four(bytes);
    let h = crate::audio::wav_header(bytes);
    assert(h.subrange(0, 4) =~= seq![0x52u8, 0x49, 0x46, 0x46]);
    assert(h.subrange(8, 12) =~= seq![0x57u8, 0x41, 0x56, 0x45]);
    assert(h.subrange(12, 16) =~= seq![0x66u8, 0x6d, 0x74, 0x20]);
    assert(h.subrange(36, 40) =~= seq![0x64u8, 0x61, 0x74, 0x61]);
}

proof fn lemma_little_endian_four(v: nat)
    requires
        v <= u32::MAX,
    ensures
        ({
            let b = crate::audio::little_endian(v, 4);
            b.len() == 4 && b[0] + 256 * b[1] + 65_536 * b[2] + 16_777_216 * b[3] == v
        }),
{
    reveal_with_fuel(crate::audio::little_endian, 5);
    let b = crate::audio::little_endian(v, 4);
    assert(b[0] == v % 256 && b[1] == v / 256 % 256 && b[2] == v / 256 / 256 % 256 && b[3] == v
        / 256 / 256 / 256 % 256);
}

proof fn lemma_little_endian_two(v: nat)
    requires
        v <= 65_535,
    ensures
        ({
            let b = crate::audio::little_endian(v, 2);
            b.len() == 2 && b[0] + 256 * b[1] == v
        }),
{
    reveal_with_fuel(crate::audio::little_endian, 3);
    let b = crate::audio::little_endian(v, 2);
    assert(b[0] == v % 256 && b[1] == v / 256 % 256);
}

/// The mix of the whole timeline has all the frames that lie before the end of the last clip.
pub proof fn the_mix_covers_the_timeline(m: crate::editor::EditorModel, end: int)
    requires
        content_ends(m, 0, end),
    ensures
        m.mix_frames() * 1_000_000_000 <= end * 44_100 < (m.mix_frames() + 1) * 1_000_000_000,
{
    crate::laws::view::lemma_content_ends(m, 0, end);
}

/// A sample is fed to the decoder of its track as a stream, by the prefix width of the track.
pub proof fn samples_are_fed_as_streams(v: crate::h264::VideoDecoder, sample: Seq<u8>)
    ensures
        v.unit(sample) == crate::codec::sample_as_annex_b(
            sample,
            v.track().nal_length_size as int,
        ),
        v.wf() == (v.track().time_base.numer > 0 && v.track().time_base.denom > 0),
{
}

/// A new encoder was handed nothing, and what it gives are its bytes.
pub proof fn encoders_begin_with_nothing(bytes: Option<Vec<u8>>)
    ensures
        crate::h264::no_frames().len() == 0,
        bytes matches Some(b) ==> crate::h264::bytes_view(bytes) == Some(b@),
        bytes is None ==> crate::h264::bytes_view(bytes) is None,
{
}

// Lengths and messages

/// A still picture is shown for five seconds, and before the first frame of a file the last one
/// is long ago.
pub proof fn set_times()
    ensures
        crate::media::IMAGE_DURATION == 5 * 1_000_000_000,
        crate::seek::NEVER == -999 * 1_000_000_000,
{
}

/// What the user reads where something went wrong or is under way.
pub proof fn messages_say_what_happened(cause: String, other: String, text: Seq<char>)
    ensures
        crate::export::nothing_to_export() == "No video clips on the timeline to export."@,
        crate::export::wrap_failure() == "Failed to wrap decoded frame as ImageBuffer"@,
        crate::media::unnamed() == "unknown"@,
        crate::h264::is_encoder_failure(text) ==> text.take(
            "Failed to create H.264 encoder: "@.len() as int,
        ) == "Failed to create H.264 encoder: "@,
        OpenFailure::Open(cause).text() == "Failed to open file: "@ + cause@,
        OpenFailure::Probe(cause).text() == "Failed to probe file: "@ + cause@,
        Status::AudioFailed(cause).text() == "Audio decoding failed: "@ + cause@,
        Status::Exporting.text() == "Exporting..."@,
        Status::Exported(cause, other).text() == "Exported "@ + cause@ + " (audio: "@ + other@
            + ")"@,
        Status::ExportFailed(cause).text() == "Export failed: "@ + cause@,
        Status::RecordingStarted.text() == "Recording started..."@,
        Status::RecordingNotStarted(cause).text() == "Failed to start recording: "@ + cause@,
        Status::RecordingImported.text() == "Recording saved and imported!"@,
        Status::RecordingNotLoaded(cause).text() == "Failed to load recorded asset: "@ + cause@,
        Status::RecordingFailed(cause).text() == "Recording error: "@ + cause@,
{
}

/// The label of an asset gives its kind and its name, and says while its sound is decoded.
pub proof fn labels_name_the_asset(name: Seq<char>)
    ensures
        crate::status::asset_text(name, true, true) == "▶ Video"@ + " - "@ + name
            + " (Decoding Audio...)"@,
        crate::status::asset_text(name, false, true) == "♫ Audio"@ + " - "@ + name
            + " (Decoding Audio...)"@,
        crate::status::asset_text(name, true, false) == "▶ Video"@ + " - "@ + name,
        crate::status::asset_text(name, false, false) == "♫ Audio"@ + " - "@ + name,
{
    assert(crate::status::asset_text(name, true, false) =~= "▶ Video"@ + " - "@ + name);
    assert(crate::status::asset_text(name, false, false) =~= "♫ Audio"@ + " - "@ + name);
}

} // verus!
