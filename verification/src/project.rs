//! Project files: the whole timeline as bytes, and back.
//!
//! A project file is a run of numbers of eight bytes each, with the texts in between as
//! UTF-8. Media is referred to by its path. Decoded sound is not stored.

use crate::codec::big_endian_roundtrip;
use crate::editor::{Clip, EditTool, EditorModel, EditorState, Track, TrackModel};
use crate::media::MediaAsset;
use crate::time::FrameRate;
use std::path::PathBuf;
use vstd::prelude::*;
use vstd::string::*;

verus! {

/// What a project file begins with.
pub const PROJECT_MARK: u64 = 0x5349_4c4f_4355_5431;

/// A media file as a project refers to it.
#[derive(Debug)]
pub struct StoredAsset {
    pub id: usize,
    pub path: String,
    pub name: String,
    pub duration: i64,
    pub width: u32,
    pub height: u32,
    pub fps: FrameRate,
    pub is_video: bool,
    pub is_image: bool,
    pub audio_channels: u32,
    pub audio_sample_rate: u32,
}

#[verifier::ext_equal]
pub struct StoredAssetModel {
    pub id: usize,
    pub path: Seq<char>,
    pub name: Seq<char>,
    pub duration: i64,
    pub width: u32,
    pub height: u32,
    pub fps: FrameRate,
    pub is_video: bool,
    pub is_image: bool,
    pub audio_channels: u32,
    pub audio_sample_rate: u32,
}

impl View for StoredAsset {
    type V = StoredAssetModel;

    open spec fn view(&self) -> StoredAssetModel {
        StoredAssetModel {
            id: self.id,
            path: self.path@,
            name: self.name@,
            duration: self.duration,
            width: self.width,
            height: self.height,
            fps: self.fps,
            is_video: self.is_video,
            is_image: self.is_image,
            audio_channels: self.audio_channels,
            audio_sample_rate: self.audio_sample_rate,
        }
    }
}

/// A list of stored assets, each by its model.
pub open spec fn stored_view(assets: Seq<StoredAsset>) -> Seq<StoredAssetModel> {
    Seq::new(assets.len(), |i: int| assets[i]@)
}

/// What a project file holds.
#[derive(Debug)]
pub struct Project {
    pub assets: Vec<StoredAsset>,
    pub video_tracks: Vec<Track>,
    pub audio_tracks: Vec<Track>,
    pub playhead: i64,
    pub is_playing: bool,
    pub selected_tool: EditTool,
    pub selected_clip: Option<(bool, usize, usize)>,
    pub zoom_factor: i64,
    pub scroll_offset: i64,
    pub next_clip_id: usize,
    pub next_track_id: usize,
}

#[verifier::ext_equal]
pub struct ProjectModel {
    pub assets: Seq<StoredAssetModel>,
    pub video_tracks: Seq<TrackModel>,
    pub audio_tracks: Seq<TrackModel>,
    pub playhead: i64,
    pub is_playing: bool,
    pub selected_tool: EditTool,
    pub selected_clip: Option<(bool, usize, usize)>,
    pub zoom_factor: i64,
    pub scroll_offset: i64,
    pub next_clip_id: usize,
    pub next_track_id: usize,
}

impl View for Project {
    type V = ProjectModel;

    open spec fn view(&self) -> ProjectModel {
        ProjectModel {
            assets: stored_view(self.assets@),
            video_tracks: crate::editor::lane_view(self.video_tracks@),
            audio_tracks: crate::editor::lane_view(self.audio_tracks@),
            playhead: self.playhead,
            is_playing: self.is_playing,
            selected_tool: self.selected_tool,
            selected_clip: self.selected_clip,
            zoom_factor: self.zoom_factor,
            scroll_offset: self.scroll_offset,
            next_clip_id: self.next_clip_id,
            next_track_id: self.next_track_id,
        }
    }
}

// Numbers

/// A number in eight bytes, most significant byte first.
pub open spec fn word(n: u64) -> Seq<u8> {
    crate::codec::to_big_endian(n as nat, 8)
}

/// Numbers one after the other.
pub open spec fn words(ns: Seq<u64>) -> Seq<u8>
    decreases ns.len(),
{
    if ns.len() == 0 {
        Seq::empty()
    } else {
        words(ns.drop_last()) + word(ns.last())
    }
}

/// A time as a number: counted from the earliest time there is.
pub open spec fn time_word(t: i64) -> u64 {
    (t - i64::MIN) as u64
}

/// Yes and no as numbers.
pub open spec fn flag_word(b: bool) -> u64 {
    if b {
        1
    } else {
        0
    }
}

/// Items one after the other, each in its own form.
pub open spec fn joined<T>(items: Seq<T>, form: spec_fn(T) -> Seq<u8>) -> Seq<u8>
    decreases items.len(),
{
    if items.len() == 0 {
        Seq::empty()
    } else {
        joined(items.drop_last(), form) + form(items.last())
    }
}

// The parts of a file

/// The numbers of a clip.
pub open spec fn clip_words(c: Clip) -> Seq<u64> {
    seq![
        c.id as u64,
        c.asset_id as u64,
        time_word(c.timeline_start),
        time_word(c.timeline_end),
        time_word(c.source_trim_start),
        time_word(c.source_trim_end),
        time_word(c.fade_in_duration),
        time_word(c.fade_out_duration),
    ]
}

/// A clip as bytes.
pub open spec fn clip_form() -> spec_fn(Clip) -> Seq<u8> {
    |c: Clip| words(clip_words(c))
}

/// The numbers of a track: the last two say how many bytes its name and how many clips
/// follow.
pub open spec fn track_words(t: TrackModel) -> Seq<u64> {
    seq![
        t.id as u64,
        flag_word(t.is_video),
        flag_word(t.is_muted),
        flag_word(t.is_hidden),
        flag_word(t.is_solo),
        t.volume as u64,
        vstd::utf8::encode_utf8(t.name).len() as u64,
        t.clips.len() as u64,
    ]
}

/// A track as bytes.
pub open spec fn track_form() -> spec_fn(TrackModel) -> Seq<u8> {
    |t: TrackModel|
        words(track_words(t)) + vstd::utf8::encode_utf8(t.name) + joined(t.clips, clip_form())
}

/// Whether the lengths in a track are lengths that eight bytes can hold.
pub open spec fn track_fits() -> spec_fn(TrackModel) -> bool {
    |t: TrackModel|
        vstd::utf8::encode_utf8(t.name).len() <= u64::MAX && t.clips.len() <= u64::MAX
}

/// The numbers of an asset: the last two say how many bytes its path and its name take.
pub open spec fn asset_words(a: StoredAssetModel) -> Seq<u64> {
    seq![
        a.id as u64,
        time_word(a.duration),
        a.width as u64,
        a.height as u64,
        a.fps.num as u64,
        a.fps.den as u64,
        flag_word(a.is_video),
        flag_word(a.is_image),
        a.audio_channels as u64,
        a.audio_sample_rate as u64,
        vstd::utf8::encode_utf8(a.path).len() as u64,
        vstd::utf8::encode_utf8(a.name).len() as u64,
    ]
}

/// An asset as bytes.
pub open spec fn asset_form() -> spec_fn(StoredAssetModel) -> Seq<u8> {
    |a: StoredAssetModel|
        words(asset_words(a)) + vstd::utf8::encode_utf8(a.path) + vstd::utf8::encode_utf8(a.name)
}

/// Whether the lengths in an asset are lengths that eight bytes can hold.
pub open spec fn asset_fits() -> spec_fn(StoredAssetModel) -> bool {
    |a: StoredAssetModel|
        vstd::utf8::encode_utf8(a.path).len() <= u64::MAX && vstd::utf8::encode_utf8(a.name).len()
            <= u64::MAX
}

impl ProjectModel {
    /// The numbers that a file begins with.
    pub open spec fn head(self) -> Seq<u64> {
        let (chosen, is_video, track, clip) = match self.selected_clip {
            Some((v, t, c)) => (1u64, flag_word(v), t as u64, c as u64),
            None => (0u64, 0u64, 0u64, 0u64),
        };
        seq![
            PROJECT_MARK,
            time_word(self.playhead),
            flag_word(self.is_playing),
            flag_word(self.selected_tool == EditTool::Razor),
            chosen,
            is_video,
            track,
            clip,
            time_word(self.zoom_factor),
            time_word(self.scroll_offset),
            self.next_clip_id as u64,
            self.next_track_id as u64,
            self.assets.len() as u64,
            self.video_tracks.len() as u64,
            self.audio_tracks.len() as u64,
        ]
    }

    /// The project as the bytes of a file.
    pub open spec fn bytes(self) -> Seq<u8> {
        words(self.head()) + joined(self.assets, asset_form()) + joined(
            self.video_tracks,
            track_form(),
        ) + joined(self.audio_tracks, track_form())
    }

    /// Whether all lengths are lengths that eight bytes can hold.
    pub open spec fn fits(self) -> bool {
        &&& self.assets.len() <= u64::MAX
        &&& self.video_tracks.len() <= u64::MAX
        &&& self.audio_tracks.len() <= u64::MAX
        &&& forall|i: int| 0 <= i < self.assets.len() ==> asset_fits()(#[trigger] self.assets[i])
        &&& forall|i: int|
            0 <= i < self.video_tracks.len() ==> track_fits()(#[trigger] self.video_tracks[i])
        &&& forall|i: int|
            0 <= i < self.audio_tracks.len() ==> track_fits()(#[trigger] self.audio_tracks[i])
    }
}


// Reading numbers back

/// Whether `part` stands at `pos`.
spec fn holds_at(bytes: Seq<u8>, pos: int, part: Seq<u8>) -> bool {
    0 <= pos && pos + part.len() <= bytes.len() && bytes.subrange(pos, pos + part.len()) == part
}

/// The number at `pos`.
spec fn word_at(bytes: Seq<u8>, pos: int) -> u64 {
    crate::codec::big_endian(bytes.subrange(pos, pos + 8)) as u64
}

/// The `count` numbers from `pos` on.
spec fn words_at(bytes: Seq<u8>, pos: int, count: nat) -> Seq<u64> {
    Seq::new(count, |i: int| word_at(bytes, pos + 8 * i))
}

proof fn lemma_eight_bytes()
    ensures
        crate::codec::byte_capacity(8) == 0x1_0000_0000_0000_0000,
{
    reveal_with_fuel(crate::codec::byte_capacity, 9);
}

proof fn lemma_bytes_of_number(b: Seq<u8>)
    ensures
        crate::codec::big_endian(b) < crate::codec::byte_capacity(b.len()),
        crate::codec::to_big_endian(crate::codec::big_endian(b), b.len()) == b,
    decreases b.len(),
{
    if b.len() == 0 {
        assert(crate::codec::to_big_endian(crate::codec::big_endian(b), b.len()) =~= b);
    } else {
        let front = b.drop_last();
        lemma_bytes_of_number(front);
        let n = crate::codec::big_endian(b);
        assert(n / 256 == crate::codec::big_endian(front));
        assert(n % 256 == b.last());
        assert(crate::codec::to_big_endian(n, b.len()) =~= b);
    }
}

proof fn lemma_word(n: u64)
    ensures
        word(n).len() == 8,
        crate::codec::big_endian(word(n)) == n,
{
    lemma_eight_bytes();
    big_endian_roundtrip(n as nat, 8);
}

proof fn lemma_words_len(ns: Seq<u64>)
    ensures
        words(ns).len() == 8 * ns.len(),
    decreases ns.len(),
{
    if ns.len() > 0 {
        lemma_words_len(ns.drop_last());
        lemma_word(ns.last());
    }
}

/// The numbers that are read are the numbers that stand there.
proof fn lemma_words_read(bytes: Seq<u8>, pos: int, count: nat)
    requires
        0 <= pos,
        pos + 8 * count <= bytes.len(),
    ensures
        holds_at(bytes, pos, words(words_at(bytes, pos, count))),
        words(words_at(bytes, pos, count)).len() == 8 * count,
    decreases count,
{
    let ns = words_at(bytes, pos, count);
    lemma_words_len(ns);
    if count == 0 {
        assert(bytes.subrange(pos, pos) =~= words(ns));
    } else {
        let less = (count - 1) as nat;
        lemma_words_read(bytes, pos, less);
        assert(ns.drop_last() =~= words_at(bytes, pos, less));
        let at = pos + 8 * less;
        let piece = bytes.subrange(at, at + 8);
        lemma_bytes_of_number(piece);
        lemma_eight_bytes();
        assert(word(ns.last()) == piece);
        assert(bytes.subrange(pos, pos + 8 * count) =~= bytes.subrange(pos, at) + piece);
    }
}

/// Where numbers stand, those numbers are read.
proof fn lemma_words_found(bytes: Seq<u8>, pos: int, ns: Seq<u64>)
    requires
        holds_at(bytes, pos, words(ns)),
    ensures
        words_at(bytes, pos, ns.len()) == ns,
        words(ns).len() == 8 * ns.len(),
    decreases ns.len(),
{
    lemma_words_len(ns);
    if ns.len() == 0 {
        assert(words_at(bytes, pos, 0) =~= ns);
    } else {
        let front = ns.drop_last();
        lemma_words_len(front);
        let at = pos + 8 * front.len();
        let all = words(ns);
        lemma_word(ns.last());
        assert(bytes.subrange(pos, at) =~= all.subrange(0, 8 * front.len() as int));
        assert(all.subrange(0, 8 * front.len() as int) =~= words(front));
        lemma_words_found(bytes, pos, front);
        assert(bytes.subrange(at, at + 8) =~= all.subrange(
            8 * front.len() as int,
            8 * front.len() as int + 8,
        ));
        assert(all.subrange(8 * front.len() as int, 8 * front.len() as int + 8) =~= word(ns.last()));
        assert(word_at(bytes, at) == ns.last());
        assert forall|i: int| 0 <= i < ns.len() implies words_at(bytes, pos, ns.len())[i]
            == ns[i] by {
            if i < front.len() {
                assert(words_at(bytes, pos, front.len())[i] == front[i]);
            }
        }
        assert(words_at(bytes, pos, ns.len()) =~= ns);
    }
}

/// Appends the lowest `width` bytes of a number.
fn push_number(out: &mut Vec<u8>, value: u64, width: usize)
    ensures
        final(out)@ == old(out)@ + crate::codec::to_big_endian(value as nat, width as nat),
    decreases width,
{
    if width > 0 {
        push_number(out, value / 256, width - 1);
        out.push((value % 256) as u8);
    }
    assert(out@ =~= old(out)@ + crate::codec::to_big_endian(value as nat, width as nat));
}

fn push_word(out: &mut Vec<u8>, n: u64)
    ensures
        final(out)@ == old(out)@ + word(n),
{
    push_number(out, n, 8);
}

/// Appends numbers.
fn push_words(out: &mut Vec<u8>, ns: &Vec<u64>)
    ensures
        final(out)@ == old(out)@ + words(ns@),
{
    let mut i: usize = 0;
    assert(ns@.take(0) =~= Seq::empty());
    assert(out@ =~= old(out)@ + words(ns@.take(0)));
    while i < ns.len()
        invariant
            i <= ns@.len(),
            out@ == old(out)@ + words(ns@.take(i as int)),
        decreases ns@.len() - i,
    {
        push_word(out, ns[i]);
        assert(ns@.take(i + 1).drop_last() =~= ns@.take(i as int));
        assert(out@ =~= old(out)@ + words(ns@.take(i + 1)));
        i += 1;
    }
    assert(ns@.take(i as int) =~= ns@);
}

/// Appends bytes.
fn push_bytes(out: &mut Vec<u8>, data: &[u8])
    ensures
        final(out)@ == old(out)@ + data@,
{
    let mut i: usize = 0;
    assert(out@ =~= old(out)@ + data@.take(0));
    while i < data.len()
        invariant
            i <= data@.len(),
            out@ == old(out)@ + data@.take(i as int),
        decreases data@.len() - i,
    {
        out.push(data[i]);
        i += 1;
        assert(out@ =~= old(out)@ + data@.take(i as int));
    }
    assert(data@.take(i as int) =~= data@);
}

fn read_word(bytes: &[u8], pos: usize) -> (r: u64)
    requires
        pos + 8 <= bytes@.len(),
    ensures
        r == word_at(bytes@, pos as int),
{
    let mut n: u64 = 0;
    let mut k: usize = 0;
    proof {
        lemma_eight_bytes();
    }
    while k < 8
        invariant
            k <= 8,
            pos + 8 <= bytes.len(),
            n == crate::codec::big_endian(bytes@.subrange(pos as int, pos + k)),
            crate::codec::byte_capacity(8) == 0x1_0000_0000_0000_0000,
        decreases 8 - k,
    {
        proof {
            let upto = bytes@.subrange(pos as int, pos + k + 1);
            assert(upto.drop_last() =~= bytes@.subrange(pos as int, pos + k));
            lemma_bytes_of_number(upto);
            lemma_capacity_grows((k + 1) as nat, 8);
        }
        n = n * 256 + bytes[pos + k] as u64;
        k += 1;
    }
    n
}

proof fn lemma_capacity_grows(few: nat, many: nat)
    requires
        few <= many,
    ensures
        crate::codec::byte_capacity(few) <= crate::codec::byte_capacity(many),
    decreases many,
{
    if few < many {
        lemma_capacity_grows(few, (many - 1) as nat);
    }
}

/// Reads `count` numbers at `pos`; nothing where the bytes end too early.
fn read_words(bytes: &[u8], pos: usize, count: usize) -> (r: Option<Vec<u64>>)
    requires
        pos <= bytes@.len(),
    ensures
        match r {
            Some(ns) => pos + 8 * count <= bytes@.len() && ns@ == words_at(
                bytes@,
                pos as int,
                count as nat,
            ),
            None => pos + 8 * count > bytes@.len(),
        },
{
    if (bytes.len() - pos) / 8 < count {
        return None;
    }
    let mut ns: Vec<u64> = Vec::new();
    let mut i: usize = 0;
    while i < count
        invariant
            i <= count,
            pos + 8 * count <= bytes@.len(),
            bytes@.len() <= usize::MAX,
            ns@ == words_at(bytes@, pos as int, i as nat),
        decreases count - i,
    {
        ns.push(read_word(bytes, pos + 8 * i));
        i += 1;
        assert(ns@ =~= words_at(bytes@, pos as int, i as nat));
    }
    Some(ns)
}


// Texts

/// `String::from_utf8`: the text whose UTF-8 form the bytes are; nothing where they are the
/// form of no text.
#[verifier::external_body]
fn text_of(bytes: Vec<u8>) -> (r: Option<String>)
    ensures
        match r {
            Some(s) => vstd::utf8::encode_utf8(s@) == bytes@,
            None => !vstd::utf8::valid_utf8(bytes@),
        },
{
    String::from_utf8(bytes).ok()
}

/// The text in the `len` bytes at `pos`, if they hold one.
spec fn text_at(bytes: Seq<u8>, pos: int, len: int) -> Option<Seq<char>> {
    if pos + len <= bytes.len() && vstd::utf8::valid_utf8(bytes.subrange(pos, pos + len)) {
        Some(vstd::utf8::decode_utf8(bytes.subrange(pos, pos + len)))
    } else {
        None
    }
}

proof fn lemma_text_read(bytes: Seq<u8>, pos: int, len: int)
    requires
        0 <= pos,
        0 <= len,
        text_at(bytes, pos, len) is Some,
    ensures
        holds_at(bytes, pos, vstd::utf8::encode_utf8(text_at(bytes, pos, len)->0)),
        vstd::utf8::encode_utf8(text_at(bytes, pos, len)->0).len() == len,
{
    vstd::utf8::decode_utf8_encode_utf8(bytes.subrange(pos, pos + len));
}

proof fn lemma_text_found(bytes: Seq<u8>, pos: int, text: Seq<char>)
    requires
        holds_at(bytes, pos, vstd::utf8::encode_utf8(text)),
    ensures
        text_at(bytes, pos, vstd::utf8::encode_utf8(text).len() as int) == Some(text),
{
    vstd::utf8::encode_utf8_valid_utf8(text);
    vstd::utf8::encode_utf8_decode_utf8(text);
}

fn read_text(bytes: &[u8], pos: usize, len: u64) -> (r: Option<(String, usize)>)
    requires
        pos <= bytes@.len(),
    ensures
        match text_at(bytes@, pos as int, len as int) {
            Some(text) => r matches Some((s, next)) && s@ == text && next == pos + len && next
                <= bytes@.len(),
            None => r is None,
        },
{
    if len > (bytes.len() - pos) as u64 {
        return None;
    }
    let next: usize = pos + len as usize;
    let mut part: Vec<u8> = Vec::new();
    let mut i: usize = pos;
    while i < next
        invariant
            pos <= i <= next <= bytes@.len(),
            part@ == bytes@.subrange(pos as int, i as int),
        decreases next - i,
    {
        part.push(bytes[i]);
        i += 1;
        assert(part@ =~= bytes@.subrange(pos as int, i as int));
    }
    let ghost whole = part@;
    match text_of(part) {
        Some(s) => {
            proof {
                vstd::utf8::encode_utf8_valid_utf8(s@);
                vstd::utf8::encode_utf8_decode_utf8(s@);
            }
            Some((s, next))
        },
        None => None,
    }
}

// Lists

/// What a reader makes of the bytes from a position on: a value and the position behind it.
spec fn list_at<T>(
    bytes: Seq<u8>,
    pos: int,
    count: nat,
    read: spec_fn(Seq<u8>, int) -> Option<(T, int)>,
) -> Option<(Seq<T>, int)>
    decreases count,
{
    if count == 0 {
        Some((Seq::empty(), pos))
    } else {
        match list_at(bytes, pos, (count - 1) as nat, read) {
            None => None,
            Some((items, p)) => match read(bytes, p) {
                None => None,
                Some((item, next)) => Some((items.push(item), next)),
            },
        }
    }
}

/// Whether a reader reads exactly what a form writes.
spec fn inverts<T>(
    read: spec_fn(Seq<u8>, int) -> Option<(T, int)>,
    form: spec_fn(T) -> Seq<u8>,
    fits: spec_fn(T) -> bool,
) -> bool {
    &&& forall|bytes: Seq<u8>, pos: int, v: T|
        #![trigger read(bytes, pos), form(v)]
        fits(v) && holds_at(bytes, pos, form(v)) ==> read(bytes, pos) == Some(
            (v, pos + form(v).len() as int),
        )
    &&& forall|bytes: Seq<u8>, pos: int|
        0 <= pos <= bytes.len() && (#[trigger] read(bytes, pos)) is Some ==> {
            let (v, next) = read(bytes, pos)->0;
            fits(v) && next == pos + form(v).len() && holds_at(bytes, pos, form(v))
        }
}

proof fn lemma_list_found<T>(
    bytes: Seq<u8>,
    pos: int,
    items: Seq<T>,
    read: spec_fn(Seq<u8>, int) -> Option<(T, int)>,
    form: spec_fn(T) -> Seq<u8>,
    fits: spec_fn(T) -> bool,
)
    requires
        inverts(read, form, fits),
        forall|i: int| 0 <= i < items.len() ==> fits(#[trigger] items[i]),
        holds_at(bytes, pos, joined(items, form)),
    ensures
        list_at(bytes, pos, items.len(), read) == Some(
            (items, pos + joined(items, form).len() as int),
        ),
    decreases items.len(),
{
    if items.len() == 0 {
        assert(items =~= Seq::empty());
    } else {
        let front = items.drop_last();
        let last = items.last();
        let head = joined(front, form);
        let all = joined(items, form);
        let h = head.len() as int;
        assert(bytes.subrange(pos, pos + h) =~= all.subrange(0, h));
        assert(all.subrange(0, h) =~= head);
        assert forall|i: int| 0 <= i < front.len() implies fits(#[trigger] front[i]) by {
            assert(front[i] == items[i]);
        }
        lemma_list_found(bytes, pos, front, read, form, fits);
        let p = pos + h;
        assert(bytes.subrange(p, p + form(last).len()) =~= all.subrange(h, h + form(last).len()));
        assert(all.subrange(h, h + form(last).len()) =~= form(last));
        assert(fits(items[items.len() - 1]));
        assert(holds_at(bytes, p, form(last)));
        assert(read(bytes, p) == Some((last, p + form(last).len() as int)));
        assert(front.push(last) =~= items);
    }
}

proof fn lemma_list_read<T>(
    bytes: Seq<u8>,
    pos: int,
    count: nat,
    read: spec_fn(Seq<u8>, int) -> Option<(T, int)>,
    form: spec_fn(T) -> Seq<u8>,
    fits: spec_fn(T) -> bool,
)
    requires
        inverts(read, form, fits),
        0 <= pos <= bytes.len(),
        list_at(bytes, pos, count, read) is Some,
    ensures
        ({
            let (items, next) = list_at(bytes, pos, count, read)->0;
            &&& items.len() == count
            &&& next == pos + joined(items, form).len()
            &&& holds_at(bytes, pos, joined(items, form))
            &&& forall|i: int| 0 <= i < items.len() ==> fits(#[trigger] items[i])
        }),
    decreases count,
{
    let (items, next) = list_at(bytes, pos, count, read)->0;
    if count == 0 {
        assert(bytes.subrange(pos, pos) =~= joined(items, form));
    } else {
        let less = (count - 1) as nat;
        lemma_list_read(bytes, pos, less, read, form, fits);
        let (front, p) = list_at(bytes, pos, less, read)->0;
        let item = (read(bytes, p)->0).0;
        assert(items.drop_last() =~= front);
        assert(items.last() == item);
        assert(bytes.subrange(pos, next) =~= bytes.subrange(pos, p) + bytes.subrange(p, next));
    }
}

proof fn lemma_list_stays_none<T>(
    bytes: Seq<u8>,
    pos: int,
    few: nat,
    many: nat,
    read: spec_fn(Seq<u8>, int) -> Option<(T, int)>,
)
    requires
        few <= many,
        list_at(bytes, pos, few, read) is None,
    ensures
        list_at(bytes, pos, many, read) is None,
    decreases many,
{
    if few < many {
        lemma_list_stays_none(bytes, pos, few, (many - 1) as nat, read);
    }
}

// Clips

/// The time that a number stands for.
spec fn word_time(n: u64) -> i64 {
    (n + i64::MIN) as i64
}

/// What stands at `pos` as a clip.
spec fn clip_at() -> spec_fn(Seq<u8>, int) -> Option<(Clip, int)> {
    |bytes: Seq<u8>, pos: int|
        {
            let ns = words_at(bytes, pos, 8);
            if pos + 64 > bytes.len() || ns[0] > usize::MAX || ns[1] > usize::MAX {
                None
            } else {
                Some(
                    (
                        Clip {
                            id: ns[0] as usize,
                            asset_id: ns[1] as usize,
                            timeline_start: word_time(ns[2]),
                            timeline_end: word_time(ns[3]),
                            source_trim_start: word_time(ns[4]),
                            source_trim_end: word_time(ns[5]),
                            fade_in_duration: word_time(ns[6]),
                            fade_out_duration: word_time(ns[7]),
                        },
                        pos + 64,
                    ),
                )
            }
        }
}

/// Every clip can be stored.
spec fn any_clip() -> spec_fn(Clip) -> bool {
    |c: Clip| true
}

proof fn lemma_clips_invert()
    ensures
        inverts(clip_at(), clip_form(), any_clip()),
{
    assert forall|bytes: Seq<u8>, pos: int, v: Clip|
        #![trigger clip_at()(bytes, pos), clip_form()(v)]
        any_clip()(v) && holds_at(bytes, pos, clip_form()(v)) implies clip_at()(bytes, pos) == Some(
        (v, pos + clip_form()(v).len() as int),
    ) by {
        lemma_words_found(bytes, pos, clip_words(v));
    }
    assert forall|bytes: Seq<u8>, pos: int|
        0 <= pos <= bytes.len() && (#[trigger] clip_at()(bytes, pos)) is Some implies {
        let (v, next) = clip_at()(bytes, pos)->0;
        any_clip()(v) && next == pos + clip_form()(v).len() && holds_at(bytes, pos, clip_form()(v))
    } by {
        lemma_words_read(bytes, pos, 8);
        let (v, next) = clip_at()(bytes, pos)->0;
        assert(clip_words(v) =~= words_at(bytes, pos, 8));
    }
}


fn to_time_word(t: i64) -> (r: u64)
    ensures
        r == time_word(t),
{
    (t as i128 - i64::MIN as i128) as u64
}

fn to_time(n: u64) -> (r: i64)
    ensures
        r == word_time(n),
{
    (n as i128 + i64::MIN as i128) as i64
}

fn to_flag_word(b: bool) -> (r: u64)
    ensures
        r == flag_word(b),
{
    if b {
        1
    } else {
        0
    }
}

fn push_clips(out: &mut Vec<u8>, clips: &Vec<Clip>)
    ensures
        final(out)@ == old(out)@ + joined(clips@, clip_form()),
{
    let mut i: usize = 0;
    assert(clips@.take(0) =~= Seq::empty());
    assert(out@ =~= old(out)@ + joined(clips@.take(0), clip_form()));
    while i < clips.len()
        invariant
            i <= clips@.len(),
            out@ == old(out)@ + joined(clips@.take(i as int), clip_form()),
        decreases clips@.len() - i,
    {
        let c: Clip = clips[i];
        let ns: Vec<u64> = vec![
            c.id as u64,
            c.asset_id as u64,
            to_time_word(c.timeline_start),
            to_time_word(c.timeline_end),
            to_time_word(c.source_trim_start),
            to_time_word(c.source_trim_end),
            to_time_word(c.fade_in_duration),
            to_time_word(c.fade_out_duration),
        ];
        assert(ns@ =~= clip_words(c));
        push_words(out, &ns);
        assert(clips@.take(i + 1).drop_last() =~= clips@.take(i as int));
        assert(out@ =~= old(out)@ + joined(clips@.take(i + 1), clip_form()));
        i += 1;
    }
    assert(clips@.take(i as int) =~= clips@);
}

fn read_clip(bytes: &[u8], pos: usize) -> (r: Option<Clip>)
    requires
        pos <= bytes@.len(),
    ensures
        match clip_at()(bytes@, pos as int) {
            Some((c, next)) => r == Some(c) && next == pos + 64 <= bytes@.len(),
            None => r is None,
        },
{
    match read_words(bytes, pos, 8) {
        Some(ns) => {
            if ns[0] > usize::MAX as u64 || ns[1] > usize::MAX as u64 {
                None
            } else {
                Some(
                    Clip {
                        id: ns[0] as usize,
                        asset_id: ns[1] as usize,
                        timeline_start: to_time(ns[2]),
                        timeline_end: to_time(ns[3]),
                        source_trim_start: to_time(ns[4]),
                        source_trim_end: to_time(ns[5]),
                        fade_in_duration: to_time(ns[6]),
                        fade_out_duration: to_time(ns[7]),
                    },
                )
            }
        },
        None => None,
    }
}

fn read_clips(bytes: &[u8], pos: usize, count: u64) -> (r: Option<(Vec<Clip>, usize)>)
    requires
        pos <= bytes@.len(),
    ensures
        match list_at(bytes@, pos as int, count as nat, clip_at()) {
            Some((items, next)) => r matches Some((clips, n)) && clips@ == items && n == next && n
                <= bytes@.len(),
            None => r is None,
        },
{
    let mut clips: Vec<Clip> = Vec::new();
    let mut at: usize = pos;
    let mut i: u64 = 0;
    while i < count
        invariant
            i <= count,
            at <= bytes.len(),
            list_at(bytes@, pos as int, i as nat, clip_at()) == Some((clips@, at as int)),
        decreases count - i,
    {
        match read_clip(bytes, at) {
            Some(c) => {
                clips.push(c);
                at = at + 64;
            },
            None => {
                proof {
                    assert(list_at(bytes@, pos as int, (i + 1) as nat, clip_at()) is None);
                    lemma_list_stays_none(
                        bytes@,
                        pos as int,
                        (i + 1) as nat,
                        count as nat,
                        clip_at(),
                    );
                }
                return None;
            },
        }
        i += 1;
    }
    Some((clips, at))
}

// Tracks

/// What stands at `pos` as a track.
spec fn track_at() -> spec_fn(Seq<u8>, int) -> Option<(TrackModel, int)> {
    |bytes: Seq<u8>, pos: int|
        {
            let ns = words_at(bytes, pos, 8);
            if pos + 64 > bytes.len() || ns[0] > usize::MAX || ns[1] > 1 || ns[2] > 1 || ns[3] > 1
                || ns[4] > 1 || ns[5] > u32::MAX {
                None
            } else {
                match text_at(bytes, pos + 64, ns[6] as int) {
                    None => None,
                    Some(name) => match list_at(
                        bytes,
                        pos + 64 + ns[6],
                        ns[7] as nat,
                        clip_at(),
                    ) {
                        None => None,
                        Some((clips, next)) => Some(
                            (
                                TrackModel {
                                    id: ns[0] as usize,
                                    name,
                                    is_video: ns[1] == 1,
                                    is_muted: ns[2] == 1,
                                    is_hidden: ns[3] == 1,
                                    is_solo: ns[4] == 1,
                                    volume: ns[5] as u32,
                                    clips,
                                },
                                next,
                            ),
                        ),
                    },
                }
            }
        }
}

/// Parts that stand one behind the other stand each in its place.
proof fn lemma_holds_parts(bytes: Seq<u8>, pos: int, a: Seq<u8>, b: Seq<u8>)
    ensures
        holds_at(bytes, pos, a + b) <==> holds_at(bytes, pos, a) && holds_at(
            bytes,
            pos + a.len(),
            b,
        ),
{
    let end = pos + a.len() + b.len();
    if holds_at(bytes, pos, a + b) {
        let all = bytes.subrange(pos, end);
        assert(bytes.subrange(pos, pos + a.len()) =~= all.subrange(0, a.len() as int));
        assert(all.subrange(0, a.len() as int) =~= a);
        assert(bytes.subrange(pos + a.len(), end) =~= all.subrange(
            a.len() as int,
            (a.len() + b.len()) as int,
        ));
        assert(all.subrange(a.len() as int, (a.len() + b.len()) as int) =~= b);
    }
    if holds_at(bytes, pos, a) && holds_at(bytes, pos + a.len(), b) {
        assert(bytes.subrange(pos, end) =~= bytes.subrange(pos, pos + a.len()) + bytes.subrange(
            pos + a.len(),
            end,
        ));
    }
}

proof fn lemma_track_found(bytes: Seq<u8>, pos: int, v: TrackModel)
    requires
        track_fits()(v),
        holds_at(bytes, pos, track_form()(v)),
    ensures
        track_at()(bytes, pos) == Some((v, pos + track_form()(v).len() as int)),
{
    lemma_clips_invert();
    let (a, b, c) = (
        words(track_words(v)),
        vstd::utf8::encode_utf8(v.name),
        joined(v.clips, clip_form()),
    );
    lemma_holds_parts(bytes, pos, a + b, c);
    lemma_holds_parts(bytes, pos, a, b);
    lemma_words_found(bytes, pos, track_words(v));
    assert(track_words(v).len() == 8);
    lemma_text_found(bytes, pos + 64, v.name);
    lemma_list_found(bytes, pos + 64 + b.len(), v.clips, clip_at(), clip_form(), any_clip());
}

proof fn lemma_track_read(bytes: Seq<u8>, pos: int)
    requires
        0 <= pos <= bytes.len(),
        track_at()(bytes, pos) is Some,
    ensures
        ({
            let (v, next) = track_at()(bytes, pos)->0;
            track_fits()(v) && next == pos + track_form()(v).len() && holds_at(
                bytes,
                pos,
                track_form()(v),
            )
        }),
{
    let (v, next) = track_at()(bytes, pos)->0;
    let ns = words_at(bytes, pos, 8);
    lemma_words_read(bytes, pos, 8);
    lemma_text_read(bytes, pos + 64, ns[6] as int);
    let b = vstd::utf8::encode_utf8(v.name);
    lemma_clips_invert();
    lemma_list_read(
        bytes,
        pos + 64 + b.len(),
        ns[7] as nat,
        clip_at(),
        clip_form(),
        any_clip(),
    );
    assert(track_words(v) =~= ns);
    let (a, c) = (words(ns), joined(v.clips, clip_form()));
    lemma_holds_parts(bytes, pos, a, b);
    lemma_holds_parts(bytes, pos, a + b, c);
}

proof fn lemma_tracks_invert()
    ensures
        inverts(track_at(), track_form(), track_fits()),
{
    assert forall|bytes: Seq<u8>, pos: int, v: TrackModel|
        #![trigger track_at()(bytes, pos), track_form()(v)]
        track_fits()(v) && holds_at(bytes, pos, track_form()(v)) implies track_at()(bytes, pos)
        == Some((v, pos + track_form()(v).len() as int)) by {
        lemma_track_found(bytes, pos, v);
    }
    assert forall|bytes: Seq<u8>, pos: int|
        0 <= pos <= bytes.len() && (#[trigger] track_at()(bytes, pos)) is Some implies {
        let (v, next) = track_at()(bytes, pos)->0;
        track_fits()(v) && next == pos + track_form()(v).len() && holds_at(
            bytes,
            pos,
            track_form()(v),
        )
    } by {
        lemma_track_read(bytes, pos);
    }
}


fn push_tracks(out: &mut Vec<u8>, tracks: &Vec<Track>)
    ensures
        final(out)@ == old(out)@ + joined(crate::editor::lane_view(tracks@), track_form()),
        forall|k: int|
            0 <= k < tracks@.len() ==> track_fits()(
                #[trigger] crate::editor::lane_view(tracks@)[k],
            ),
{
    let ghost lane = crate::editor::lane_view(tracks@);
    let mut i: usize = 0;
    assert(lane.take(0) =~= Seq::empty());
    assert(out@ =~= old(out)@ + joined(lane.take(0), track_form()));
    while i < tracks.len()
        invariant
            i <= tracks@.len(),
            lane == crate::editor::lane_view(tracks@),
            out@ == old(out)@ + joined(lane.take(i as int), track_form()),
            forall|k: int| 0 <= k < i ==> track_fits()(#[trigger] lane[k]),
        decreases tracks@.len() - i,
    {
        let t: &Track = &tracks[i];
        let name: &[u8] = t.name.as_str().as_bytes();
        let ns: Vec<u64> = vec![
            t.id as u64,
            to_flag_word(t.is_video),
            to_flag_word(t.is_muted),
            to_flag_word(t.is_hidden),
            to_flag_word(t.is_solo),
            t.volume as u64,
            name.len() as u64,
            t.clips.len() as u64,
        ];
        assert(ns@ =~= track_words(t@));
        push_words(out, &ns);
        push_bytes(out, name);
        push_clips(out, &t.clips);
        proof {
            assert(lane[i as int] == t@);
            assert(lane.take(i + 1).drop_last() =~= lane.take(i as int));
            assert(out@ =~= old(out)@ + joined(lane.take(i + 1), track_form()));
        }
        i += 1;
    }
    assert(lane.take(i as int) =~= lane);
}

fn read_track(bytes: &[u8], pos: usize) -> (r: Option<(Track, usize)>)
    requires
        pos <= bytes@.len(),
    ensures
        match track_at()(bytes@, pos as int) {
            Some((m, next)) => r matches Some((t, n)) && t@ == m && n == next && n <= bytes@.len(),
            None => r is None,
        },
{
    let ns: Vec<u64> = match read_words(bytes, pos, 8) {
        Some(ns) => ns,
        None => return None,
    };
    if ns[0] > usize::MAX as u64 || ns[1] > 1 || ns[2] > 1 || ns[3] > 1 || ns[4] > 1 || ns[5]
        > u32::MAX as u64 {
        return None;
    }
    assert(pos + 64 <= bytes.len());
    let (name, at) = match read_text(bytes, pos + 64, ns[6]) {
        Some(found) => found,
        None => return None,
    };
    let (clips, next) = match read_clips(bytes, at, ns[7]) {
        Some(found) => found,
        None => return None,
    };
    let t = Track {
        id: ns[0] as usize,
        name,
        is_video: ns[1] == 1,
        is_muted: ns[2] == 1,
        is_hidden: ns[3] == 1,
        is_solo: ns[4] == 1,
        volume: ns[5] as u32,
        clips,
    };
    Some((t, next))
}

fn read_tracks(bytes: &[u8], pos: usize, count: u64) -> (r: Option<(Vec<Track>, usize)>)
    requires
        pos <= bytes@.len(),
    ensures
        match list_at(bytes@, pos as int, count as nat, track_at()) {
            Some((items, next)) => r matches Some((tracks, n)) && crate::editor::lane_view(tracks@)
                == items && n == next && n <= bytes@.len(),
            None => r is None,
        },
{
    let mut tracks: Vec<Track> = Vec::new();
    let mut at: usize = pos;
    let mut i: u64 = 0;
    assert(crate::editor::lane_view(tracks@) =~= Seq::empty());
    while i < count
        invariant
            i <= count,
            at <= bytes@.len(),
            list_at(bytes@, pos as int, i as nat, track_at()) == Some(
                (crate::editor::lane_view(tracks@), at as int),
            ),
        decreases count - i,
    {
        let ghost before = crate::editor::lane_view(tracks@);
        match read_track(bytes, at) {
            Some((t, next)) => {
                tracks.push(t);
                assert(crate::editor::lane_view(tracks@) =~= before.push(t@));
                at = next;
            },
            None => {
                proof {
                    assert(list_at(bytes@, pos as int, (i + 1) as nat, track_at()) is None);
                    lemma_list_stays_none(
                        bytes@,
                        pos as int,
                        (i + 1) as nat,
                        count as nat,
                        track_at(),
                    );
                }
                return None;
            },
        }
        i += 1;
    }
    Some((tracks, at))
}

// Assets

/// What stands at `pos` as an asset.
spec fn asset_at() -> spec_fn(Seq<u8>, int) -> Option<(StoredAssetModel, int)> {
    |bytes: Seq<u8>, pos: int|
        {
            let ns = words_at(bytes, pos, 12);
            if pos + 96 > bytes.len() || ns[0] > usize::MAX || ns[2] > u32::MAX || ns[3] > u32::MAX
                || ns[4] > u32::MAX || ns[5] > u32::MAX || ns[6] > 1 || ns[7] > 1 || ns[8]
                > u32::MAX || ns[9] > u32::MAX {
                None
            } else {
                match (
                    text_at(bytes, pos + 96, ns[10] as int),
                    text_at(bytes, pos + 96 + ns[10], ns[11] as int),
                ) {
                    (Some(path), Some(name)) => Some(
                        (
                            StoredAssetModel {
                                id: ns[0] as usize,
                                path,
                                name,
                                duration: word_time(ns[1]),
                                width: ns[2] as u32,
                                height: ns[3] as u32,
                                fps: FrameRate { num: ns[4] as u32, den: ns[5] as u32 },
                                is_video: ns[6] == 1,
                                is_image: ns[7] == 1,
                                audio_channels: ns[8] as u32,
                                audio_sample_rate: ns[9] as u32,
                            },
                            pos + 96 + ns[10] + ns[11],
                        ),
                    ),
                    _ => None,
                }
            }
        }
}

proof fn lemma_asset_found(bytes: Seq<u8>, pos: int, v: StoredAssetModel)
    requires
        asset_fits()(v),
        holds_at(bytes, pos, asset_form()(v)),
    ensures
        asset_at()(bytes, pos) == Some((v, pos + asset_form()(v).len() as int)),
{
    let (a, b, c) = (
        words(asset_words(v)),
        vstd::utf8::encode_utf8(v.path),
        vstd::utf8::encode_utf8(v.name),
    );
    lemma_holds_parts(bytes, pos, a + b, c);
    lemma_holds_parts(bytes, pos, a, b);
    lemma_words_found(bytes, pos, asset_words(v));
    assert(asset_words(v).len() == 12);
    lemma_text_found(bytes, pos + 96, v.path);
    lemma_text_found(bytes, pos + 96 + b.len(), v.name);
}

proof fn lemma_asset_read(bytes: Seq<u8>, pos: int)
    requires
        0 <= pos <= bytes.len(),
        asset_at()(bytes, pos) is Some,
    ensures
        ({
            let (v, next) = asset_at()(bytes, pos)->0;
            asset_fits()(v) && next == pos + asset_form()(v).len() && holds_at(
                bytes,
                pos,
                asset_form()(v),
            )
        }),
{
    let (v, next) = asset_at()(bytes, pos)->0;
    let ns = words_at(bytes, pos, 12);
    lemma_words_read(bytes, pos, 12);
    lemma_text_read(bytes, pos + 96, ns[10] as int);
    lemma_text_read(bytes, pos + 96 + ns[10], ns[11] as int);
    assert(asset_words(v) =~= ns);
    let (a, b, c) = (
        words(ns),
        vstd::utf8::encode_utf8(v.path),
        vstd::utf8::encode_utf8(v.name),
    );
    lemma_holds_parts(bytes, pos, a, b);
    lemma_holds_parts(bytes, pos, a + b, c);
}

proof fn lemma_assets_invert()
    ensures
        inverts(asset_at(), asset_form(), asset_fits()),
{
    assert forall|bytes: Seq<u8>, pos: int, v: StoredAssetModel|
        #![trigger asset_at()(bytes, pos), asset_form()(v)]
        asset_fits()(v) && holds_at(bytes, pos, asset_form()(v)) implies asset_at()(bytes, pos)
        == Some((v, pos + asset_form()(v).len() as int)) by {
        lemma_asset_found(bytes, pos, v);
    }
    assert forall|bytes: Seq<u8>, pos: int|
        0 <= pos <= bytes.len() && (#[trigger] asset_at()(bytes, pos)) is Some implies {
        let (v, next) = asset_at()(bytes, pos)->0;
        asset_fits()(v) && next == pos + asset_form()(v).len() && holds_at(
            bytes,
            pos,
            asset_form()(v),
        )
    } by {
        lemma_asset_read(bytes, pos);
    }
}

fn push_assets(out: &mut Vec<u8>, assets: &Vec<StoredAsset>)
    ensures
        final(out)@ == old(out)@ + joined(stored_view(assets@), asset_form()),
        forall|k: int|
            0 <= k < assets@.len() ==> asset_fits()(#[trigger] stored_view(assets@)[k]),
{
    let ghost models = stored_view(assets@);
    let mut i: usize = 0;
    assert(models.take(0) =~= Seq::empty());
    assert(out@ =~= old(out)@ + joined(models.take(0), asset_form()));
    while i < assets.len()
        invariant
            i <= assets@.len(),
            models == stored_view(assets@),
            out@ == old(out)@ + joined(models.take(i as int), asset_form()),
            forall|k: int| 0 <= k < i ==> asset_fits()(#[trigger] models[k]),
        decreases assets@.len() - i,
    {
        let a: &StoredAsset = &assets[i];
        let path: &[u8] = a.path.as_str().as_bytes();
        let name: &[u8] = a.name.as_str().as_bytes();
        let ns: Vec<u64> = vec![
            a.id as u64,
            to_time_word(a.duration),
            a.width as u64,
            a.height as u64,
            a.fps.num as u64,
            a.fps.den as u64,
            to_flag_word(a.is_video),
            to_flag_word(a.is_image),
            a.audio_channels as u64,
            a.audio_sample_rate as u64,
            path.len() as u64,
            name.len() as u64,
        ];
        assert(ns@ =~= asset_words(a@));
        push_words(out, &ns);
        push_bytes(out, path);
        push_bytes(out, name);
        proof {
            assert(models[i as int] == a@);
            assert(models.take(i + 1).drop_last() =~= models.take(i as int));
            assert(out@ =~= old(out)@ + joined(models.take(i + 1), asset_form()));
        }
        i += 1;
    }
    assert(models.take(i as int) =~= models);
}

fn read_asset(bytes: &[u8], pos: usize) -> (r: Option<(StoredAsset, usize)>)
    requires
        pos <= bytes@.len(),
    ensures
        match asset_at()(bytes@, pos as int) {
            Some((m, next)) => r matches Some((a, n)) && a@ == m && n == next && n <= bytes@.len(),
            None => r is None,
        },
{
    let ns: Vec<u64> = match read_words(bytes, pos, 12) {
        Some(ns) => ns,
        None => return None,
    };
    let most: u64 = u32::MAX as u64;
    if ns[0] > usize::MAX as u64 || ns[2] > most || ns[3] > most || ns[4] > most || ns[5] > most
        || ns[6] > 1 || ns[7] > 1 || ns[8] > most || ns[9] > most {
        return None;
    }
    assert(pos + 96 <= bytes.len());
    let (path, at) = match read_text(bytes, pos + 96, ns[10]) {
        Some(found) => found,
        None => return None,
    };
    let (name, next) = match read_text(bytes, at, ns[11]) {
        Some(found) => found,
        None => return None,
    };
    let a = StoredAsset {
        id: ns[0] as usize,
        path,
        name,
        duration: to_time(ns[1]),
        width: ns[2] as u32,
        height: ns[3] as u32,
        fps: FrameRate { num: ns[4] as u32, den: ns[5] as u32 },
        is_video: ns[6] == 1,
        is_image: ns[7] == 1,
        audio_channels: ns[8] as u32,
        audio_sample_rate: ns[9] as u32,
    };
    Some((a, next))
}

fn read_assets(bytes: &[u8], pos: usize, count: u64) -> (r: Option<(Vec<StoredAsset>, usize)>)
    requires
        pos <= bytes@.len(),
    ensures
        match list_at(bytes@, pos as int, count as nat, asset_at()) {
            Some((items, next)) => r matches Some((assets, n)) && stored_view(assets@) == items && n
                == next && n <= bytes@.len(),
            None => r is None,
        },
{
    let mut assets: Vec<StoredAsset> = Vec::new();
    let mut at: usize = pos;
    let mut i: u64 = 0;
    assert(stored_view(assets@) =~= Seq::empty());
    while i < count
        invariant
            i <= count,
            at <= bytes@.len(),
            list_at(bytes@, pos as int, i as nat, asset_at()) == Some(
                (stored_view(assets@), at as int),
            ),
        decreases count - i,
    {
        let ghost before = stored_view(assets@);
        match read_asset(bytes, at) {
            Some((a, next)) => {
                assets.push(a);
                assert(stored_view(assets@) =~= before.push(a@));
                at = next;
            },
            None => {
                proof {
                    assert(list_at(bytes@, pos as int, (i + 1) as nat, asset_at()) is None);
                    lemma_list_stays_none(
                        bytes@,
                        pos as int,
                        (i + 1) as nat,
                        count as nat,
                        asset_at(),
                    );
                }
                return None;
            },
        }
        i += 1;
    }
    Some((assets, at))
}


// Whole files

/// The clip selection that four numbers stand for.
spec fn selection_of(chosen: u64, is_video: u64, track: u64, clip: u64) -> Option<
    Option<(bool, usize, usize)>,
> {
    if chosen == 1 && is_video <= 1 && track <= usize::MAX && clip <= usize::MAX {
        Some(Some((is_video == 1, track as usize, clip as usize)))
    } else if chosen == 0 && is_video == 0 && track == 0 && clip == 0 {
        Some(None)
    } else {
        None
    }
}

/// Whether the numbers at the start of a file can be those of a project.
spec fn head_is_valid(ns: Seq<u64>) -> bool {
    &&& ns[0] == PROJECT_MARK
    &&& ns[2] <= 1
    &&& ns[3] <= 1
    &&& selection_of(ns[4], ns[5], ns[6], ns[7]) is Some
    &&& ns[10] <= usize::MAX
    &&& ns[11] <= usize::MAX
}

/// The project that a file holds, if it holds one.
spec fn project_of_bytes(bytes: Seq<u8>) -> Option<ProjectModel> {
    let ns = words_at(bytes, 0, 15);
    if bytes.len() < 120 || !head_is_valid(ns) {
        None
    } else {
        match list_at(bytes, 120, ns[12] as nat, asset_at()) {
            None => None,
            Some((assets, p)) => match list_at(bytes, p, ns[13] as nat, track_at()) {
                None => None,
                Some((video_tracks, q)) => match list_at(bytes, q, ns[14] as nat, track_at()) {
                    Some((audio_tracks, end)) if end == bytes.len() => Some(
                        ProjectModel {
                            assets,
                            video_tracks,
                            audio_tracks,
                            playhead: word_time(ns[1]),
                            is_playing: ns[2] == 1,
                            selected_tool: if ns[3] == 1 {
                                EditTool::Razor
                            } else {
                                EditTool::Select
                            },
                            selected_clip: selection_of(ns[4], ns[5], ns[6], ns[7])->0,
                            zoom_factor: word_time(ns[8]),
                            scroll_offset: word_time(ns[9]),
                            next_clip_id: ns[10] as usize,
                            next_track_id: ns[11] as usize,
                        },
                    ),
                    _ => None,
                },
            },
        }
    }
}

proof fn lemma_project_found(p: ProjectModel)
    requires
        p.fits(),
    ensures
        project_of_bytes(p.bytes()) == Some(p),
{
    let all = p.bytes();
    let (a, b, c, d) = (
        words(p.head()),
        joined(p.assets, asset_form()),
        joined(p.video_tracks, track_form()),
        joined(p.audio_tracks, track_form()),
    );
    assert(all.subrange(0, all.len() as int) =~= all);
    assert(holds_at(all, 0, a + b + c + d));
    lemma_holds_parts(all, 0, a + b + c, d);
    lemma_holds_parts(all, 0, a + b, c);
    lemma_holds_parts(all, 0, a, b);
    lemma_words_found(all, 0, p.head());
    assert(p.head().len() == 15);
    lemma_assets_invert();
    lemma_tracks_invert();
    lemma_list_found(all, 120, p.assets, asset_at(), asset_form(), asset_fits());
    lemma_list_found(all, 120int + b.len(), p.video_tracks, track_at(), track_form(), track_fits());
    lemma_list_found(
        all,
        120int + b.len() + c.len(),
        p.audio_tracks,
        track_at(),
        track_form(),
        track_fits(),
    );
    let ns = words_at(all, 0, 15);
    assert(ns == p.head());
    assert(selection_of(ns[4], ns[5], ns[6], ns[7]) == Some(p.selected_clip));
    assert(head_is_valid(ns));
}

proof fn lemma_asset_list_read(bytes: Seq<u8>, pos: int, count: nat)
    requires
        0 <= pos <= bytes.len(),
        list_at(bytes, pos, count, asset_at()) is Some,
    ensures
        ({
            let (items, next) = list_at(bytes, pos, count, asset_at())->0;
            &&& items.len() == count
            &&& next == pos + joined(items, asset_form()).len()
            &&& holds_at(bytes, pos, joined(items, asset_form()))
            &&& forall|i: int| 0 <= i < items.len() ==> asset_fits()(#[trigger] items[i])
        }),
{
    lemma_assets_invert();
    lemma_list_read(bytes, pos, count, asset_at(), asset_form(), asset_fits());
}

proof fn lemma_track_list_read(bytes: Seq<u8>, pos: int, count: nat)
    requires
        0 <= pos <= bytes.len(),
        list_at(bytes, pos, count, track_at()) is Some,
    ensures
        ({
            let (items, next) = list_at(bytes, pos, count, track_at())->0;
            &&& items.len() == count
            &&& next == pos + joined(items, track_form()).len()
            &&& holds_at(bytes, pos, joined(items, track_form()))
            &&& forall|i: int| 0 <= i < items.len() ==> track_fits()(#[trigger] items[i])
        }),
{
    lemma_tracks_invert();
    lemma_list_read(bytes, pos, count, track_at(), track_form(), track_fits());
}

/// The fields that a file's first numbers give are written as those numbers.
proof fn lemma_head_of(ns: Seq<u64>, p: ProjectModel)
    requires
        ns.len() == 15,
        head_is_valid(ns),
        p.playhead == word_time(ns[1]),
        p.is_playing == (ns[2] == 1),
        (p.selected_tool == EditTool::Razor) == (ns[3] == 1),
        Some(p.selected_clip) == selection_of(ns[4], ns[5], ns[6], ns[7]),
        p.zoom_factor == word_time(ns[8]),
        p.scroll_offset == word_time(ns[9]),
        p.next_clip_id == ns[10],
        p.next_track_id == ns[11],
        p.assets.len() == ns[12],
        p.video_tracks.len() == ns[13],
        p.audio_tracks.len() == ns[14],
    ensures
        p.head() == ns,
{
    let head = p.head();
    assert(head[4] == ns[4] && head[5] == ns[5] && head[6] == ns[6] && head[7] == ns[7]);
    assert(head =~= ns);
}

/// Four parts that fill a file make up the file.
proof fn lemma_four_parts(bytes: Seq<u8>, a: Seq<u8>, b: Seq<u8>, c: Seq<u8>, d: Seq<u8>)
    requires
        holds_at(bytes, 0, a),
        holds_at(bytes, a.len() as int, b),
        holds_at(bytes, (a.len() + b.len()) as int, c),
        holds_at(bytes, (a.len() + b.len() + c.len()) as int, d),
        a.len() + b.len() + c.len() + d.len() == bytes.len(),
    ensures
        a + b + c + d == bytes,
{
    lemma_holds_parts(bytes, 0, a, b);
    lemma_holds_parts(bytes, 0, a + b, c);
    lemma_holds_parts(bytes, 0, a + b + c, d);
    assert(bytes.subrange(0, bytes.len() as int) =~= bytes);
}

proof fn lemma_project_read(bytes: Seq<u8>)
    requires
        project_of_bytes(bytes) is Some,
    ensures
        (project_of_bytes(bytes)->0).fits(),
        (project_of_bytes(bytes)->0).bytes() == bytes,
{
    let p = project_of_bytes(bytes)->0;
    let ns = words_at(bytes, 0, 15);
    lemma_words_read(bytes, 0, 15);
    lemma_asset_list_read(bytes, 120, ns[12] as nat);
    let x = (list_at(bytes, 120, ns[12] as nat, asset_at())->0).1;
    lemma_track_list_read(bytes, x, ns[13] as nat);
    let y = (list_at(bytes, x, ns[13] as nat, track_at())->0).1;
    lemma_track_list_read(bytes, y, ns[14] as nat);
    lemma_head_of(ns, p);
    lemma_four_parts(
        bytes,
        words(ns),
        joined(p.assets, asset_form()),
        joined(p.video_tracks, track_form()),
        joined(p.audio_tracks, track_form()),
    );
}

/// A project file says which project it holds: two projects with the same bytes are the
/// same project. So a project that was written and read again is unchanged.
pub proof fn files_tell_projects_apart(p: ProjectModel, q: ProjectModel)
    requires
        p.fits(),
        q.fits(),
        p.bytes() == q.bytes(),
    ensures
        p == q,
{
    lemma_project_found(p);
    lemma_project_found(q);
}

impl Project {
    /// The bytes of a project file.
    pub fn write(&self) -> (r: Vec<u8>)
        ensures
            r@ == self@.bytes(),
            self@.fits(),
    {
        let (chosen, is_video, track, clip): (u64, u64, u64, u64) = match self.selected_clip {
            Some((v, t, c)) => (1, to_flag_word(v), t as u64, c as u64),
            None => (0, 0, 0, 0),
        };
        let razor: bool = match self.selected_tool {
            EditTool::Razor => true,
            EditTool::Select => false,
        };
        let head: Vec<u64> = vec![
            PROJECT_MARK,
            to_time_word(self.playhead),
            to_flag_word(self.is_playing),
            to_flag_word(razor),
            chosen,
            is_video,
            track,
            clip,
            to_time_word(self.zoom_factor),
            to_time_word(self.scroll_offset),
            self.next_clip_id as u64,
            self.next_track_id as u64,
            self.assets.len() as u64,
            self.video_tracks.len() as u64,
            self.audio_tracks.len() as u64,
        ];
        assert(head@ =~= self@.head());
        let mut out: Vec<u8> = Vec::new();
        push_words(&mut out, &head);
        assert(out@ =~= words(self@.head()));
        push_assets(&mut out, &self.assets);
        push_tracks(&mut out, &self.video_tracks);
        push_tracks(&mut out, &self.audio_tracks);
        out
    }

    /// Reads a project file. There is no result where the bytes are those of no project.
    pub fn read(bytes: &[u8]) -> (r: Option<Project>)
        ensures
            match r {
                Some(p) => p@.fits() && p@.bytes() == bytes@,
                None => forall|p: ProjectModel| p.fits() ==> #[trigger] p.bytes() != bytes@,
            },
    {
        proof {
            if project_of_bytes(bytes@) is Some {
                lemma_project_read(bytes@);
            } else {
                assert forall|p: ProjectModel| p.fits() implies #[trigger] p.bytes() != bytes@ by {
                    lemma_project_found(p);
                }
            }
        }
        let ns: Vec<u64> = match read_words(bytes, 0, 15) {
            Some(ns) => ns,
            None => return None,
        };
        let most: u64 = usize::MAX as u64;
        if ns[0] != PROJECT_MARK || ns[2] > 1 || ns[3] > 1 || ns[10] > most || ns[11] > most {
            return None;
        }
        let selected_clip: Option<(bool, usize, usize)> = if ns[4] == 1 && ns[5] <= 1 && ns[6]
            <= most && ns[7] <= most {
            Some((ns[5] == 1, ns[6] as usize, ns[7] as usize))
        } else if ns[4] == 0 && ns[5] == 0 && ns[6] == 0 && ns[7] == 0 {
            None
        } else {
            return None;
        };
        let (assets, at) = match read_assets(bytes, 120, ns[12]) {
            Some(found) => found,
            None => return None,
        };
        let (video_tracks, at) = match read_tracks(bytes, at, ns[13]) {
            Some(found) => found,
            None => return None,
        };
        let (audio_tracks, end) = match read_tracks(bytes, at, ns[14]) {
            Some(found) => found,
            None => return None,
        };
        if end != bytes.len() {
            return None;
        }
        let p = Project {
            assets,
            video_tracks,
            audio_tracks,
            playhead: to_time(ns[1]),
            is_playing: ns[2] == 1,
            selected_tool: if ns[3] == 1 {
                EditTool::Razor
            } else {
                EditTool::Select
            },
            selected_clip,
            zoom_factor: to_time(ns[8]),
            scroll_offset: to_time(ns[9]),
            next_clip_id: ns[10] as usize,
            next_track_id: ns[11] as usize,
        };
        assert(project_of_bytes(bytes@) == Some(p@));
        Some(p)
    }
}


// Projects and the editor

/// An asset as a project stores it, without its sound.
pub open spec fn asset_stored(a: MediaAsset, path: Seq<char>) -> StoredAssetModel {
    StoredAssetModel {
        id: a.id,
        path,
        name: a.name@,
        duration: a.duration,
        width: a.width,
        height: a.height,
        fps: a.fps,
        is_video: a.is_video,
        is_image: a.is_image,
        audio_channels: a.audio_channels,
        audio_sample_rate: a.audio_sample_rate,
    }
}

/// The project of an editor state whose assets have the given paths.
pub open spec fn project_of(m: EditorModel, paths: Seq<Seq<char>>) -> ProjectModel {
    ProjectModel {
        assets: Seq::new(m.assets.len(), |i: int| asset_stored(m.assets[i], paths[i])),
        video_tracks: m.video_tracks,
        audio_tracks: m.audio_tracks,
        playhead: m.playhead,
        is_playing: m.is_playing,
        selected_tool: m.selected_tool,
        selected_clip: m.selected_clip,
        zoom_factor: m.zoom_factor,
        scroll_offset: m.scroll_offset,
        next_clip_id: m.next_clip_id,
        next_track_id: m.next_track_id,
    }
}

impl ProjectModel {
    /// The paths of the project's assets.
    pub open spec fn paths(self) -> Seq<Seq<char>> {
        Seq::new(self.assets.len(), |i: int| self.assets[i].path)
    }
}

/// A list of texts, each by its characters.
pub open spec fn texts(list: Seq<String>) -> Seq<Seq<char>> {
    Seq::new(list.len(), |i: int| list[i]@)
}

/// Whether an asset has no decoded sound.
pub open spec fn is_silent(a: MediaAsset) -> bool {
    a.audio_samples is None
}

impl Project {
    /// The project of an editor state. `paths` are the paths of its assets as text.
    pub fn of(state: &EditorState, paths: &Vec<String>) -> (r: Project)
        requires
            paths@.len() == state.assets@.len(),
        ensures
            r@ == project_of(state@, texts(paths@)),
    {
        let mut assets: Vec<StoredAsset> = Vec::new();
        let mut i: usize = 0;
        while i < state.assets.len()
            invariant
                i <= state.assets@.len(),
                paths@.len() == state.assets@.len(),
                assets@.len() == i,
                forall|k: int|
                    0 <= k < i ==> (#[trigger] assets@[k])@ == asset_stored(
                        state.assets@[k],
                        paths@[k]@,
                    ),
            decreases state.assets@.len() - i,
        {
            let a: &MediaAsset = &state.assets[i];
            assets.push(
                StoredAsset {
                    id: a.id,
                    path: paths[i].clone(),
                    name: a.name.clone(),
                    duration: a.duration,
                    width: a.width,
                    height: a.height,
                    fps: a.fps,
                    is_video: a.is_video,
                    is_image: a.is_image,
                    audio_channels: a.audio_channels,
                    audio_sample_rate: a.audio_sample_rate,
                },
            );
            i += 1;
        }
        let r = Project {
            assets,
            video_tracks: state.video_tracks.clone(),
            audio_tracks: state.audio_tracks.clone(),
            playhead: state.playhead,
            is_playing: state.is_playing,
            selected_tool: state.selected_tool,
            selected_clip: state.selected_clip,
            zoom_factor: state.zoom_factor,
            scroll_offset: state.scroll_offset,
            next_clip_id: state.next_clip_id,
            next_track_id: state.next_track_id,
        };
        assert(r@.assets =~= project_of(state@, texts(paths@)).assets);
        assert(r@.video_tracks =~= state@.video_tracks);
        assert(r@.audio_tracks =~= state@.audio_tracks);
        r
    }

    /// The editor state of a project. `paths` are the paths of its assets. The sound of the
    /// assets is still to be decoded.
    pub fn open(self, paths: &Vec<PathBuf>) -> (r: EditorState)
        requires
            paths@.len() == self.assets@.len(),
        ensures
            project_of(r@, self@.paths()) == self@,
            forall|i: int|
                0 <= i < r.assets@.len() ==> (#[trigger] r.assets@[i]).path == paths@[i]
                    && is_silent(r.assets@[i]),
    {
        let mut assets: Vec<MediaAsset> = Vec::new();
        let mut i: usize = 0;
        while i < self.assets.len()
            invariant
                i <= self.assets@.len(),
                paths@.len() == self.assets@.len(),
                assets@.len() == i,
                forall|k: int|
                    0 <= k < i ==> asset_stored(#[trigger] assets@[k], self.assets@[k].path@)
                        == self.assets@[k]@ && assets@[k].path == paths@[k] && is_silent(assets@[k]),
            decreases self.assets@.len() - i,
        {
            let a: &StoredAsset = &self.assets[i];
            assets.push(
                MediaAsset {
                    id: a.id,
                    path: paths[i].clone(),
                    name: a.name.clone(),
                    duration: a.duration,
                    width: a.width,
                    height: a.height,
                    fps: a.fps,
                    is_video: a.is_video,
                    is_image: a.is_image,
                    audio_samples: None,
                    audio_channels: a.audio_channels,
                    audio_sample_rate: a.audio_sample_rate,
                },
            );
            i += 1;
        }
        let ghost stored = self@;
        let r = EditorState {
            assets,
            video_tracks: self.video_tracks,
            audio_tracks: self.audio_tracks,
            playhead: self.playhead,
            is_playing: self.is_playing,
            selected_tool: self.selected_tool,
            selected_clip: self.selected_clip,
            zoom_factor: self.zoom_factor,
            scroll_offset: self.scroll_offset,
            next_clip_id: self.next_clip_id,
            next_track_id: self.next_track_id,
        };
        assert(project_of(r@, stored.paths()).assets =~= stored.assets);
        r
    }
}

/// A state that was stored and opened again is the state that it was, but for the decoded
/// sound and the way its paths are kept.
pub proof fn opening_restores_the_state(before: EditorModel, after: EditorModel, paths: Seq<Seq<char>>)
    requires
        paths.len() == before.assets.len(),
        project_of(after, project_of(before, paths).paths()) == project_of(before, paths),
    ensures
        after == (EditorModel { assets: after.assets, ..before }),
        after.assets.len() == before.assets.len(),
        forall|i: int|
            0 <= i < before.assets.len() ==> asset_stored(#[trigger] after.assets[i], paths[i])
                == asset_stored(before.assets[i], paths[i]),
{
    let p = project_of(before, paths);
    let q = project_of(after, p.paths());
    assert(p.assets.len() == q.assets.len());
    assert forall|i: int| 0 <= i < before.assets.len() implies asset_stored(
        #[trigger] after.assets[i],
        paths[i],
    ) == asset_stored(before.assets[i], paths[i]) by {
        assert(p.assets[i] == asset_stored(before.assets[i], paths[i]));
        assert(q.assets[i] == asset_stored(after.assets[i], p.paths()[i]));
    }
    assert(after.video_tracks == q.video_tracks && after.audio_tracks == q.audio_tracks);
}

} // verus!
