//! What the view of the timeline and of the picture promises.

use crate::editor::{Clip, EditorModel};
use crate::laws::playing::{nothing_plays_after, something_ends_at};
use crate::laws::scale::measures;
use crate::layout::TimeScale;
use vstd::prelude::*;

verus! {

/// Whether the content of the timeline ends at `end`: with its last clip, or at `floor` if all
/// clips end before that.
pub open spec fn content_ends(m: EditorModel, floor: int, end: int) -> bool {
    end >= floor && nothing_plays_after(m, end) && (end == floor || something_ends_at(m, end))
}

pub(crate) proof fn lemma_content_ends(m: EditorModel, floor: int, end: int)
    requires
        content_ends(m, floor, end),
    ensures
        m.content_end(floor) == end,
{
    crate::laws::playing::the_content_ends_with_its_last_clip(m, floor);
    let found = m.content_end(floor);
    if found > end {
        assert(something_ends_at(m, found));
    }
    if end > found {
        assert(something_ends_at(m, end));
    }
}

// Scrolling

/// The canvas has room for a minute, for all clips and for the playhead, and for ten seconds
/// more. It can be scrolled by what the window does not show of that.
pub proof fn the_canvas_has_room_for_everything(
    m: EditorModel,
    visible: int,
    end: int,
    width: int,
)
    requires
        content_ends(m, 60_000_000_000, end),
        measures(
            (if m.playhead > end {
                m.playhead as int
            } else {
                end
            }) + 10_000_000_000,
            m.zoom_factor as int,
            width,
        ),
        width - visible <= i64::MAX,
    ensures
        m.max_scroll(visible) == if width > visible {
            width - visible
        } else {
            0
        },
{
    lemma_content_ends(m, 60_000_000_000, end);
}

/// The scroll offset is kept where it is within its limits, and brought to the nearer limit
/// outside of them. While playing it follows the playhead only where that comes nearer than 40
/// points to an edge, and then so that it is 40 points away from it, as far as the limits let
/// it.
pub proof fn the_view_follows_the_playhead(m: EditorModel, visible: int, within: int, at: int)
    requires
        measures(m.playhead as int, m.zoom_factor as int, at),
        ({
            let limit = m.max_scroll(visible);
            &&& 0 <= within <= limit
            &&& 0 <= m.scroll_offset <= limit ==> within == m.scroll_offset
            &&& m.scroll_offset < 0 ==> within == 0
            &&& m.scroll_offset > limit ==> within == limit
        }),
    ensures
        ({
            let limit = m.max_scroll(visible);
            let s = m.settled_scroll(visible);
            let right = at - (visible - 40_000);
            let left = at - 40_000;
            &&& 0 <= s <= limit
            &&& !m.is_playing || limit == 0 ==> s == within
            &&& m.is_playing && limit > 0 && at - within > visible - 40_000 ==> (0 <= right
                <= limit ==> s == right) && (right > limit ==> s == limit) && (right < 0 ==> s
                == 0)
            &&& m.is_playing && limit > 0 && at - within <= visible - 40_000 && at - within
                < 40_000 ==> (0 <= left <= limit ==> s == left) && (left > limit ==> s == limit)
                && (left < 0 ==> s == 0)
            &&& m.is_playing && 40_000 <= at - within <= visible - 40_000 ==> s == within
        }),
{
    assert(m.max_scroll(visible) >= 0);
}

/// The fitting zoom is the largest at which all clips, and at least a second, are in sight,
/// within the limits of the zoom.
pub proof fn the_fitting_zoom_is_the_largest(m: EditorModel, window: int, end: int)
    requires
        content_ends(m, 1_000_000_000, end),
    ensures
        ({
            let room = if window - 176_000 > 200_000 {
                window - 176_000
            } else {
                200_000
            };
            let zoom = m.fitting_zoom(window);
            &&& 5_000 <= zoom <= 100_000
            &&& zoom > 5_000 ==> zoom * end <= room * 1_000_000_000
            &&& zoom < 100_000 ==> room * 1_000_000_000 < (zoom + 1) * end
        }),
{
    lemma_content_ends(m, 1_000_000_000, end);
    let room = if window - 176_000 > 200_000 {
        window - 176_000
    } else {
        200_000
    };
    let n = room * 1_000_000_000;
    let q = n / end;
    let zoom = m.fitting_zoom(window);
    vstd::arithmetic::div_mod::lemma_fundamental_div_mod(n, end);
    assert(end * q == q * end) by (nonlinear_arith);
    assert((q + 1) * end == q * end + end) by (nonlinear_arith);
    if zoom > 5_000 {
        assert(zoom * end <= q * end) by (nonlinear_arith)
            requires
                zoom <= q,
                end > 0,
        ;
    }
    if zoom < 100_000 {
        assert((q + 1) * end <= (zoom + 1) * end) by (nonlinear_arith)
            requires
                q <= zoom,
                end > 0,
        ;
    }
}

// The ruler

/// Whether a second has a tick: it is a whole number of steps, and lies no farther than a step
/// to the left of what is in sight, nor farther than a second to the right of it.
pub open spec fn has_tick(scale: TimeScale, right: int, step: int, second: int) -> bool {
    let from = if scale.time_of(scale.left as int) > 0 {
        scale.time_of(scale.left as int)
    } else {
        0
    };
    &&& second % step == 0
    &&& (second + step) * 1_000_000_000 > from
    &&& (second - 1) * 1_000_000_000 < scale.time_of(right)
}

/// The ruler has a tick for every second, every five or every ten, depending on the zoom, from
/// the left edge of the canvas to the right one, in order and without a gap.
pub proof fn the_ruler_has_every_tick(scale: TimeScale, right: int, second: int)
    ensures
        ({
            let step = if scale.zoom >= 20_000 {
                1int
            } else if scale.zoom >= 5_000 {
                5
            } else {
                10
            };
            let ticks = crate::layout::ticks(scale, right);
            &&& crate::layout::tick_seconds(scale.zoom as int) == step
            &&& forall|i: int|
                0 <= i < ticks.len() - 1 ==> #[trigger] ticks[i] + step == ticks[i + 1]
            &&& forall|i: int|
                0 <= i < ticks.len() ==> has_tick(scale, right, step, #[trigger] ticks[i])
            &&& second >= 0 && has_tick(scale, right, step, second) ==> ticks.contains(second)
        }),
{
    let step = crate::layout::tick_seconds(scale.zoom as int);
    let ticks = crate::layout::ticks(scale, right);
    let first = crate::layout::first_tick(scale);
    let last = crate::layout::last_second(scale, right);
    let from = if scale.time_of(scale.left as int) > 0 {
        scale.time_of(scale.left as int)
    } else {
        0
    };
    let whole = from / 1_000_000_000;
    let steps = whole / step;
    vstd::arithmetic::div_mod::lemma_fundamental_div_mod(whole, step);
    vstd::arithmetic::div_mod::lemma_div_pos_is_pos(whole, step);
    vstd::arithmetic::div_mod::lemma_mod_multiples_basic(steps, step);
    assert(step * steps == steps * step) by (nonlinear_arith);
    assert(steps * step >= 0) by (nonlinear_arith)
        requires
            steps >= 0,
            step > 0,
    ;
    assert(first == steps * step);
    let span = last - first;
    assert forall|i: int| 0 <= i < ticks.len() implies has_tick(
        scale,
        right,
        step,
        #[trigger] ticks[i],
    ) by {
        assert(ticks[i] == first + i * step);
        assert((first + i * step) % step == 0) by {
            vstd::arithmetic::div_mod::lemma_mod_multiples_vanish(i, first, step);
            assert(step * i == i * step) by (nonlinear_arith);
        }
        assert(i * step <= span) by (nonlinear_arith)
            requires
                i <= span / step,
                step > 0,
        ;
        assert(i * step >= 0) by (nonlinear_arith)
            requires
                i >= 0,
                step > 0,
        ;
    }
    assert forall|i: int| 0 <= i < ticks.len() - 1 implies #[trigger] ticks[i] + step == ticks[i
        + 1] by {
        assert((i + 1) * step == i * step + step) by (nonlinear_arith);
    }
    if second >= 0 && has_tick(scale, right, step, second) {
        let d = second - first;
        assert(second + step > whole);
        assert(second <= last);
        let all = second / step;
        vstd::arithmetic::div_mod::lemma_fundamental_div_mod(second, step);
        assert(step * all == all * step) by (nonlinear_arith);
        assert(all >= steps) by (nonlinear_arith)
            requires
                all * step + step > steps * step,
                step > 0,
        ;
        let i = all - steps;
        assert(d == i * step) by (nonlinear_arith)
            requires
                d == all * step - steps * step,
                i == all - steps,
        ;
        assert(d >= 0) by (nonlinear_arith)
            requires
                d == i * step,
                i >= 0,
                step > 0,
        ;
        assert(0 <= i <= span / step) by (nonlinear_arith)
            requires
                d == i * step,
                0 <= d <= span,
                step > 0,
        ;
        assert(ticks[i] == second);
    }
}

/// Labels stand five, ten or thirty seconds apart, depending on the zoom.
pub proof fn labels_are_sparser_than_ticks(zoom: int)
    ensures
        zoom >= 20_000 ==> crate::layout::label_seconds(zoom) == 5,
        5_000 <= zoom < 20_000 ==> crate::layout::label_seconds(zoom) == 10,
        zoom < 5_000 ==> crate::layout::label_seconds(zoom) == 30,
        crate::layout::label_seconds(zoom) % crate::layout::tick_seconds(zoom) == 0,
{
}

// Numbers as text

/// The number that a run of decimal digits stands for.
pub open spec fn number_of(text: Seq<char>) -> int
    decreases text.len(),
{
    if text.len() == 0 {
        0
    } else {
        number_of(text.drop_last()) * 10 + (text.last() as int - '0' as int)
    }
}

/// Whether a text is made of decimal digits.
pub open spec fn is_digits(text: Seq<char>) -> bool {
    text.len() > 0 && forall|i: int|
        0 <= i < text.len() ==> '0' as int <= #[trigger] (text[i] as int) <= '9' as int
}

/// A number as text reads as that number, in digits and without a zero in front.
pub proof fn numbers_read_as_themselves(n: nat)
    ensures
        is_digits(crate::text::decimal(n)),
        number_of(crate::text::decimal(n)) == n,
        n >= 10 ==> crate::text::decimal(n)[0] != '0',
        n < 10 ==> crate::text::decimal(n).len() == 1,
    decreases n,
{
    let text = crate::text::decimal(n);
    if n < 10 {
        assert(text.drop_last() =~= Seq::empty());
        assert(number_of(text.drop_last()) == 0);
    } else {
        numbers_read_as_themselves(n / 10);
        let front = crate::text::decimal(n / 10);
        assert(text.drop_last() =~= front);
        assert(text[0] == front[0]);
        if n / 10 < 10 {
            assert(number_of(front) == n / 10);
            assert(front.drop_last() =~= Seq::empty());
            assert(number_of(front) == 0 * 10 + (front[0] as int - '0' as int));
        }
        assert forall|i: int| 0 <= i < text.len() implies '0' as int <= #[trigger] (text[i] as int)
            <= '9' as int by {
            if i < front.len() {
                assert(text[i] == front[i]);
                assert('0' as int <= front[i] as int <= '9' as int);
            }
        }
    }
}

/// A number with at least two digits reads as that number.
pub proof fn two_digits_read_as_themselves(n: nat)
    ensures
        is_digits(crate::text::two_digits(n)),
        number_of(crate::text::two_digits(n)) == n,
        crate::text::two_digits(n).len() >= 2,
        n < 100 ==> crate::text::two_digits(n).len() == 2,
{
    numbers_read_as_themselves(n);
    let text = crate::text::two_digits(n);
    if n < 10 {
        let front = text.drop_last();
        assert(front =~= seq!['0']);
        assert(front.drop_last() =~= Seq::empty());
        assert(number_of(front.drop_last()) == 0);
        assert(number_of(front) == 0);
        assert(crate::text::decimal(n).drop_last() =~= Seq::empty());
        assert(number_of(crate::text::decimal(n)) == 0 * 10 + (crate::text::decimal(n)[0] as int
            - '0' as int));
    } else {
        numbers_read_as_themselves(n / 10);
    }
}

/// The label of a tick gives whole minutes and the seconds that are left.
pub proof fn labels_give_minutes_and_seconds(second: nat, minutes: nat, seconds: nat)
    requires
        second == minutes * 60 + seconds,
        seconds < 60,
    ensures
        crate::layout::tick_text(second) == crate::text::decimal(minutes) + ":"@
            + crate::text::two_digits(seconds),
{
}

/// The playhead's label gives whole minutes, the seconds that are left and hundredths, rounded
/// down.
pub proof fn the_playhead_is_told_in_hundredths(
    t: nat,
    minutes: nat,
    seconds: nat,
    hundredths: nat,
    rest: nat,
)
    requires
        t == minutes * 60_000_000_000 + seconds * 1_000_000_000 + hundredths * 10_000_000 + rest,
        seconds < 60,
        hundredths < 100,
        rest < 10_000_000,
    ensures
        crate::layout::playhead_text(t) == "Time: "@ + crate::text::two_digits(minutes) + ":"@
            + crate::text::two_digits(seconds) + "."@ + crate::text::two_digits(hundredths),
{
    assert(t / 60_000_000_000 == minutes);
    assert(t / 1_000_000_000 == minutes * 60 + seconds);
    assert(t / 1_000_000_000 % 60 == seconds);
    assert(t % 1_000_000_000 / 10_000_000 == hundredths);
}

/// Two words are the same where they have the same letters, an ASCII capital being the same
/// as the small letter.
pub proof fn capitals_do_not_count(a: Seq<char>, b: Seq<char>)
    ensures
        crate::text::same_word(a, b) ==> a.len() == b.len(),
        a == b ==> crate::text::same_word(a, b),
        crate::text::same_word(a, b) ==> forall|i: int|
            0 <= i < a.len() ==> {
                let (x, y) = (#[trigger] a[i] as int, b[i] as int);
                ||| x == y
                ||| 'A' as int <= x <= 'Z' as int && y == x + 32
                ||| 'A' as int <= y <= 'Z' as int && x == y + 32
            },
        a.len() == b.len() && (forall|i: int|
            0 <= i < a.len() ==> {
                let (x, y) = (#[trigger] a[i] as int, b[i] as int);
                ||| x == y
                ||| 'A' as int <= x <= 'Z' as int && y == x + 32
                ||| 'A' as int <= y <= 'Z' as int && x == y + 32
            }) ==> crate::text::same_word(a, b),
{
}

// The waveform

/// Whether `t` is the instant of the source at a column of a clip's waveform: the stretch of
/// the source is drawn over the whole width, at least a microsecond of it.
pub open spec fn is_drawn_at(clip: Clip, column: int, width: int, t: int) -> bool {
    let between = clip.source_trim_end - clip.source_trim_start;
    let span = if between > 1_000 {
        between
    } else {
        1_000
    };
    let at = t - clip.source_trim_start;
    at * width <= span * column < (at + 1) * width
}

/// A column of a waveform shows the first channel's sample of the instant that is drawn there.
/// What lies beside the clip is drawn as its edges are.
pub proof fn waveforms_show_their_samples(
    clip: Clip,
    channels: int,
    rate: int,
    column: int,
    width: int,
    t: int,
    frame: int,
)
    requires
        width >= 1,
        0 <= column <= width,
        is_drawn_at(clip, column, width, t),
        channels >= 1,
        rate >= 1,
        frame * 1_000_000_000 <= (if t > 0 {
            t
        } else {
            0
        }) * rate < (frame + 1) * 1_000_000_000,
    ensures
        crate::layout::waveform_index(clip, channels, rate, column, width) == frame * channels,
{
    let between = clip.source_trim_end - clip.source_trim_start;
    let span = if between > 1_000 {
        between
    } else {
        1_000
    };
    let at = t - clip.source_trim_start;
    let n = span * column;
    assert((at + 1) * width == at * width + width) by (nonlinear_arith);
    vstd::arithmetic::div_mod::lemma_fundamental_div_mod_converse(n, width, at, n - at * width);
    assert(span * column / width == at);
}

/// Beside the clip the waveform is that of the nearer edge; without channels or without a rate
/// one is assumed.
pub proof fn waveforms_end_with_their_clips(
    clip: Clip,
    channels: int,
    rate: int,
    column: int,
    width: int,
)
    requires
        width >= 1,
    ensures
        column < 0 ==> crate::layout::waveform_index(clip, channels, rate, column, width)
            == crate::layout::waveform_index(clip, channels, rate, 0, width),
        column > width ==> crate::layout::waveform_index(clip, channels, rate, column, width)
            == crate::layout::waveform_index(clip, channels, rate, width, width),
        channels < 1 ==> crate::layout::waveform_index(clip, channels, rate, column, width)
            == crate::layout::waveform_index(clip, 1, rate, column, width),
        rate < 1 ==> crate::layout::waveform_index(clip, channels, rate, column, width)
            == crate::layout::waveform_index(clip, channels, 1, column, width),
{
}

// The viewport

/// A picture is shown as large as the area allows, with its own proportions: it is as wide or
/// as high as the area and no larger in either. A picture without a size fills the area.
pub proof fn pictures_fit_their_area(w: int, h: int, area_w: int, area_h: int)
    requires
        area_w >= 0,
        area_h >= 0,
    ensures
        ({
            let (x, y) = crate::preview::fitted(w, h, area_w, area_h);
            if w <= 0 || h <= 0 {
                x == area_w && y == area_h
            } else {
                &&& 0 <= x <= area_w
                &&& 0 <= y <= area_h
                &&& (x == area_w && y * w <= area_w * h < (y + 1) * w) || (y == area_h && x * h
                    <= area_h * w < (x + 1) * h)
            }
        }),
{
    if w > 0 && h > 0 {
        let (a, b) = (area_w * h, area_h * w);
        assert(a >= 0 && b >= 0) by (nonlinear_arith)
            requires
                a == area_w * h,
                b == area_h * w,
                area_w >= 0,
                area_h >= 0,
                w > 0,
                h > 0,
        ;
        if a <= b {
            let y = a / w;
            vstd::arithmetic::div_mod::lemma_fundamental_div_mod(a, w);
            vstd::arithmetic::div_mod::lemma_div_pos_is_pos(a, w);
            assert(w * y == y * w) by (nonlinear_arith);
            assert((y + 1) * w == y * w + w) by (nonlinear_arith);
            assert(y <= area_h) by (nonlinear_arith)
                requires
                    y * w <= area_h * w,
                    w > 0,
            ;
        } else {
            let x = b / h;
            vstd::arithmetic::div_mod::lemma_fundamental_div_mod(b, h);
            vstd::arithmetic::div_mod::lemma_div_pos_is_pos(b, h);
            assert(h * x == x * h) by (nonlinear_arith);
            assert((x + 1) * h == x * h + h) by (nonlinear_arith);
            assert(x <= area_w) by (nonlinear_arith)
                requires
                    x * h <= area_w * h,
                    h > 0,
            ;
        }
    }
}

/// The greater and the lesser of two numbers, and how far they are apart.
pub proof fn bounds_and_distances(a: int, b: int)
    ensures
        a >= b ==> crate::drag::at_least(a, b) == a && crate::drag::at_most(a, b) == b,
        a < b ==> crate::drag::at_least(a, b) == b && crate::drag::at_most(a, b) == a,
        a >= b ==> crate::drag::distance(a, b) == a - b,
        a < b ==> crate::drag::distance(a, b) == b - a,
{
}

} // verus!
