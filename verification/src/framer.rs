//! Frame-level data: spacing configuration, the assembled frame record, and
//! the position-vector form of the two aligned groups.

use vstd::prelude::*;

use crate::positions::PositionedValue;
use crate::positions::default_spacing;
use crate::positions::get_positions;
use crate::positions::key_text_width;
use crate::positions::layout_model;
use crate::positions::left_fits;
use crate::positions::left_icon_pos;
use crate::positions::left_text_pos;
use crate::positions::right_fits;
use crate::positions::right_icon_off;
use crate::positions::right_text_off;
use crate::positions::text_width;
use crate::positions::views_of;
use crate::positions::lemma_left_pos_nonneg;
use crate::positions::lemma_right_off_nonneg;
use crate::text_values::TextValues;
use crate::text_values::TextValuesKeys;
use crate::text_values::get_text_values;

verus! {

use vstd::arithmetic::mul::lemma_mul_nonnegative;
use vstd::arithmetic::mul::lemma_mul_inequality;
use vstd::arithmetic::mul::lemma_mul_is_distributive_add;

/// The three pixel constants that govern spacing inside the strip: the
/// assumed advance width of one text byte, the gap inserted between adjacent
/// boundaries, and the square icon footprint.
pub struct FrameSettings {
    pub letter_width: i32,
    pub border: i32,
    pub icon_size: i32,
}

/// The spacing constants are positive, as the layout formulas assume.
pub open spec fn spacing_ok(s: FrameSettings) -> bool {
    0 < s.letter_width && 0 < s.border && 0 < s.icon_size
}

/// The x-positions of one aligned group, split into two parallel vectors.
#[derive(Debug, PartialEq)]
pub struct Positions {
    /// x-positions of the icons, in their order of display.
    pub icons: Vec<i32>,
    /// x-positions of the labels/values, in their order of display.
    pub values: Vec<i32>,
}

/// Everything the renderer needs for one frame: the strip's pixel size and
/// the positioned items of both aligned groups, in visual order.
#[derive(Debug)]
pub struct FrameData {
    pub width: u32,
    pub height: u32,
    pub values: Vec<PositionedValue>,
}

/// Computes the left-aligned group's positions, in the given display order,
/// as parallel icon and label position vectors.
#[verifier::loop_isolation(false)]
pub fn get_left_aligned_positions(
    frame_settings: &FrameSettings,
    text_values: &TextValues,
    display_order: &Vec<TextValuesKeys>,
) -> (r: Positions)
    requires
        spacing_ok(*frame_settings),
        left_fits(*text_values, *frame_settings, display_order@),
    ensures
        r.icons@.len() == display_order@.len(),
        r.values@.len() == display_order@.len(),
        forall|i: int|
            0 <= i < display_order@.len() ==> r.icons@[i] == left_icon_pos(
                *text_values,
                *frame_settings,
                display_order@,
                i,
            ),
        forall|i: int|
            0 <= i < display_order@.len() ==> r.values@[i] == left_text_pos(
                *text_values,
                *frame_settings,
                display_order@,
                i,
            ),
{
    let ghost tv = *text_values;
    let ghost s = *frame_settings;
    let ghost keys = display_order@;
    let mut icons: Vec<i32> = Vec::new();
    let mut values: Vec<i32> = Vec::new();
    let mut idx: usize = 0;
    while idx < display_order.len()
        invariant
            idx <= keys.len(),
            icons@.len() == idx as int,
            values@.len() == idx as int,
            forall|i: int| 0 <= i < idx as int ==> #[trigger] icons@[i] == left_icon_pos(tv, s, keys, i),
            forall|i: int| 0 <= i < idx as int ==> #[trigger] values@[i] == left_text_pos(tv, s, keys, i),
        decreases keys.len() - idx,
    {
        let ghost i = idx as int;
        proof {
            lemma_left_pos_nonneg(tv, s, keys, i);
            assert(left_text_pos(tv, s, keys, i) <= i32::MAX);
        }
        let next_icon_position = if idx == 0 {
            frame_settings.border
        } else {
            let last_value_position = values[idx - 1];
            let last_prop = display_order[idx - 1];
            let last_value_size = text_values.get_property(&last_prop).as_str().len();
            proof {
                let w = key_text_width(tv, keys, i - 1);
                lemma_mul_nonnegative(w, s.letter_width as int);
                lemma_mul_inequality(1, s.letter_width as int, w);
                lemma_left_pos_nonneg(tv, s, keys, i - 1);
                assert(last_value_position == left_text_pos(tv, s, keys, i - 1));
                assert(left_icon_pos(tv, s, keys, i) == left_text_pos(tv, s, keys, i - 1) + w
                    * s.letter_width + s.border);
                assert(last_value_size == w);
            }
            last_value_position + (last_value_size as i32) * frame_settings.letter_width
                + frame_settings.border
        };
        icons.push(next_icon_position);
        values.push(next_icon_position + frame_settings.icon_size + frame_settings.border);
        idx = idx + 1;
    }
    Positions { icons, values }
}

/// Computes the right-aligned group's positions as parallel icon and label
/// position vectors, in left-to-right visual order. The offsets are
/// accumulated from the visually last item inward, then inverted by
/// subtracting each from the strip width; positions below zero are kept,
/// never clamped.
#[verifier::loop_isolation(false)]
pub fn get_right_aligned_positions(
    frame_settings: &FrameSettings,
    text_values: &TextValues,
    display_order: &Vec<TextValuesKeys>,
    width: u32,
) -> (r: Positions)
    requires
        spacing_ok(*frame_settings),
        right_fits(*text_values, *frame_settings, display_order@),
        width <= i32::MAX as u32,
    ensures
        r.icons@.len() == display_order@.len(),
        r.values@.len() == display_order@.len(),
        forall|i: int|
            0 <= i < display_order@.len() ==> r.icons@[i] == width - right_icon_off(
                *text_values,
                *frame_settings,
                display_order@,
                i,
            ),
        forall|i: int|
            0 <= i < display_order@.len() ==> r.values@[i] == width - right_text_off(
                *text_values,
                *frame_settings,
                display_order@,
                i,
            ),
{
    let ghost tv = *text_values;
    let ghost s = *frame_settings;
    let ghost keys = display_order@;
    let n = display_order.len();
    let mut icons_off: Vec<i32> = Vec::new();
    let mut values_off: Vec<i32> = Vec::new();
    let mut j: usize = 0;
    while j < n
        invariant
            j <= n,
            icons_off@.len() == j as int,
            values_off@.len() == j as int,
            forall|k: int|
                0 <= k < j as int ==> #[trigger] icons_off@[k] == right_icon_off(
                    tv,
                    s,
                    keys,
                    n - 1 - k,
                ),
            forall|k: int|
                0 <= k < j as int ==> #[trigger] values_off@[k] == right_text_off(
                    tv,
                    s,
                    keys,
                    n - 1 - k,
                ),
        decreases n - j,
    {
        let d = n - 1 - j;
        let ghost di = d as int;
        let last_icon_position = if j > 0 {
            icons_off[j - 1]
        } else {
            0
        };
        let prop = display_order[d];
        let text_size = text_values.get_property(&prop).as_str().len();
        proof {
            let w = key_text_width(tv, keys, di);
            lemma_mul_nonnegative(w, s.letter_width as int);
            lemma_mul_inequality(1, s.letter_width as int, w);
            lemma_right_off_nonneg(tv, s, keys, di);
            if j > 0 {
                lemma_right_off_nonneg(tv, s, keys, di + 1);
                assert(last_icon_position == right_icon_off(tv, s, keys, di + 1));
            }
            assert(right_icon_off(tv, s, keys, di) <= i32::MAX);
            assert(right_icon_off(tv, s, keys, di) == last_icon_position + s.border + w
                * s.letter_width + s.border + s.icon_size);
            assert(0 <= w);
            assert(w <= w * (s.letter_width as int)) by (nonlinear_arith)
                requires
                    0 <= w,
                    1 <= s.letter_width as int,
            ;
            assert(text_size == w);
        }
        let value = last_icon_position + frame_settings.border + (text_size as i32)
            * frame_settings.letter_width;
        let icon = value + frame_settings.border + frame_settings.icon_size;
        values_off.push(value);
        icons_off.push(icon);
        j = j + 1;
    }
    let width_i32 = width as i32;
    let mut icons: Vec<i32> = Vec::new();
    let mut values: Vec<i32> = Vec::new();
    let mut i: usize = 0;
    while i < n
        invariant
            i <= n,
            icons_off@.len() == n as int,
            values_off@.len() == n as int,
            forall|k: int|
                0 <= k < n as int ==> #[trigger] icons_off@[k] == right_icon_off(
                    tv,
                    s,
                    keys,
                    n - 1 - k,
                ),
            forall|k: int|
                0 <= k < n as int ==> #[trigger] values_off@[k] == right_text_off(
                    tv,
                    s,
                    keys,
                    n - 1 - k,
                ),
            icons@.len() == i as int,
            values@.len() == i as int,
            forall|k: int|
                0 <= k < i as int ==> #[trigger] icons@[k] == width - right_icon_off(tv, s, keys, k),
            forall|k: int|
                0 <= k < i as int ==> #[trigger] values@[k] == width - right_text_off(tv, s, keys, k),
        decreases n - i,
    {
        let d = n - 1 - i;
        proof {
            lemma_right_off_nonneg(tv, s, keys, i as int);
            assert(icons_off@[d as int] == right_icon_off(tv, s, keys, i as int));
            assert(values_off@[d as int] == right_text_off(tv, s, keys, i as int));
        }
        icons.push(width_i32 - icons_off[d]);
        values.push(width_i32 - values_off[d]);
        i = i + 1;
    }
    Positions { icons, values }
}

/// The most bytes a field's display text may hold for a frame record to be
/// built. Far below any real display text's length, and small enough that
/// every position of a five-field layout fits a signed 32-bit coordinate.
pub const MAX_FIELD_TEXT_BYTES: usize = 65536;

/// Every field text is within `MAX_FIELD_TEXT_BYTES`.
pub open spec fn texts_within_limit(tv: TextValues) -> bool {
    &&& text_width(tv.camera@) <= MAX_FIELD_TEXT_BYTES
    &&& text_width(tv.aperture@) <= MAX_FIELD_TEXT_BYTES
    &&& text_width(tv.shutter_speed@) <= MAX_FIELD_TEXT_BYTES
    &&& text_width(tv.focal_length@) <= MAX_FIELD_TEXT_BYTES
    &&& text_width(tv.iso@) <= MAX_FIELD_TEXT_BYTES
}

/// The display order of the left-aligned group of a frame: the camera label.
pub open spec fn spec_left_order() -> Seq<TextValuesKeys> {
    seq![TextValuesKeys::Camera]
}

/// The display order of the right-aligned group of a frame: the exposure
/// values.
pub open spec fn spec_right_order() -> Seq<TextValuesKeys> {
    seq![
        TextValuesKeys::Aperture,
        TextValuesKeys::ShutterSpeed,
        TextValuesKeys::FocalLength,
        TextValuesKeys::Iso,
    ]
}

/// With every text width at most `bound`, each left-aligned text position is
/// at most `i + 1` spans, a span being the widest an item and its gaps can be.
proof fn lemma_left_pos_bounded(
    tv: TextValues,
    s: FrameSettings,
    keys: Seq<TextValuesKeys>,
    i: int,
    bound: int,
)
    requires
        spacing_ok(s),
        0 <= i < keys.len(),
        0 <= bound,
        forall|k: int| 0 <= k < keys.len() ==> key_text_width(tv, keys, k) <= bound,
    ensures
        left_text_pos(tv, s, keys, i) <= (i + 1) * (bound * s.letter_width + s.icon_size + 2
            * s.border),
    decreases i,
{
    let span = bound * s.letter_width + s.icon_size + 2 * s.border;
    lemma_mul_nonnegative(bound, s.letter_width as int);
    if i == 0 {
        assert(left_text_pos(tv, s, keys, 0) == s.border + s.icon_size + s.border);
        assert(1 * span == span);
    } else {
        lemma_left_pos_bounded(tv, s, keys, i - 1, bound);
        lemma_mul_inequality(key_text_width(tv, keys, i - 1), bound, s.letter_width as int);
        lemma_mul_is_distributive_add(span, i, 1);
        assert(span * (i + 1) == span * i + span * 1);
    }
}

/// With every text width at most `bound`, each right-aligned icon offset is
/// at most `keys.len() - i` spans.
proof fn lemma_right_off_bounded(
    tv: TextValues,
    s: FrameSettings,
    keys: Seq<TextValuesKeys>,
    i: int,
    bound: int,
)
    requires
        spacing_ok(s),
        0 <= i < keys.len(),
        0 <= bound,
        forall|k: int| 0 <= k < keys.len() ==> key_text_width(tv, keys, k) <= bound,
    ensures
        right_icon_off(tv, s, keys, i) <= (keys.len() - i) * (bound * s.letter_width + s.icon_size
            + 2 * s.border),
    decreases keys.len() - i,
{
    let span = bound * s.letter_width + s.icon_size + 2 * s.border;
    lemma_mul_nonnegative(bound, s.letter_width as int);
    lemma_mul_inequality(key_text_width(tv, keys, i), bound, s.letter_width as int);
    if i >= keys.len() - 1 {
        assert(right_icon_off(tv, s, keys, i) == s.border + key_text_width(tv, keys, i)
            * s.letter_width + s.border + s.icon_size);
        assert(right_icon_off(tv, s, keys, i) <= span);
        lemma_mul_is_distributive_add(span, keys.len() - i - 1, 1);
        assert(span * (keys.len() - i) == span * (keys.len() - i - 1) + span * 1);
        lemma_mul_nonnegative(keys.len() - i - 1, span);
        assert(span <= (keys.len() - i) * span);
    } else {
        lemma_right_off_bounded(tv, s, keys, i + 1, bound);
        assert(right_icon_off(tv, s, keys, i) == right_icon_off(tv, s, keys, i + 1) + s.border
            + key_text_width(tv, keys, i) * s.letter_width + s.border + s.icon_size);
        lemma_mul_is_distributive_add(span, keys.len() - i - 1, 1);
        assert(span * (keys.len() - i) == span * (keys.len() - i - 1) + span * 1);
        assert(right_icon_off(tv, s, keys, i) <= (keys.len() - i - 1) * span + span);
    }
}

/// Texts within `MAX_FIELD_TEXT_BYTES` keep every position of a frame's
/// layout, whose groups hold at most five items, within a signed 32-bit
/// coordinate.
proof fn lemma_limited_texts_fit(tv: TextValues, keys: Seq<TextValuesKeys>)
    requires
        texts_within_limit(tv),
        keys.len() <= 5,
    ensures
        left_fits(tv, default_spacing(), keys),
        right_fits(tv, default_spacing(), keys),
{
    let s = default_spacing();
    let bound = MAX_FIELD_TEXT_BYTES as int;
    let span = bound * s.letter_width + s.icon_size + 2 * s.border;
    assert forall|k: int| 0 <= k < keys.len() implies key_text_width(tv, keys, k) <= bound by {
        assert(key_text_width(tv, keys, k) == text_width(tv.spec_property(keys[k])@));
    }
    assert forall|i: int| 0 <= i < keys.len() implies left_text_pos(tv, s, keys, i)
        <= i32::MAX by {
        lemma_left_pos_bounded(tv, s, keys, i, bound);
        lemma_mul_inequality(i + 1, 5, span);
        assert((i + 1) * span <= 5 * span);
    }
    assert forall|i: int| 0 <= i < keys.len() implies right_icon_off(tv, s, keys, i)
        <= i32::MAX by {
        lemma_right_off_bounded(tv, s, keys, i, bound);
        lemma_mul_inequality(keys.len() - i, 5, span);
        assert((keys.len() - i) * span <= 5 * span);
    }
}

/// The file name a photograph's frame is written to, from the photograph's
/// file stem: the stem with "_frame" appended and the "svg" extension.
pub fn frame_file_name(file_stem: &str) -> (r: String)
    ensures
        r@ == file_stem@ + "_frame.svg"@,
{
    let mut name = file_stem.to_owned();
    name.append("_frame.svg");
    proof {
        assert(name@ =~= file_stem@ + "_frame.svg"@);
    }
    name
}

/// Why a frame record cannot be built from a strip size and field texts.
#[derive(Copy, Clone, Debug, PartialEq, Eq)]
pub enum FrameError {
    /// The strip width exceeds the largest signed 32-bit coordinate.
    StripTooWide,
    /// A field's display text is longer than `MAX_FIELD_TEXT_BYTES` bytes.
    FieldTextTooLong,
}

/// Builds the frame record from a strip size and resolved field texts: the
/// camera label laid out on the left, the exposure values on the right, with
/// the default spacing. Succeeds exactly when the strip width fits a signed
/// 32-bit coordinate and every field text is at most `MAX_FIELD_TEXT_BYTES`
/// bytes; the positions then follow the layout model.
pub fn frame_data_from_values(width: u32, height: u32, text_values: TextValues) -> (r: Result<
    FrameData,
    FrameError,
>)
    ensures
        width > i32::MAX ==> r == Result::<FrameData, FrameError>::Err(FrameError::StripTooWide),
        width <= i32::MAX && !texts_within_limit(text_values) ==> r == Result::<
            FrameData,
            FrameError,
        >::Err(FrameError::FieldTextTooLong),
        width <= i32::MAX && texts_within_limit(text_values) ==> (r matches Result::Ok(fd)
            && fd.width == width && fd.height == height && views_of(fd.values@) == layout_model(
            text_values,
            default_spacing(),
            width as int,
            spec_left_order(),
            spec_right_order(),
        )),
{
    if width > i32::MAX as u32 {
        return Result::Err(FrameError::StripTooWide);
    }
    let within = text_values.camera.as_str().as_bytes().len() <= MAX_FIELD_TEXT_BYTES
        && text_values.aperture.as_str().as_bytes().len() <= MAX_FIELD_TEXT_BYTES
        && text_values.shutter_speed.as_str().as_bytes().len() <= MAX_FIELD_TEXT_BYTES
        && text_values.focal_length.as_str().as_bytes().len() <= MAX_FIELD_TEXT_BYTES
        && text_values.iso.as_str().as_bytes().len() <= MAX_FIELD_TEXT_BYTES;
    if !within {
        return Result::Err(FrameError::FieldTextTooLong);
    }
    let left_display_order = vec![TextValuesKeys::Camera];
    let right_display_order = vec![
        TextValuesKeys::Aperture,
        TextValuesKeys::ShutterSpeed,
        TextValuesKeys::FocalLength,
        TextValuesKeys::Iso,
    ];
    proof {
        assert(left_display_order@ =~= spec_left_order());
        assert(right_display_order@ =~= spec_right_order());
        lemma_limited_texts_fit(text_values, left_display_order@);
        lemma_limited_texts_fit(text_values, right_display_order@);
    }
    let values = get_positions(&text_values, width, &left_display_order, &right_display_order);
    Result::Ok(FrameData { width, height, values })
}

/// Builds the frame record for a photograph: resolves the field display texts
/// from its Exif data, then lays them out on a strip of the given size. The
/// texts depend on the Exif contents; whatever they are, a returned record
/// carries the given strip size and the layout model of some field texts
/// within the length limit.
pub fn get_frame_data(dimensions: (u32, u32), exif_data: &exif::Exif) -> (r: Result<
    FrameData,
    FrameError,
>)
    ensures
        r matches Result::Ok(fd) ==> {
            &&& fd.width == dimensions.0
            &&& fd.height == dimensions.1
            &&& exists|tv: TextValues|
                texts_within_limit(tv) && views_of(fd.values@) == layout_model(
                    tv,
                    default_spacing(),
                    dimensions.0 as int,
                    spec_left_order(),
                    spec_right_order(),
                )
        },
{
    let (width, height) = dimensions;
    let text_values = get_text_values(exif_data);
    let ghost tv = text_values;
    let r = frame_data_from_values(width, height, text_values);
    proof {
        if r is Ok {
            assert(texts_within_limit(tv) && views_of(r->Ok_0.values@) == layout_model(
                tv,
                default_spacing(),
                width as int,
                spec_left_order(),
                spec_right_order(),
            ));
        }
    }
    r
}

} // verus!
