//! The layout engine: exact horizontal pixel positions for each field's icon
//! and text label, split into a left-aligned group growing rightward from the
//! strip's left edge and a right-aligned group growing leftward from the
//! strip's right edge.

use vstd::prelude::*;

use crate::framer::FrameSettings;
use crate::framer::spacing_ok;
use crate::text_values::TextValues;
use crate::text_values::TextValuesKeys;

verus! {

use vstd::arithmetic::mul::lemma_mul_nonnegative;
use vstd::arithmetic::mul::lemma_mul_inequality;

/// Number of UTF-8 bytes of a text: the measure the layout uses as a crude
/// per-character text width, multiplied by the fixed letter width.
pub open spec fn text_width(s: Seq<char>) -> int {
    vstd::utf8::encode_utf8(s).len() as int
}

/// Text width of the field selected by `keys[i]`.
pub open spec fn key_text_width(tv: TextValues, keys: Seq<TextValuesKeys>, i: int) -> int {
    text_width(tv.spec_property(keys[i])@)
}

/// x-position of the left edge of the icon of the `i`-th item of the
/// left-aligned group. The first icon sits one border gap from the strip's
/// left edge; each further icon starts one border gap after the previous
/// item's text ends (text end approximated as text position plus text width
/// times letter width).
pub open spec fn left_icon_pos(
    tv: TextValues,
    s: FrameSettings,
    keys: Seq<TextValuesKeys>,
    i: int,
) -> int
    decreases i,
{
    if i <= 0 {
        s.border as int
    } else {
        left_icon_pos(tv, s, keys, i - 1) + s.icon_size + s.border + key_text_width(
            tv,
            keys,
            i - 1,
        ) * s.letter_width + s.border
    }
}

/// x-position of the left edge of the text of the `i`-th item of the
/// left-aligned group: one icon footprint and one border gap after its icon.
pub open spec fn left_text_pos(
    tv: TextValues,
    s: FrameSettings,
    keys: Seq<TextValuesKeys>,
    i: int,
) -> int {
    left_icon_pos(tv, s, keys, i) + s.icon_size + s.border
}

/// Every position of the left-aligned group fits in a signed 32-bit pixel
/// coordinate. The text position of an item is the largest value the
/// computation of that item touches, so bounding it bounds them all.
pub open spec fn left_fits(tv: TextValues, s: FrameSettings, keys: Seq<TextValuesKeys>) -> bool {
    forall|i: int| 0 <= i < keys.len() ==> left_text_pos(tv, s, keys, i) <= i32::MAX
}

/// A positioned item of the final layout: the x-offsets of its icon's and its
/// text's left edges, the display text itself, and the field it stands for.
/// Positions may be negative or exceed the nominal strip width when the strip
/// is too narrow for its content; they are never clamped.
#[derive(Debug, PartialEq, Clone)]
pub struct PositionedValue {
    pub text_position: i32,
    pub icon_position: i32,
    pub text: String,
    pub value_key: TextValuesKeys,
}

/// The mathematical model of a positioned item.
pub struct PositionedValueModel {
    pub text_position: int,
    pub icon_position: int,
    pub text: Seq<char>,
    pub value_key: TextValuesKeys,
}

impl View for PositionedValue {
    type V = PositionedValueModel;

    open spec fn view(&self) -> PositionedValueModel {
        PositionedValueModel {
            text_position: self.text_position as int,
            icon_position: self.icon_position as int,
            text: self.text@,
            value_key: self.value_key,
        }
    }
}

/// The models of a sequence of positioned items.
pub open spec fn views_of(vs: Seq<PositionedValue>) -> Seq<PositionedValueModel> {
    vs.map_values(|p: PositionedValue| p@)
}

/// The `i`-th item of the left-aligned group.
pub open spec fn left_item(
    tv: TextValues,
    s: FrameSettings,
    keys: Seq<TextValuesKeys>,
    i: int,
) -> PositionedValueModel {
    PositionedValueModel {
        text_position: left_text_pos(tv, s, keys, i),
        icon_position: left_icon_pos(tv, s, keys, i),
        text: tv.spec_property(keys[i])@,
        value_key: keys[i],
    }
}

/// The whole left-aligned group, in display order.
pub open spec fn left_layout(
    tv: TextValues,
    s: FrameSettings,
    keys: Seq<TextValuesKeys>,
) -> Seq<PositionedValueModel> {
    Seq::new(keys.len(), |i: int| left_item(tv, s, keys, i))
}

/// Every left-aligned position is at least one border gap from the strip's
/// left edge.
pub proof fn lemma_left_pos_nonneg(
    tv: TextValues,
    s: FrameSettings,
    keys: Seq<TextValuesKeys>,
    i: int,
)
    requires
        spacing_ok(s),
        0 <= i,
    ensures
        s.border <= left_icon_pos(tv, s, keys, i),
    decreases i,
{
    if i > 0 {
        lemma_left_pos_nonneg(tv, s, keys, i - 1);
        lemma_mul_nonnegative(key_text_width(tv, keys, i - 1), s.letter_width as int);
    }
}

/// Offset of the icon of the `i`-th item of the right-aligned group, measured
/// leftward from the strip's right edge to the icon's left edge. The group is
/// accumulated from its visually last item (the highest index) inward: that
/// item's text sits one border gap from the right edge, each item's icon sits
/// one border gap beyond its text, and each further item's text sits one
/// border gap beyond the previous item's icon.
pub open spec fn right_icon_off(
    tv: TextValues,
    s: FrameSettings,
    keys: Seq<TextValuesKeys>,
    i: int,
) -> int
    decreases keys.len() - i,
{
    let prev = if i >= keys.len() - 1 {
        0
    } else {
        right_icon_off(tv, s, keys, i + 1)
    };
    prev + s.border + key_text_width(tv, keys, i) * s.letter_width + s.border + s.icon_size
}

/// Offset of the text of the `i`-th item of the right-aligned group, measured
/// as `right_icon_off` is: the icon sits one border gap and one icon
/// footprint beyond its text.
pub open spec fn right_text_off(
    tv: TextValues,
    s: FrameSettings,
    keys: Seq<TextValuesKeys>,
    i: int,
) -> int {
    right_icon_off(tv, s, keys, i) - s.border - s.icon_size
}

/// Every offset of the right-aligned group fits in a signed 32-bit pixel
/// coordinate. The icon offset of an item is the largest value the
/// computation of that item touches, so bounding it bounds them all.
pub open spec fn right_fits(tv: TextValues, s: FrameSettings, keys: Seq<TextValuesKeys>) -> bool {
    forall|i: int| 0 <= i < keys.len() ==> right_icon_off(tv, s, keys, i) <= i32::MAX
}

/// The `i`-th item of the right-aligned group, after the offsets are inverted
/// into absolute x-positions measured from the strip's left edge.
pub open spec fn right_item(
    tv: TextValues,
    s: FrameSettings,
    keys: Seq<TextValuesKeys>,
    width: int,
    i: int,
) -> PositionedValueModel {
    PositionedValueModel {
        text_position: width - right_text_off(tv, s, keys, i),
        icon_position: width - right_icon_off(tv, s, keys, i),
        text: tv.spec_property(keys[i])@,
        value_key: keys[i],
    }
}

/// The whole right-aligned group, in left-to-right visual order.
pub open spec fn right_layout(
    tv: TextValues,
    s: FrameSettings,
    keys: Seq<TextValuesKeys>,
    width: int,
) -> Seq<PositionedValueModel> {
    Seq::new(keys.len(), |i: int| right_item(tv, s, keys, width, i))
}

/// Every right-aligned text offset is at least one border gap, and the icon
/// offset exceeds the text offset by one border gap and one icon footprint.
pub proof fn lemma_right_off_nonneg(
    tv: TextValues,
    s: FrameSettings,
    keys: Seq<TextValuesKeys>,
    i: int,
)
    requires
        spacing_ok(s),
    ensures
        s.border <= right_text_off(tv, s, keys, i),
    decreases keys.len() - i,
{
    if i < keys.len() - 1 {
        lemma_right_off_nonneg(tv, s, keys, i + 1);
    }
    lemma_mul_nonnegative(key_text_width(tv, keys, i), s.letter_width as int);
}

/// Computes the right-aligned group's items, in left-to-right visual order.
/// The offsets are accumulated from the visually last item inward, then every
/// offset is inverted by subtracting it from the strip width, exactly as the
/// layout model states; positions below zero are kept, never clamped.
#[verifier::loop_isolation(false)]
pub fn get_right_aligned_positions(
    frame_settings: &FrameSettings,
    text_values: &TextValues,
    display_order: &Vec<TextValuesKeys>,
    width: u32,
) -> (r: Vec<PositionedValue>)
    requires
        spacing_ok(*frame_settings),
        right_fits(*text_values, *frame_settings, display_order@),
        width <= i32::MAX as u32,
    ensures
        r@.len() == display_order@.len(),
        forall|i: int|
            0 <= i < r@.len() ==> r@[i]@ == right_item(
                *text_values,
                *frame_settings,
                display_order@,
                width as int,
                i,
            ),
{
    let ghost tv = *text_values;
    let ghost s = *frame_settings;
    let ghost keys = display_order@;
    let n = display_order.len();
    let mut reversed: Vec<PositionedValue> = Vec::new();
    let mut j: usize = 0;
    while j < n
        invariant
            j <= n,
            reversed@.len() == j as int,
            forall|k: int|
                0 <= k < j as int ==> #[trigger] reversed@[k].icon_position == right_icon_off(
                    tv,
                    s,
                    keys,
                    n - 1 - k,
                ),
            forall|k: int|
                0 <= k < j as int ==> #[trigger] reversed@[k].text_position == right_text_off(
                    tv,
                    s,
                    keys,
                    n - 1 - k,
                ),
            forall|k: int|
                0 <= k < j as int ==> #[trigger] reversed@[k].text@ == tv.spec_property(
                    keys[n - 1 - k],
                )@,
            forall|k: int|
                0 <= k < j as int ==> #[trigger] reversed@[k].value_key == keys[n - 1 - k],
        decreases n - j,
    {
        let d = n - 1 - j;
        let ghost di = d as int;
        let last_icon_position = if reversed.len() > 0 {
            reversed[reversed.len() - 1].icon_position
        } else {
            0
        };
        let prop = display_order[d];
        let text = text_values.get_property(&prop).clone();
        let text_size = text.as_str().len();
        proof {
            let w = key_text_width(tv, keys, di);
            lemma_mul_nonnegative(w, s.letter_width as int);
            lemma_mul_inequality(1, s.letter_width as int, w);
            lemma_right_off_nonneg(tv, s, keys, di);
            if j > 0 {
                lemma_right_off_nonneg(tv, s, keys, di + 1);
                assert(reversed@[j - 1].icon_position == right_icon_off(tv, s, keys, di + 1));
                assert(last_icon_position == right_icon_off(tv, s, keys, di + 1));
            }
            assert(prop == keys[di]);
            assert(text@ == tv.spec_property(keys[di])@);
            assert(right_icon_off(tv, s, keys, di) <= i32::MAX);
            assert(right_icon_off(tv, s, keys, di) == last_icon_position + s.border + w
                * s.letter_width + s.border + s.icon_size);
            assert(0 <= w);
            assert(w <= w * (s.letter_width as int)) by (nonlinear_arith)
                requires
                    0 <= w,
                    1 <= s.letter_width as int,
            ;
            assert(w <= i32::MAX);
            assert(text_size == w);
        }
        let text_position = last_icon_position + frame_settings.border + (text_size as i32)
            * frame_settings.letter_width;
        let icon_position = text_position + frame_settings.border + frame_settings.icon_size;
        reversed.push(PositionedValue { text_position, icon_position, text, value_key: prop });
        proof {
            assert(reversed@[j as int].icon_position == right_icon_off(tv, s, keys, di));
            assert(reversed@[j as int].text_position == right_text_off(tv, s, keys, di));
            assert(reversed@[j as int].text@ == tv.spec_property(keys[di])@);
            assert(reversed@[j as int].value_key == keys[di]);
        }
        j = j + 1;
    }
    let width_i32 = width as i32;
    let mut positioned_values: Vec<PositionedValue> = Vec::new();
    while reversed.len() > 0
        invariant
            reversed@.len() <= n,
            positioned_values@.len() == n - reversed@.len(),
            forall|k: int|
                0 <= k < reversed@.len() ==> #[trigger] reversed@[k].icon_position
                    == right_icon_off(tv, s, keys, n - 1 - k),
            forall|k: int|
                0 <= k < reversed@.len() ==> #[trigger] reversed@[k].text_position
                    == right_text_off(tv, s, keys, n - 1 - k),
            forall|k: int|
                0 <= k < reversed@.len() ==> #[trigger] reversed@[k].text@ == tv.spec_property(
                    keys[n - 1 - k],
                )@,
            forall|k: int|
                0 <= k < reversed@.len() ==> #[trigger] reversed@[k].value_key == keys[n - 1 - k],
            forall|i: int|
                0 <= i < positioned_values@.len() ==> positioned_values@[i]@ == right_item(
                    tv,
                    s,
                    keys,
                    width as int,
                    i,
                ),
        decreases reversed@.len(),
    {
        let ghost d = n - reversed@.len();
        let ghost old_reversed = reversed@;
        let item = reversed.pop().unwrap();
        proof {
            lemma_right_off_nonneg(tv, s, keys, d);
            assert(old_reversed[old_reversed.len() - 1].icon_position == right_icon_off(
                tv,
                s,
                keys,
                d,
            ));
            assert(item.icon_position == right_icon_off(tv, s, keys, d));
            assert(item.text_position == right_text_off(tv, s, keys, d));
        }
        let icon_position = width_i32 - item.icon_position;
        let text_position = width_i32 - item.text_position;
        positioned_values.push(
            PositionedValue { text_position, icon_position, text: item.text, value_key: item.value_key },
        );
    }
    positioned_values
}

/// Computes the left-aligned group's items, in the given display order. Each
/// item's positions, text and key equal the layout model's.
#[verifier::loop_isolation(false)]
pub fn get_left_aligned_positions(
    frame_settings: &FrameSettings,
    text_values: &TextValues,
    display_order: &Vec<TextValuesKeys>,
) -> (r: Vec<PositionedValue>)
    requires
        spacing_ok(*frame_settings),
        left_fits(*text_values, *frame_settings, display_order@),
    ensures
        r@.len() == display_order@.len(),
        forall|i: int|
            0 <= i < r@.len() ==> r@[i]@ == left_item(
                *text_values,
                *frame_settings,
                display_order@,
                i,
            ),
{
    let ghost tv = *text_values;
    let ghost s = *frame_settings;
    let ghost keys = display_order@;
    let mut positioned_values: Vec<PositionedValue> = Vec::new();
    let mut idx: usize = 0;
    while idx < display_order.len()
        invariant
            idx <= keys.len(),
            positioned_values@.len() == idx as int,
            forall|i: int|
                0 <= i < idx as int ==> positioned_values@[i]@ == left_item(tv, s, keys, i),
        decreases keys.len() - idx,
    {
        let ghost i = idx as int;
        proof {
            lemma_left_pos_nonneg(tv, s, keys, i);
            assert(left_text_pos(tv, s, keys, i) <= i32::MAX);
        }
        let (icon_position, text_position) = if positioned_values.len() > 0 {
            let last_i = positioned_values.len() - 1;
            let last_text_position = positioned_values[last_i].text_position;
            let last_text_len = positioned_values[last_i].text.as_str().len();
            proof {
                let w = key_text_width(tv, keys, i - 1);
                lemma_mul_nonnegative(w, s.letter_width as int);
                lemma_mul_inequality(1, s.letter_width as int, w);
                lemma_left_pos_nonneg(tv, s, keys, i - 1);
                assert(positioned_values@[i - 1]@ == left_item(tv, s, keys, i - 1));
                assert(last_text_position == left_text_pos(tv, s, keys, i - 1));
                assert(positioned_values@[i - 1].text@ == tv.spec_property(keys[i - 1])@);
                assert(last_text_len == w);
                assert(left_icon_pos(tv, s, keys, i) == left_text_pos(tv, s, keys, i - 1) + w
                    * s.letter_width + s.border);
            }
            let next_icon_position = last_text_position + (last_text_len as i32)
                * frame_settings.letter_width + frame_settings.border;
            let next_text_position = next_icon_position + frame_settings.icon_size
                + frame_settings.border;
            (next_icon_position, next_text_position)
        } else {
            (
                frame_settings.border,
                frame_settings.border + frame_settings.icon_size + frame_settings.border,
            )
        };
        let prop = display_order[idx];
        let text = text_values.get_property(&prop).clone();
        positioned_values.push(
            PositionedValue { text_position, icon_position, text, value_key: prop },
        );
        idx = idx + 1;
    }
    positioned_values
}

/// Law: within a non-empty left-aligned group, positions strictly increase in
/// display order. Each item's icon precedes its text, each text precedes the
/// next item's icon by at least one border gap, and that gap is exactly the
/// border if and only if the item's text is empty.
pub proof fn lemma_left_positions_increase(
    tv: TextValues,
    s: FrameSettings,
    keys: Seq<TextValuesKeys>,
    i: int,
)
    requires
        spacing_ok(s),
        0 <= i < keys.len(),
    ensures
        left_icon_pos(tv, s, keys, i) < left_text_pos(tv, s, keys, i),
        i + 1 < keys.len() ==> left_text_pos(tv, s, keys, i) + s.border <= left_icon_pos(
            tv,
            s,
            keys,
            i + 1,
        ),
        i + 1 < keys.len() ==> (left_icon_pos(tv, s, keys, i + 1) == left_text_pos(tv, s, keys, i)
            + s.border <==> text_width(tv.spec_property(keys[i])@) == 0),
{
    let w = key_text_width(tv, keys, i);
    lemma_mul_nonnegative(w, s.letter_width as int);
    if w > 0 {
        vstd::arithmetic::mul::lemma_mul_strictly_positive(w, s.letter_width as int);
    }
}

/// Law: within a non-empty right-aligned group, positions strictly increase
/// left-to-right in the output order, mirroring the left-aligned invariant:
/// each item's icon precedes its text, each text precedes the next item's
/// icon by at least one border gap, and that gap is exactly the border if and
/// only if the item's text is empty.
pub proof fn lemma_right_positions_increase(
    tv: TextValues,
    s: FrameSettings,
    keys: Seq<TextValuesKeys>,
    width: int,
    i: int,
)
    requires
        spacing_ok(s),
        0 <= i < keys.len(),
    ensures
        right_item(tv, s, keys, width, i).icon_position < right_item(
            tv,
            s,
            keys,
            width,
            i,
        ).text_position,
        i + 1 < keys.len() ==> right_item(tv, s, keys, width, i).text_position + s.border
            <= right_item(tv, s, keys, width, i + 1).icon_position,
        i + 1 < keys.len() ==> (right_item(tv, s, keys, width, i + 1).icon_position == right_item(
            tv,
            s,
            keys,
            width,
            i,
        ).text_position + s.border <==> text_width(tv.spec_property(keys[i])@) == 0),
{
    let w = key_text_width(tv, keys, i);
    lemma_mul_nonnegative(w, s.letter_width as int);
    if w > 0 {
        vstd::arithmetic::mul::lemma_mul_strictly_positive(w, s.letter_width as int);
    }
}

/// Law: a layout of an empty left group and an empty right group is the empty
/// sequence, whatever the other arguments are.
pub proof fn lemma_empty_groups_empty_layout(
    tv: TextValues,
    s: FrameSettings,
    width: int,
)
    ensures
        layout_model(tv, s, width, Seq::<TextValuesKeys>::empty(), Seq::<TextValuesKeys>::empty())
            =~= Seq::<PositionedValueModel>::empty(),
{
}

/// Law: the layout is deterministic. Two results computed from identical
/// arguments, as `get_positions` describes its result, are structurally equal
/// item by item: same positions, same text contents, same field keys.
pub proof fn lemma_layout_deterministic(
    tv: TextValues,
    s: FrameSettings,
    width: int,
    left_keys: Seq<TextValuesKeys>,
    right_keys: Seq<TextValuesKeys>,
    r1: Seq<PositionedValue>,
    r2: Seq<PositionedValue>,
)
    requires
        views_of(r1) == layout_model(tv, s, width, left_keys, right_keys),
        views_of(r2) == layout_model(tv, s, width, left_keys, right_keys),
    ensures
        r1.len() == r2.len(),
        forall|i: int| 0 <= i < r1.len() ==> r1[i]@ == r2[i]@,
{
    assert(views_of(r1).len() == r1.len());
    assert(views_of(r2).len() == r2.len());
    assert forall|i: int| 0 <= i < r1.len() implies r1[i]@ == r2[i]@ by {
        assert(views_of(r1)[i] == r1[i]@);
        assert(views_of(r2)[i] == r2[i]@);
    }
}

/// Law: a strip narrower than the right-aligned group's total required span
/// yields a negative icon position for the group's leftmost item; the layout
/// never clamps a position to the strip.
pub proof fn lemma_narrow_strip_negative(
    tv: TextValues,
    s: FrameSettings,
    keys: Seq<TextValuesKeys>,
    width: int,
)
    requires
        keys.len() > 0,
        width < right_icon_off(tv, s, keys, 0),
    ensures
        right_layout(tv, s, keys, width)[0].icon_position < 0,
{
}

/// The spacing constants the layout currently renders with: a letter width of
/// 10, a border gap of 10 and an icon footprint of 30 pixels.
pub open spec fn default_spacing() -> FrameSettings {
    FrameSettings { letter_width: 10, border: 10, icon_size: 30 }
}

/// The whole layout: the left-aligned group in display order, followed by the
/// right-aligned group in left-to-right visual order.
pub open spec fn layout_model(
    tv: TextValues,
    s: FrameSettings,
    width: int,
    left_keys: Seq<TextValuesKeys>,
    right_keys: Seq<TextValuesKeys>,
) -> Seq<PositionedValueModel> {
    left_layout(tv, s, left_keys) + right_layout(tv, s, right_keys, width)
}

/// Computes the layout of both groups with the default spacing constants: the
/// left group's items in display order, then the right group's items in
/// left-to-right visual order.
pub fn get_positions(
    text_values: &TextValues,
    width: u32,
    left_display_order: &Vec<TextValuesKeys>,
    right_display_order: &Vec<TextValuesKeys>,
) -> (r: Vec<PositionedValue>)
    requires
        left_fits(*text_values, default_spacing(), left_display_order@),
        right_fits(*text_values, default_spacing(), right_display_order@),
        width <= i32::MAX as u32,
    ensures
        views_of(r@) == layout_model(
            *text_values,
            default_spacing(),
            width as int,
            left_display_order@,
            right_display_order@,
        ),
{
    let frame_settings = FrameSettings { border: 10, icon_size: 30, letter_width: 10 };
    let mut positioned_values = get_left_aligned_positions(
        &frame_settings,
        text_values,
        left_display_order,
    );
    let mut right_positions = get_right_aligned_positions(
        &frame_settings,
        text_values,
        right_display_order,
        width,
    );
    positioned_values.append(&mut right_positions);
    proof {
        assert(views_of(positioned_values@) =~= layout_model(
            *text_values,
            default_spacing(),
            width as int,
            left_display_order@,
            right_display_order@,
        ));
    }
    positioned_values
}

} // verus!
