use metaframer::framer::FrameError;
use metaframer::framer::FrameSettings;
use metaframer::framer::frame_data_from_values;
use metaframer::framer::frame_file_name;
use metaframer::positions::get_left_aligned_positions;
use metaframer::positions::get_positions;
use metaframer::positions::get_right_aligned_positions;
use metaframer::text_values::TextValues;
use metaframer::text_values::TextValuesKeys;
use metaframer::text_values::camera_label;
use metaframer::text_values::display_or_default;

fn sample_text_values() -> TextValues {
    TextValues {
        camera: "My camera 1234".to_string(),
        aperture: "f/8".to_string(),
        shutter_speed: "1/250s".to_string(),
        focal_length: "18.1mm".to_string(),
        iso: "3600".to_string(),
    }
}

fn full_order() -> Vec<TextValuesKeys> {
    vec![
        TextValuesKeys::Camera,
        TextValuesKeys::Aperture,
        TextValuesKeys::ShutterSpeed,
        TextValuesKeys::FocalLength,
        TextValuesKeys::Iso,
    ]
}

#[test]
fn test_get_property_selects_each_field() {
    let text_values = sample_text_values();
    assert_eq!(
        text_values.get_property(&TextValuesKeys::Camera),
        "My camera 1234"
    );
    assert_eq!(text_values.get_property(&TextValuesKeys::Aperture), "f/8");
    assert_eq!(
        text_values.get_property(&TextValuesKeys::ShutterSpeed),
        "1/250s"
    );
    assert_eq!(
        text_values.get_property(&TextValuesKeys::FocalLength),
        "18.1mm"
    );
    assert_eq!(text_values.get_property(&TextValuesKeys::Iso), "3600");
}

#[test]
fn test_left_positions_strictly_increase() {
    let frame_settings = FrameSettings {
        border: 10,
        icon_size: 30,
        letter_width: 10,
    };
    let text_values = sample_text_values();
    let items = get_left_aligned_positions(&frame_settings, &text_values, &full_order());
    assert_eq!(items.len(), 5);
    for i in 0..items.len() {
        assert!(items[i].icon_position < items[i].text_position);
        if i + 1 < items.len() {
            assert!(items[i].text_position + 10 <= items[i + 1].icon_position);
        }
    }
}

#[test]
fn test_left_gap_is_exactly_border_for_empty_text() {
    let frame_settings = FrameSettings {
        border: 10,
        icon_size: 30,
        letter_width: 10,
    };
    let mut text_values = sample_text_values();
    text_values.aperture = "".to_string();
    let order = vec![TextValuesKeys::Aperture, TextValuesKeys::Iso];
    let items = get_left_aligned_positions(&frame_settings, &text_values, &order);
    // The empty text adds no width: the next icon follows one border after it.
    assert_eq!(items[1].icon_position, items[0].text_position + 10);
}

#[test]
fn test_right_positions_strictly_increase() {
    let frame_settings = FrameSettings {
        border: 10,
        icon_size: 30,
        letter_width: 10,
    };
    let text_values = sample_text_values();
    let items = get_right_aligned_positions(&frame_settings, &text_values, &full_order(), 1000);
    assert_eq!(items.len(), 5);
    for i in 0..items.len() {
        assert!(items[i].icon_position < items[i].text_position);
        if i + 1 < items.len() {
            assert!(items[i].text_position < items[i + 1].icon_position);
        }
    }
}

#[test]
fn test_empty_groups_give_empty_layout() {
    let text_values = sample_text_values();
    let result = get_positions(&text_values, 1000, &vec![], &vec![]);
    assert!(result.is_empty());
}

#[test]
fn test_layout_is_deterministic() {
    let text_values = sample_text_values();
    let left = vec![TextValuesKeys::Camera];
    let right = vec![
        TextValuesKeys::Aperture,
        TextValuesKeys::ShutterSpeed,
        TextValuesKeys::FocalLength,
        TextValuesKeys::Iso,
    ];
    let first = get_positions(&text_values, 1000, &left, &right);
    let second = get_positions(&text_values, 1000, &left, &right);
    assert_eq!(first, second);
}

#[test]
fn test_layout_concatenates_left_then_right() {
    let text_values = sample_text_values();
    let left = vec![TextValuesKeys::Camera];
    let right = vec![
        TextValuesKeys::Aperture,
        TextValuesKeys::ShutterSpeed,
        TextValuesKeys::FocalLength,
        TextValuesKeys::Iso,
    ];
    let result = get_positions(&text_values, 1000, &left, &right);
    assert_eq!(result.len(), 5);
    // Left group: camera icon at the border, text one icon and one border later.
    assert_eq!(result[0].icon_position, 10);
    assert_eq!(result[0].text_position, 50);
    assert_eq!(result[0].value_key, TextValuesKeys::Camera);
    assert_eq!(result[0].text, "My camera 1234");
    // Right group, rightmost item (iso, 4 letters): text 10 + 40 = 50 from the
    // right edge, icon 40 further in.
    assert_eq!(result[4].value_key, TextValuesKeys::Iso);
    assert_eq!(result[4].text_position, 1000 - 50);
    assert_eq!(result[4].icon_position, 1000 - 90);
}

#[test]
fn test_narrow_strip_gives_negative_positions() {
    let text_values = sample_text_values();
    let right = vec![
        TextValuesKeys::Aperture,
        TextValuesKeys::ShutterSpeed,
        TextValuesKeys::FocalLength,
        TextValuesKeys::Iso,
    ];
    // The right group needs 390 pixels; a 100-pixel strip pushes its leftmost
    // items left of the strip. The positions stay negative, never clamped.
    let result = get_positions(&text_values, 100, &vec![], &right);
    assert_eq!(result[0].icon_position, 100 - 390);
    assert_eq!(result[0].text_position, 100 - 350);
    assert!(result[0].icon_position < 0);
    assert!(result[0].text_position < 0);
}

#[test]
fn test_duplicate_keys_produce_duplicate_items() {
    let text_values = sample_text_values();
    let left = vec![TextValuesKeys::Iso, TextValuesKeys::Iso];
    let result = get_positions(&text_values, 1000, &left, &vec![]);
    assert_eq!(result.len(), 2);
    assert_eq!(result[0].value_key, TextValuesKeys::Iso);
    assert_eq!(result[1].value_key, TextValuesKeys::Iso);
    assert_eq!(result[0].icon_position, 10);
    assert_eq!(result[0].text_position, 50);
    // The second copy is laid out after the first, not deduplicated.
    assert_eq!(result[1].icon_position, 50 + 4 * 10 + 10);
    assert_eq!(result[1].text_position, 100 + 30 + 10);
}

#[test]
fn test_zero_width_strip_is_well_defined() {
    let text_values = sample_text_values();
    let right = vec![TextValuesKeys::Iso];
    let result = get_positions(&text_values, 0, &vec![], &right);
    assert_eq!(result.len(), 1);
    // Offsets from the right edge of a zero-width strip: all positions negative.
    assert_eq!(result[0].text_position, -50);
    assert_eq!(result[0].icon_position, -90);
}

#[test]
fn test_frame_data_from_values_lays_out_all_fields() {
    let frame_data = frame_data_from_values(1000, 40, sample_text_values()).unwrap();
    assert_eq!(frame_data.width, 1000);
    assert_eq!(frame_data.height, 40);
    assert_eq!(frame_data.values.len(), 5);
    assert_eq!(frame_data.values[0].value_key, TextValuesKeys::Camera);
    assert_eq!(frame_data.values[0].icon_position, 10);
    assert_eq!(frame_data.values[1].value_key, TextValuesKeys::Aperture);
    assert_eq!(frame_data.values[4].value_key, TextValuesKeys::Iso);
    assert_eq!(frame_data.values[4].icon_position, 1000 - 90);
}

#[test]
fn test_frame_data_from_values_rejects_wide_strip() {
    let result = frame_data_from_values(0x8000_0000, 40, sample_text_values());
    assert_eq!(result.unwrap_err(), FrameError::StripTooWide);
}

#[test]
fn test_frame_data_from_values_rejects_long_text() {
    let mut text_values = sample_text_values();
    text_values.camera = "x".repeat(65537);
    let result = frame_data_from_values(1000, 40, text_values);
    assert_eq!(result.unwrap_err(), FrameError::FieldTextTooLong);
}

#[test]
fn test_camera_label_trims_quotes_and_joins() {
    let label = camera_label(
        Some("\"My Brand\"".to_string()),
        Some("\"Model 5\"".to_string()),
    );
    assert_eq!(label, "My Brand Model 5");
}

#[test]
fn test_camera_label_missing_field_gives_sentinel() {
    assert_eq!(camera_label(None, Some("Model".to_string())), "N/A");
    assert_eq!(camera_label(Some("Brand".to_string()), None), "N/A");
    assert_eq!(camera_label(None, None), "N/A");
}

#[test]
fn test_display_or_default_substitutes_sentinel() {
    assert_eq!(display_or_default(Some("1/250s".to_string())), "1/250s");
    assert_eq!(display_or_default(None), "N/A");
}

#[test]
fn test_frame_file_name_appends_suffix() {
    assert_eq!(frame_file_name("image"), "image_frame.svg");
}
