use metaframer::resolution::Resolution;
use metaframer::resolution::get_frame_width;

#[test]
fn test_get_frame_width_with_portrait_for_landscape() {
    let portrait_dimensions = (760, 1280);
    let frame_width = get_frame_width(Resolution::FullHD, false, portrait_dimensions, 40);
    let x = (1080. - 40.) / 1280.0;
    let expected_width = 760. * x;
    println!("expected width: {}", expected_width);
    assert_eq!(frame_width, expected_width as u32)
}

#[test]
fn test_get_frame_width_with_portrait_for_portait() {
    let portrait_dimensions = (760, 1280);
    let frame_width = get_frame_width(Resolution::FullHD, true, portrait_dimensions, 40);
    let x = (1920. - 40.) / 1280.;
    let expected_width = 760. * x;
    println!("expected width: {}", expected_width);
    assert_eq!(frame_width, expected_width as u32)
}

#[test]
fn test_get_frame_width_with_portrait_for_portrait_with_bigger_aspect_ratio() {
    let portrait_dimensions = (720, 1280);
    let frame_width = get_frame_width(Resolution::FullHD, true, portrait_dimensions, 40);
    let x = (1920. - 40.) / 1280.;
    let expected_width = 720. * x;
    assert_eq!(frame_width, expected_width as u32)
}

#[test]
fn test_get_frame_width_with_landscape_for_landscape_with_bigger_aspect_ratio() {
    let landscape_dimensions = (1280, 720);
    let frame_width = get_frame_width(Resolution::FullHD, false, landscape_dimensions, 40);
    let x = (1080. - 40.) / 720.;
    let expected_width = 1280. * x;
    assert_eq!(frame_width, expected_width as u32)
}

#[test]
fn test_get_frame_width_with_landscape_for_portrait() {
    let landscape_dimensions = (1280, 720);
    let frame_width = get_frame_width(Resolution::FullHD, true, landscape_dimensions, 40);
    let expected_width = 1080.;
    assert_eq!(frame_width, expected_width as u32)
}

#[test]
fn test_get_frame_width_with_landscape_for_portrait_with_bigger_img() {
    let landscape_dimensions = (2000, 720);
    let frame_width = get_frame_width(Resolution::FullHD, true, landscape_dimensions, 40);
    let expected_width = 1080.;
    assert_eq!(frame_width, expected_width as u32)
}

#[test]
fn test_get_frame_width_with_portrait_for_landscape_with_bigger_img() {
    let portrait_dimensions = (2080, 3800);
    let frame_width = get_frame_width(Resolution::FullHD, false, portrait_dimensions, 40);
    let x = (1080. - 40.) / 3800.0;
    let expected_width = 2080. * x;
    println!("expected width: {}", expected_width);
    assert_eq!(frame_width, expected_width as u32)
}

#[test]
fn test_dimensions_of_every_preset() {
    assert_eq!(Resolution::HD.dimensions(), (1280, 720));
    assert_eq!(Resolution::FullHD.dimensions(), (1920, 1080));
    assert_eq!(Resolution::QuadHD.dimensions(), (2560, 1440));
    assert_eq!(Resolution::UHD.dimensions(), (3840, 2160));
    assert_eq!(Resolution::FourK.dimensions(), (4096, 2160));
    assert_eq!(Resolution::EightK.dimensions(), (7680, 4320));
}

#[test]
fn test_get_frame_width_rounds_down() {
    // 1040 * 760 / 1280 = 617.5: the scaled width is truncated, not rounded up.
    let frame_width = get_frame_width(Resolution::FullHD, false, (760, 1280), 40);
    assert_eq!(frame_width, 617);
}

#[test]
fn test_get_frame_width_with_huge_source_image() {
    // A very large source image scales without overflowing: 1040 * 2_000_000_000 / 4_000_000_000.
    let frame_width = get_frame_width(Resolution::FullHD, false, (2_000_000_000, 4_000_000_000), 40);
    assert_eq!(frame_width, 520);
}
