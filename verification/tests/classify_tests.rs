use snowbreak_gacha_export::classify::{
    assemble_rows, char_margin_for_height, ink_bounding_box, observe_listing, parse_item_type,
    parse_page_index, record_y0, record_y1, rgb_to_star, validate_frame_dims, RecordImage,
    FRAME_BYTES,
};
use snowbreak_gacha_export::paginate::Observation;
use snowbreak_gacha_export::datetime::{parse_date_time, timestamp_from_epoch};
use snowbreak_gacha_export::errors::ScanError;
use snowbreak_gacha_export::record::ItemType;

fn set_px(frame: &mut Vec<u8>, x: u32, y: u32, c: (u8, u8, u8)) {
    let base = ((y as usize) * 1920 + (x as usize)) * 3;
    frame[base] = c.0;
    frame[base + 1] = c.1;
    frame[base + 2] = c.2;
}

#[test]
fn row_geometry_matches_the_design() {
    let y0s = [207, 274, 342, 409, 477, 544, 612, 679, 747, 814];
    for (i, y0) in y0s.iter().enumerate() {
        assert_eq!(record_y0(i), *y0);
        assert_eq!(record_y1(i), *y0 + 32);
    }
    assert_eq!(record_y1(9), 846);
}

#[test]
fn star_colors_decode_within_tolerance() {
    assert_eq!(rgb_to_star((55, 98, 242)), Some(3));
    assert_eq!(rgb_to_star((192, 105, 214)), Some(4));
    assert_eq!(rgb_to_star((233, 155, 55)), Some(5));
    // Distance 4 is inside the tolerance of 5, distance 5 exactly is not.
    assert_eq!(rgb_to_star((55, 98, 246)), Some(3));
    assert_eq!(rgb_to_star((55, 98, 247)), None);
    assert_eq!(rgb_to_star((0, 0, 0)), None);
}

#[test]
fn stars_reads_the_filled_prefix() {
    let mut frame = vec![0u8; FRAME_BYTES];
    set_px(&mut frame, 352, record_y0(0) + 16, (55, 98, 242));
    set_px(&mut frame, 352, record_y0(1) + 16, (192, 105, 214));
    set_px(&mut frame, 352, record_y0(2) + 16, (233, 155, 55));
    let image = RecordImage::new(frame);
    assert_eq!(image.stars(), vec![3, 4, 5]);
}

#[test]
fn empty_page_has_zero_rows_not_an_error() {
    // A valid listing page whose first row fails the star-tier match: the
    // classifier answers no rows at all instead of failing.
    let frame = vec![0u8; FRAME_BYTES];
    let image = RecordImage::new(frame);
    let stars = image.stars();
    assert!(stars.is_empty());
    let rows = assemble_rows(&stars, &Vec::new(), &Vec::new(), &Vec::new());
    assert!(rows.is_empty());
}

#[test]
fn ink_bounding_box_is_tight() {
    // A 10x5 gray buffer, bright everywhere but three dark pixels.
    let mut gray = vec![200u8; 50];
    gray[1 * 10 + 2] = 10; // (2, 1)
    gray[3 * 10 + 7] = 10; // (7, 3)
    gray[2 * 10 + 4] = 10; // (4, 2)
    let b = ink_bounding_box(&gray, 10, 5, 100).unwrap();
    assert_eq!((b.x, b.y, b.w, b.h), (2, 1, 6, 3));
}

#[test]
fn ink_bounding_box_of_a_blank_buffer_is_none() {
    let gray = vec![200u8; 50];
    assert!(ink_bounding_box(&gray, 10, 5, 100).is_none());
}

#[test]
fn char_margin_scales_with_glyph_height() {
    assert_eq!(char_margin_for_height(18), 7);
    assert_eq!(char_margin_for_height(9), 4);
    assert_eq!(char_margin_for_height(36), 14);
    assert_eq!(char_margin_for_height(10), 4);
}

#[test]
fn ocr_image_tightens_and_re_expands_the_ink() {
    // A white frame with one mid-tone 10x10 blob inside the generous
    // crop; the blob's luma under the sRGB weights is
    // 0.2126*100 + 0.7152*150 + 0.0722*200 = 142.98, rounded to 143.
    let mut frame = vec![255u8; FRAME_BYTES];
    for y in 110..120 {
        for x in 120..130 {
            set_px(&mut frame, x, y, (100, 150, 200));
        }
    }
    let image = RecordImage::new(frame);
    let reg = image.get_ocr_image(100, 100, 200, 150).unwrap();
    // The ink box is the blob, in crop coordinates.
    assert_eq!((reg.ink.x, reg.ink.y, reg.ink.w, reg.ink.h), (20, 10, 10, 10));
    // The margin for a glyph 10 high is 4; the output rectangle is the
    // blob grown by it on every side.
    assert_eq!((reg.x, reg.y, reg.width, reg.height), (116, 106, 18, 18));
    assert_eq!(reg.luma.len(), 18 * 18);
    // The output luma carries the exact conversion values: a white
    // border pixel and a blob pixel.
    assert_eq!(reg.luma[0], 255);
    assert_eq!(reg.luma[(9 * 18 + 9) as usize], 143);
}

#[test]
fn listing_pages_are_recognized_by_their_index_label() {
    assert_eq!(
        observe_listing(&Ok("3".to_string())),
        Observation::Listing { index: 3 }
    );
    assert_eq!(
        observe_listing(&Ok("nonsense".to_string())),
        Observation::NotListing
    );
    assert_eq!(
        observe_listing(&Err(ScanError::OcrNoTextFound)),
        Observation::NotListing
    );
}

#[test]
fn ocr_image_of_a_blank_region_reports_no_text() {
    let frame = vec![255u8; FRAME_BYTES];
    let image = RecordImage::new(frame);
    let err = image.get_ocr_image(100, 100, 200, 150).unwrap_err();
    assert_eq!(err, ScanError::OcrNoTextFound);
}

#[test]
fn page_index_parses_digits() {
    assert_eq!(parse_page_index("3"), Ok(3));
    assert_eq!(parse_page_index("+12"), Ok(12));
    assert_eq!(parse_page_index("003"), Ok(3));
    assert_eq!(parse_page_index("4294967295"), Ok(u32::MAX));
    assert_eq!(parse_page_index(""), Err(ScanError::FieldParseFailure));
    assert_eq!(parse_page_index("+"), Err(ScanError::FieldParseFailure));
    assert_eq!(parse_page_index("12a"), Err(ScanError::FieldParseFailure));
    assert_eq!(parse_page_index("4294967296"), Err(ScanError::FieldParseFailure));
    assert_eq!(parse_page_index("99999999999999"), Err(ScanError::FieldParseFailure));
}

#[test]
fn item_type_matches_labels_of_every_language() {
    assert_eq!(parse_item_type("角色"), Ok(ItemType::Character));
    assert_eq!(parse_item_type("Operative"), Ok(ItemType::Character));
    assert_eq!(parse_item_type("武器"), Ok(ItemType::Weapon));
    assert_eq!(parse_item_type("Weapon"), Ok(ItemType::Weapon));
    assert_eq!(parse_item_type("weapon"), Err(ScanError::FieldParseFailure));
    assert_eq!(parse_item_type(""), Err(ScanError::FieldParseFailure));
}

#[test]
fn date_time_text_parses_exactly_one_shape() {
    let p = parse_date_time("2024-06-01 12:30").unwrap();
    assert_eq!((p.year, p.month, p.day, p.hour, p.minute), (2024, 6, 1, 12, 30));
    assert!(parse_date_time("2024-6-1 12:30").is_err());
    assert!(parse_date_time("2024-06-01T12:30").is_err());
    assert!(parse_date_time("2024-13-01 12:30").is_err());
    assert!(parse_date_time("2024-00-01 12:30").is_err());
    assert!(parse_date_time("2024-06-32 12:30").is_err());
    assert!(parse_date_time("2024-06-01 24:30").is_err());
    assert!(parse_date_time("2024-06-01 12:60").is_err());
    assert!(parse_date_time("2024-06-01 12:3").is_err());
}

#[test]
fn epoch_decision_is_exact() {
    assert_eq!(timestamp_from_epoch(Some(12)), Ok(12));
    assert_eq!(timestamp_from_epoch(Some(0)), Ok(0));
    assert_eq!(timestamp_from_epoch(Some(-1)), Err(ScanError::FieldParseFailure));
    assert_eq!(timestamp_from_epoch(None), Err(ScanError::FieldParseFailure));
}

#[test]
fn rows_are_truncated_at_the_first_failing_field() {
    let stars = vec![5u8, 4, 3];
    let names = vec![
        Ok("a".to_string()),
        Ok("b".to_string()),
        Ok("c".to_string()),
    ];
    let types = vec![
        Ok(ItemType::Character),
        Err(ScanError::FieldParseFailure),
        Ok(ItemType::Weapon),
    ];
    let times = vec![Ok(30u64), Ok(20u64), Ok(10u64)];
    let rows = assemble_rows(&stars, &names, &types, &times);
    assert_eq!(rows.len(), 1);
    assert_eq!(rows[0].star, 5);
    assert_eq!(rows[0].item_name, "a");
    assert_eq!(rows[0].item_type, ItemType::Character);
    assert_eq!(rows[0].timestamp, 30);
}

#[test]
fn frame_dims_must_be_sixteen_by_nine() {
    assert_eq!(validate_frame_dims(1920, 1080), Ok(false));
    assert_eq!(validate_frame_dims(2560, 1440), Ok(true));
    assert_eq!(validate_frame_dims(1280, 720), Ok(true));
    assert_eq!(validate_frame_dims(1280, 1024), Err(ScanError::AspectRatioMismatch));
    assert_eq!(validate_frame_dims(0, 0), Err(ScanError::AspectRatioMismatch));
}
