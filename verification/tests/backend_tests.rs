use base64::Engine;
use snowbreak_gacha_export::backend::{
    decode_backend_reply, image_to_base64, join_texts, reply_error, reply_kind_of_code,
    BackendReply, ReplyKind,
};
use snowbreak_gacha_export::errors::ScanError;

#[test]
fn status_codes_mean_exactly_one_thing() {
    assert_eq!(reply_kind_of_code(Some(100)), ReplyKind::Tokens);
    assert_eq!(reply_kind_of_code(Some(101)), ReplyKind::NoText);
    assert_eq!(reply_kind_of_code(Some(0)), ReplyKind::NoText);
    assert_eq!(reply_kind_of_code(Some(-3)), ReplyKind::NoText);
    assert_eq!(reply_kind_of_code(None), ReplyKind::Malformed);
}

#[test]
fn replies_decode_into_tokens_or_typed_failures() {
    match decode_backend_reply(r#"{"code":100,"data":[{"text":"foo"},{"text":"bar"}]}"#) {
        BackendReply::Tokens(texts) => assert_eq!(texts, vec!["foo", "bar"]),
        _ => panic!("a well-shaped success reply must decode into tokens"),
    }
    assert!(matches!(
        decode_backend_reply(r#"{"code":101}"#),
        BackendReply::NoText
    ));
    assert!(matches!(
        decode_backend_reply("not json at all"),
        BackendReply::Malformed
    ));
    assert!(matches!(
        decode_backend_reply(r#"{"code":100}"#),
        BackendReply::Malformed
    ));
    assert!(matches!(
        decode_backend_reply(r#"{"code":100,"data":[{"box":[1,2]}]}"#),
        BackendReply::Malformed
    ));
    assert!(matches!(
        decode_backend_reply(r#"{"data":[{"text":"x"}]}"#),
        BackendReply::Malformed
    ));
}

#[test]
fn reply_failures_map_onto_the_taxonomy() {
    assert_eq!(reply_error(&BackendReply::Tokens(Vec::new())), None);
    assert_eq!(
        reply_error(&BackendReply::NoText),
        Some(ScanError::OcrNoTextFound)
    );
    assert_eq!(
        reply_error(&BackendReply::Malformed),
        Some(ScanError::OcrMalformedResponse)
    );
}

#[test]
fn tokens_join_in_reply_order() {
    let texts = vec!["2024-06-01".to_string(), " 12:30".to_string()];
    assert_eq!(join_texts(&texts), "2024-06-01 12:30");
    assert_eq!(join_texts(&Vec::new()), "");
}

#[test]
fn encoded_image_round_trips_through_png_and_base64() {
    // A 2x2 gray image; decoding the produced text must answer the very
    // same pixels, so the encoding cannot have passed anything through
    // unchanged.
    let gray = vec![0u8, 85, 170, 255];
    let text = image_to_base64(&gray, 2, 2).unwrap();
    assert_eq!(text.len() % 4, 0);
    let png = base64::engine::general_purpose::STANDARD
        .decode(text.as_bytes())
        .unwrap();
    assert_eq!(&png[1..4], b"PNG");
    let img = image::load_from_memory(&png).unwrap().into_luma8();
    assert_eq!(img.dimensions(), (2, 2));
    assert_eq!(img.into_raw(), gray);
}
