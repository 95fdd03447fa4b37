use imgserve::codec::{decode_container, decode_params_list, encode_container, encode_params_list};
use imgserve::filename_extractor::FileNameExtractor;
use imgserve::image_processing::{validate_processing_params, ProcessingParams, RatioPolicy};
use imgserve::image_types::{sniff_format, Extensions, MimeType, SniffedFormat};
use imgserve::keys::{derived_cache_key, json_params_bytes, removal_prefix_key, u64_digits};
use imgserve::resize::plan_resize;
use imgserve::responses::{cache_control_value, content_disposition_value};
use imgserve::types::ImageContainer;

fn params(width: Option<u32>, height: Option<u32>, extension: Option<Extensions>,
    quality: Option<u32>, ratio_policy: Option<RatioPolicy>) -> ProcessingParams {
    ProcessingParams { width, height, extension, quality, ratio_policy }
}

#[test]
fn extension_names_and_mime_types() {
    assert_eq!(Extensions::Webp.name(), "webp");
    assert_eq!(Extensions::Avif.name(), "avif");
    assert_eq!(Extensions::PNG.name(), "png");
    assert_eq!(Extensions::Webp.mime_type(), "image/webp");
    assert_eq!(Extensions::PNG.mime_type(), "image/png");
    assert_eq!(Extensions::default(), Extensions::Webp);
}

#[test]
fn quality_validation_band() {
    assert!(validate_processing_params(&params(None, None, None, None, None)).is_ok());
    assert!(validate_processing_params(&params(None, None, None, Some(10), None)).is_ok());
    assert!(validate_processing_params(&params(None, None, None, Some(100), None)).is_ok());
    assert!(validate_processing_params(&params(None, None, None, Some(9), None)).is_err());
    assert!(validate_processing_params(&params(None, None, None, Some(101), None)).is_err());
}

#[test]
fn canonical_order_is_lexicographic_with_absent_first() {
    let a = params(None, None, None, None, None);
    let b = params(Some(1), None, None, None, None);
    let c = params(Some(1), Some(5), None, None, None);
    let d = params(Some(2), None, None, None, None);
    assert!(a.lt(&b));
    assert!(b.lt(&c));
    assert!(c.lt(&d));
    assert!(!d.lt(&c));
    assert!(!a.lt(&a));
    let e1 = params(None, None, Some(Extensions::Webp), None, None);
    let e2 = params(None, None, Some(Extensions::PNG), None, None);
    assert!(e1.lt(&e2));
    let r1 = params(None, None, None, None, Some(RatioPolicy::Resize));
    let r2 = params(None, None, None, None, Some(RatioPolicy::CropToCenter));
    assert!(r1.lt(&r2));
}

#[test]
fn sniffing_recognizes_magic_bytes() {
    let png = vec![0x89u8, 0x50, 0x4e, 0x47, 0x0d, 0x0a, 0x1a, 0x0a, 0, 0];
    assert_eq!(sniff_format(&png), Some(SniffedFormat::Png));
    let jpeg = vec![0xffu8, 0xd8, 0xff, 0xe0];
    assert_eq!(sniff_format(&jpeg), Some(SniffedFormat::Jpeg));
    let gif = b"GIF89a....".to_vec();
    assert_eq!(sniff_format(&gif), Some(SniffedFormat::Gif));
    let tiff = vec![0x49u8, 0x49, 0x2a, 0x00];
    assert_eq!(sniff_format(&tiff), Some(SniffedFormat::Tiff));
    let bmp = b"BMxxxx".to_vec();
    assert_eq!(sniff_format(&bmp), Some(SniffedFormat::Bmp));
    let webp = b"RIFF\x00\x00\x00\x00WEBPVP8 ".to_vec();
    assert_eq!(sniff_format(&webp), Some(SniffedFormat::Webp));
    let ico = vec![0x00u8, 0x00, 0x01, 0x00];
    assert_eq!(sniff_format(&ico), Some(SniffedFormat::Ico));
    let exr = vec![0x76u8, 0x2f, 0x31, 0x01];
    assert_eq!(sniff_format(&exr), Some(SniffedFormat::Exr));
    let garbage = b"hello world".to_vec();
    assert_eq!(sniff_format(&garbage), None);
    assert_eq!(sniff_format(&Vec::new()), None);
}

#[test]
fn resize_plan_stretch() {
    let plan = plan_resize(640, 480, Some(100), Some(50), RatioPolicy::Resize);
    assert!(!plan.crop);
    assert_eq!(plan.resize_w, 100);
    assert_eq!(plan.resize_h, 50);
    assert_eq!(plan.out_w, 100);
    assert_eq!(plan.out_h, 50);
}

#[test]
fn resize_plan_same_ratio_is_direct() {
    let plan = plan_resize(200, 100, Some(100), Some(50), RatioPolicy::CropToCenter);
    assert!(!plan.crop);
    assert_eq!(plan.out_w, 100);
    assert_eq!(plan.out_h, 50);
}

#[test]
fn resize_plan_wider_source_covers_and_centers() {
    // source 200x100 into a 100x100 box: cover is 200x100 scaled to height
    // 100 -> width round(100 * 200 / 100) = 200; offset (200-100)/2 = 50
    let plan = plan_resize(200, 100, Some(100), Some(100), RatioPolicy::CropToCenter);
    assert!(plan.crop);
    assert_eq!(plan.resize_h, 100);
    assert_eq!(plan.resize_w, 200);
    assert_eq!(plan.offset_x, 50);
    assert_eq!(plan.offset_y, 0);
    assert_eq!(plan.out_w, 100);
    assert_eq!(plan.out_h, 100);
}

#[test]
fn resize_plan_taller_source_covers_and_centers() {
    // source 100x300 into 100x100: cover height round(100 * 300 / 100) = 300
    let plan = plan_resize(100, 300, Some(100), Some(100), RatioPolicy::CropToCenter);
    assert!(plan.crop);
    assert_eq!(plan.resize_w, 100);
    assert_eq!(plan.resize_h, 300);
    assert_eq!(plan.offset_x, 0);
    assert_eq!(plan.offset_y, 100);
}

#[test]
fn resize_plan_rounding_half_up() {
    // source 3x2 into height 3: cover width round(3 * 3 / 2) = round(4.5) = 5
    let plan = plan_resize(3, 2, Some(2), Some(3), RatioPolicy::CropToCenter);
    assert!(plan.crop);
    assert_eq!(plan.resize_h, 3);
    assert_eq!(plan.resize_w, 5);
    assert_eq!(plan.offset_x, 1);
}

#[test]
fn resize_plan_defaults_to_source_dimensions() {
    let plan = plan_resize(320, 200, None, None, RatioPolicy::CropToCenter);
    assert!(!plan.crop);
    assert_eq!(plan.out_w, 320);
    assert_eq!(plan.out_h, 200);
}

#[test]
fn params_list_codec_round_trip() {
    let list = vec![
        params(None, None, None, None, None),
        params(Some(7), Some(9), Some(Extensions::Avif), Some(82),
            Some(RatioPolicy::CropToCenter)),
        params(Some(4294967295), None, Some(Extensions::PNG), Some(10),
            Some(RatioPolicy::Resize)),
    ];
    let bytes = encode_params_list(&list);
    let back = decode_params_list(&bytes).expect("an encoding decodes");
    assert_eq!(back, list);
}

#[test]
fn params_list_decoder_rejects_garbage() {
    assert!(decode_params_list(&vec![1u8, 2, 3]).is_none());
    let mut bytes = encode_params_list(&vec![params(Some(1), None, None, None, None)]);
    bytes.push(0);
    assert!(decode_params_list(&bytes).is_none());
    let truncated = bytes[..bytes.len() - 10].to_vec();
    assert!(decode_params_list(&truncated).is_none());
}

#[test]
fn container_codec_round_trip() {
    let c = ImageContainer::new(Box::new(vec![1u8, 2, 3, 255, 0]),
        Some(String::from("k\u{043e}t\u{0451}nok.webp")), Extensions::Webp);
    let bytes = encode_container(&c);
    let back = decode_container(&bytes).expect("an encoding decodes");
    assert_eq!(*back.data, vec![1u8, 2, 3, 255, 0]);
    assert_eq!(back.filename.as_deref(), Some("k\u{043e}t\u{0451}nok.webp"));
    assert_eq!(back.extension, Extensions::Webp);
}

#[test]
fn container_codec_without_filename() {
    let c = ImageContainer::new(Box::new(Vec::new()), None, Extensions::PNG);
    let bytes = encode_container(&c);
    let back = decode_container(&bytes).expect("an encoding decodes");
    assert!(back.data.is_empty());
    assert_eq!(back.filename, None);
    assert_eq!(back.extension, Extensions::PNG);
    assert!(decode_container(&vec![9u8, 9, 9]).is_none());
}

#[test]
fn canonical_json_and_derived_key() {
    let p = params(Some(100), None, Some(Extensions::Webp), Some(82),
        Some(RatioPolicy::CropToCenter));
    let json = json_params_bytes(&p);
    assert_eq!(String::from_utf8(json).unwrap(),
        "{\"width\":100,\"height\":null,\"extension\":\"Webp\",\"quality\":82,\"ratio_policy\":\"CropToCenter\"}");
    let id = String::from("cat");
    let key = derived_cache_key(&id, &p);
    let key_text = String::from_utf8(key).unwrap();
    assert!(key_text.starts_with("cat_{"));
    let prefix = removal_prefix_key(&id);
    assert_eq!(prefix, b"cat_{".to_vec());
    assert!(key_text.as_bytes().starts_with(&prefix));
    // a different identifier without a brace is never caught by the prefix
    let other = derived_cache_key(&String::from("cat2"), &p);
    assert!(!other.starts_with(&prefix));
}

#[test]
fn decimal_digits_print_exactly() {
    assert_eq!(u64_digits(0), b"0".to_vec());
    assert_eq!(u64_digits(7), b"7".to_vec());
    assert_eq!(u64_digits(31536000), b"31536000".to_vec());
    assert_eq!(u64_digits(18446744073709551615), b"18446744073709551615".to_vec());
}

#[test]
fn cache_control_header_value() {
    let v = cache_control_value(31536000);
    assert_eq!(String::from_utf8(v).unwrap(), "public, max-age=31536000, immutable");
}

#[test]
fn content_disposition_header_value() {
    let v = content_disposition_value(&None, Extensions::Webp);
    let text = String::from_utf8(v).unwrap();
    assert_eq!(text, "inline; filename=\"image.webp\"; filename*=UTF-8''image.webp");
    // the percent-encoded form never passes a raw space through
    let v2 = content_disposition_value(&Some(String::from("my cat")), Extensions::PNG);
    let text2 = String::from_utf8(v2).unwrap();
    assert!(text2.starts_with("inline; filename=\"my cat.png\"; "));
    assert!(text2.contains("%20"));
    assert!(!text2[text2.find("filename*=").unwrap()..].contains(' '));
    // quotes in the name are escaped in the quoted form
    let v3 = content_disposition_value(&Some(String::from("a\"b")), Extensions::Webp);
    let text3 = String::from_utf8(v3).unwrap();
    assert!(text3.starts_with("inline; filename=\"a\\\"b.webp\""));
}

#[test]
fn filename_extraction_from_disposition() {
    assert_eq!(
        FileNameExtractor::extract("attachment; filename=\"cat.png\""),
        Some(String::from("cat.png")));
    assert_eq!(
        FileNameExtractor::parse_content_disposition("inline"),
        None);
    assert_eq!(
        FileNameExtractor::parse_content_disposition("attachment; filename*=UTF-8''c%20at.png"),
        Some(String::from("c at.png")));
    assert_eq!(
        FileNameExtractor::extract_filename_from_part("filename='dog.webp'"),
        Some(String::from("dog.webp")));
    assert_eq!(
        FileNameExtractor::extract_quoted_value(" \"spaced\" "),
        Some(String::from("spaced")));
    assert_eq!(
        FileNameExtractor::extract_quoted_value("bare"),
        Some(String::from("bare")));
    assert_eq!(
        FileNameExtractor::extract_rfc5987_value("UTF-8''na%C3%AFve.png"),
        Some(String::from("na\u{ef}ve.png")));
    assert_eq!(
        FileNameExtractor::extract_rfc5987_value("\"plain.png\""),
        Some(String::from("plain.png")));
}
