use captioner::captions::{caption_file_name, file_stem};
use captioner::imaging::{
    check_image_dimensions, image_base64, image_payload, media_type, payload_json, ImageKind,
};
use captioner::sanitize::{clean_base64, edit_image_source, sanitize_base64, SourceEdit};
use captioner::system::{get_system_info, REPORTED_MEMORY_MB};
use captioner::text::push_decimal;

#[test]
fn caption_names_use_the_stem() {
    assert_eq!(caption_file_name("cat.png"), "cat.txt");
    assert_eq!(caption_file_name("archive.tar.jpg"), "archive.tar.txt");
    assert_eq!(caption_file_name("noext"), "noext.txt");
    assert_eq!(caption_file_name(".hidden"), ".hidden.txt");
    assert_eq!(file_stem(".."), "..");
    assert_eq!(file_stem("a."), "a");
}

#[test]
fn dimensions_within_bounds() {
    assert_eq!(check_image_dimensions(200, 200), Ok(()));
    assert_eq!(check_image_dimensions(8000, 8000), Ok(()));
    assert_eq!(check_image_dimensions(1024, 768), Ok(()));
}

#[test]
fn dimensions_too_large() {
    assert_eq!(
        check_image_dimensions(8001, 300),
        Err("Image dimensions too large: 8001x300 (max 8000x8000 px)".to_string())
    );
    assert_eq!(
        check_image_dimensions(100, 9000),
        Err("Image dimensions too large: 100x9000 (max 8000x8000 px)".to_string())
    );
}

#[test]
fn dimensions_too_small() {
    assert_eq!(
        check_image_dimensions(199, 4000),
        Err("Image dimensions too small: 199x4000 (min 200x200 px)".to_string())
    );
    assert_eq!(
        check_image_dimensions(0, 0),
        Err("Image dimensions too small: 0x0 (min 200x200 px)".to_string())
    );
}

#[test]
fn decimal_text() {
    let mut s = String::from("n=");
    push_decimal(&mut s, 0);
    push_decimal(&mut s, 18446744073709551615);
    assert_eq!(s, "n=018446744073709551615");
}

#[test]
fn media_types() {
    assert_eq!(media_type(ImageKind::Jpeg), "image/jpeg");
    assert_eq!(media_type(ImageKind::Png), "image/png");
    assert_eq!(media_type(ImageKind::Pnm), "image/x-portable-anymap");
    assert_eq!(media_type(ImageKind::Other), "application/octet-stream");
}

#[test]
fn base64_of_bytes() {
    assert_eq!(image_base64(&b"hello".to_vec()), "aGVsbG8=");
    assert_eq!(image_base64(&Vec::new()), "");
    assert_eq!(image_base64(&vec![0xff, 0xfe, 0xfd]), "//79");
}

#[test]
fn payload_object() {
    assert_eq!(
        payload_json("QUJD", ImageKind::Png),
        "{\"base64Data\":\"QUJD\",\"mediaType\":\"image/png\"}"
    );
    assert_eq!(
        image_payload(&b"ABC".to_vec(), ImageKind::Jpeg),
        "{\"base64Data\":\"QUJD\",\"mediaType\":\"image/jpeg\"}"
    );
}

#[test]
fn cleaning_drops_blanks_wrappers_and_strays() {
    assert_eq!(clean_base64("aGVs\nbG8=\r "), "aGVsbG8=");
    assert_eq!(clean_base64("[aGVsbG8=]"), "aGVsbG8=");
    assert_eq!(clean_base64("\"aGVsbG8=\""), "aGVsbG8=");
    assert_eq!(clean_base64("[\"aGVs bG8=\"]"), "aGVsbG8=");
    assert_eq!(clean_base64("aG-Vs_bG8=!"), "aGVsbG8=");
    assert_eq!(clean_base64("\""), "");
    assert_eq!(clean_base64(""), "");
}

#[test]
fn sanitizing_checks_decoding() {
    assert_eq!(sanitize_base64(" aGVsbG8= "), Ok("aGVsbG8=".to_string()));
    let e = sanitize_base64("abc").unwrap_err();
    assert!(e.starts_with("Invalid base64 data: "));
}

#[test]
fn only_base64_image_sources_are_edited() {
    assert_eq!(edit_image_source(Some("text"), Some("base64"), Some("!!")), SourceEdit::Keep);
    assert_eq!(edit_image_source(Some("image"), Some("url"), Some("!!")), SourceEdit::Keep);
    assert_eq!(edit_image_source(Some("image"), Some("base64"), None), SourceEdit::Keep);
    assert_eq!(edit_image_source(None, None, None), SourceEdit::Keep);
    assert_eq!(
        edit_image_source(Some("image"), Some("base64"), Some("[aGVsbG8=]")),
        SourceEdit::Replace("aGVsbG8=".to_string())
    );
    match edit_image_source(Some("image"), Some("base64"), Some("a")) {
        SourceEdit::Reject(m) => assert!(m.starts_with("Invalid base64 data: ")),
        other => panic!("unexpected {:?}", other),
    }
}

#[test]
fn system_summary() {
    let s = get_system_info("linux".to_string());
    assert_eq!(s.os, "linux");
    assert!(s.cpu_cores >= 1);
    assert_eq!(s.memory_mb, REPORTED_MEMORY_MB);
    assert_eq!(s.memory_mb, 16384);
}

use captioner::listing::select_directory_fallback;
use captioner::sanitize::{edit_image_sources, ContentItem};
use captioner::system::system_info;

fn item(t: Option<&str>, st: Option<&str>, d: Option<&str>) -> ContentItem {
    ContentItem {
        item_type: t.map(str::to_string),
        source_type: st.map(str::to_string),
        data: d.map(str::to_string),
    }
}

#[test]
fn system_summary_holds_given_count() {
    let s = system_info("macos".to_string(), 12);
    assert_eq!(s.os, "macos");
    assert_eq!(s.cpu_cores, 12);
    assert_eq!(s.memory_mb, 16384);
}

#[test]
fn no_native_directory_picker() {
    assert_eq!(
        select_directory_fallback(),
        Err("Native directory selection not available".to_string())
    );
}

#[test]
fn request_edits_for_every_item() {
    let items = vec![
        item(Some("text"), None, None),
        item(Some("image"), Some("base64"), Some("[\"aGVs\nbG8=\"]")),
        item(Some("image"), Some("url"), Some("!!")),
    ];
    assert_eq!(
        edit_image_sources(&items),
        Ok(vec![None, Some("aGVsbG8=".to_string()), None])
    );
    assert_eq!(edit_image_sources(&Vec::new()), Ok(Vec::new()));
}

#[test]
fn request_refused_at_first_bad_payload() {
    let items = vec![
        item(Some("image"), Some("base64"), Some("aGVsbG8=")),
        item(Some("image"), Some("base64"), Some("a")),
        item(Some("image"), Some("base64"), Some("b")),
    ];
    let e = edit_image_sources(&items).unwrap_err();
    assert!(e.starts_with("Invalid base64 data: "));
}

#[test]
fn encoded_payload_is_plain_json() {
    let p = image_payload(&vec![0xfb, 0xff, 0x00, 0x10], ImageKind::Gif);
    assert_eq!(p, "{\"base64Data\":\"+/8AEA==\",\"mediaType\":\"image/gif\"}");
    let v: serde_json::Value = serde_json::from_str(&p).unwrap();
    assert_eq!(v["base64Data"], "+/8AEA==");
}
