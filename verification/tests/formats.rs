use knot::image_format::ImageFormat;
use knot::routes::images::{classify_upload, key_is_free, served_image_key, try_upload_key, try_zip_key, upload_extension, upload_key, upload_key_for, zip_key};
use knot::routes::public::{check_content_type, mime_or_unknown, static_file_mime};
use knot::error::{CommonHeaders, VentError, ImageAction, SqlxAction};
use knot::text::{bool_text, compare_text, decimal_string, hex_string, join_strings, parse_bool_text, same_text, signed_decimal_string};
use knot::routes::images::{archive_photos, archive_plan, upload_key_if_free, zip_key_if_free, ArchivePlan};

const ALL: [ImageFormat; 15] = [
    ImageFormat::Png,
    ImageFormat::Jpeg,
    ImageFormat::Gif,
    ImageFormat::WebP,
    ImageFormat::Pnm,
    ImageFormat::Tiff,
    ImageFormat::Tga,
    ImageFormat::Dds,
    ImageFormat::Bmp,
    ImageFormat::Ico,
    ImageFormat::Hdr,
    ImageFormat::OpenExr,
    ImageFormat::Farbfeld,
    ImageFormat::Avif,
    ImageFormat::Qoi,
];

#[test]
fn guesses_formats_from_magic_bytes() {
    assert_eq!(ImageFormat::guess_format(&[0x89, b'P', b'N', b'G', 0x0d, 0x0a, 0x1a, 0x0a, 0, 0]), Some(ImageFormat::Png));
    assert_eq!(ImageFormat::guess_format(&[0xff, 0xd8, 0xff, 0xe0]), Some(ImageFormat::Jpeg));
    assert_eq!(ImageFormat::guess_format(b"GIF89a...."), Some(ImageFormat::Gif));
    assert_eq!(ImageFormat::guess_format(b"GIF87a"), Some(ImageFormat::Gif));
    assert_eq!(ImageFormat::guess_format(b"RIFF1234WEBP"), Some(ImageFormat::WebP));
    assert_eq!(ImageFormat::guess_format(b"BM\x00\x00"), Some(ImageFormat::Bmp));
    assert_eq!(ImageFormat::guess_format(b"qoif...."), Some(ImageFormat::Qoi));
    assert_eq!(ImageFormat::guess_format(b"farbfeld"), Some(ImageFormat::Farbfeld));
}

#[test]
fn unknown_or_short_buffers_are_not_images() {
    assert_eq!(ImageFormat::guess_format(b""), None);
    assert_eq!(ImageFormat::guess_format(b"hello world"), None);
    assert_eq!(ImageFormat::guess_format(&[0x89, b'P', b'N']), None);
}

#[test]
fn extensions_and_mime_types() {
    assert_eq!(ImageFormat::Jpeg.extensions_str(), &["jpg", "jpeg"]);
    assert_eq!(ImageFormat::Png.to_mime_type(), "image/png");
    assert_eq!(ImageFormat::Tga.to_mime_type(), "image/x-targa");
    assert_eq!(ImageFormat::Farbfeld.to_mime_type(), "application/octet-stream");
    for f in ALL {
        assert!(!f.extensions_str().is_empty());
    }
}

#[test]
fn every_extension_names_its_format() {
    for f in ALL {
        for ext in f.extensions_str() {
            assert_eq!(ImageFormat::from_extension(ext), Some(f));
            assert_eq!(ImageFormat::from_extension(&ext.to_ascii_uppercase()), Some(f));
        }
    }
}

#[test]
fn from_extension_ignores_case_and_rejects_unknown() {
    assert_eq!(ImageFormat::from_extension("JpEg"), Some(ImageFormat::Jpeg));
    assert_eq!(ImageFormat::from_extension("TIF"), Some(ImageFormat::Tiff));
    assert_eq!(ImageFormat::from_extension("txt"), None);
    assert_eq!(ImageFormat::from_extension(""), None);
}

#[test]
fn uploads_are_classified() {
    let k = classify_upload(&[0xff, 0xd8, 0xff, 0x00]).unwrap();
    assert_eq!(k.format, ImageFormat::Jpeg);
    assert_eq!(k.extension, "jpg");
    assert_eq!(k.mime, "image/jpeg");
    assert!(matches!(classify_upload(b"plain text"), Err(VentError::Image { action: ImageAction::GuessingFormat })));
    assert_eq!(upload_extension(ImageFormat::Pnm), "pbm");
}

#[test]
fn storage_keys() {
    assert_eq!(upload_key("abc", "png"), "uploads/abc.png");
    assert_eq!(served_image_key("abc.png"), "uploads/abc.png");
    assert_eq!(zip_key("12.zip"), "zips/12.zip");
    assert_eq!(upload_key_for(255, "gif"), "uploads/ff.gif");
    assert_eq!(upload_key_for(0, "gif"), "uploads/0.gif");
    let existing = vec!["uploads/ff.gif".to_string()];
    assert!(!key_is_free(&existing, "uploads/ff.gif"));
    assert!(key_is_free(&existing, "uploads/fe.gif"));
}

#[test]
fn random_keys_have_their_shape() {
    let existing: Vec<String> = vec![];
    let key = loop {
        if let Some(k) = try_upload_key("png", &existing) {
            break k;
        }
    };
    assert!(key.starts_with("uploads/"));
    assert!(key.ends_with(".png"));
    let hex = &key["uploads/".len()..key.len() - ".png".len()];
    assert!(u128::from_str_radix(hex, 16).is_ok());
    assert_eq!(format!("{:x}", u128::from_str_radix(hex, 16).unwrap()), hex);

    let zip = try_zip_key(&existing).unwrap();
    assert!(zip.starts_with("zips/") && zip.ends_with(".zip"));
    let n = &zip["zips/".len()..zip.len() - ".zip".len()];
    assert!(n.parse::<u128>().is_ok());
}

#[test]
fn appended_bytes_keep_the_format() {
    let png = vec![0x89u8, 0x50, 0x4e, 0x47, 0x0d, 0x0a, 0x1a, 0x0a];
    for extra in [vec![], vec![0u8], vec![0x42, 0x4d, 1, 2, 3]] {
        let mut b = png.clone();
        b.extend(extra);
        assert_eq!(ImageFormat::guess_format(&b), Some(ImageFormat::Png));
    }
    let mut bmp = vec![0x42u8, 0x4d];
    assert_eq!(ImageFormat::guess_format(&bmp), Some(ImageFormat::Bmp));
    bmp.extend([0x89u8, 0x50]);
    assert_eq!(ImageFormat::guess_format(&bmp), Some(ImageFormat::Bmp));
    let mut pnm = b"P6".to_vec();
    pnm.extend(b"abc");
    assert_eq!(ImageFormat::guess_format(&pnm), Some(ImageFormat::Pnm));
}

#[test]
fn mime_types_are_distinct_and_well_formed() {
    for (i, f) in ALL.iter().enumerate() {
        let m = f.to_mime_type();
        assert!(m.chars().all(|c| ('!'..='~').contains(&c)));
        assert!(m.contains('/'));
        if *f != ImageFormat::Farbfeld {
            assert!(m.starts_with("image/"));
        }
        for g in &ALL[i + 1..] {
            assert_ne!(m, g.to_mime_type());
        }
    }
}

#[test]
fn stored_archives_are_served_again() {
    assert!(matches!(archive_plan(Some("zips/7.zip".to_string())), ArchivePlan::ServeStored(k) if k == "zips/7.zip"));
    assert!(matches!(archive_plan(None), ArchivePlan::Build));
}

#[test]
fn content_types_are_checked_as_header_values() {
    assert!(check_content_type("text/csv").is_ok());
    assert!(check_content_type("text/plain; charset=utf-8\t").is_ok());
    assert!(check_content_type("image/é").is_ok());
    assert!(matches!(check_content_type("text/\ncsv"), Err(VentError::Headers { which_header: CommonHeaders::ContentType })));
    assert!(check_content_type("bad\u{7f}").is_err());
    assert!(check_content_type("").is_ok());
}

#[test]
fn upper_cased_extensions_read_back() {
    let mut seen: Vec<&str> = Vec::new();
    for f in ALL {
        for e in f.extensions_str() {
            assert!(e.chars().all(|c| c.is_ascii_lowercase() || c.is_ascii_digit()));
            assert_eq!(ImageFormat::from_extension(e), Some(f));
            assert_eq!(ImageFormat::from_extension(&e.to_ascii_uppercase()), Some(f));
            assert!(!seen.contains(e));
            seen.push(e);
        }
    }
}

#[test]
fn attempts_succeed_when_nothing_is_stored() {
    let existing: Vec<String> = vec![];
    for _ in 0..50 {
        assert!(try_upload_key("jpg", &existing).is_some());
        assert!(try_zip_key(&existing).is_some());
    }
}

#[test]
fn mime_types_of_stored_files() {
    assert_eq!(static_file_mime("public/favicon.ico").unwrap(), "image/vnd.microsoft.icon");
    assert_eq!(static_file_mime("public/site.json").unwrap(), "application/json");
    assert_eq!(static_file_mime("public/offline.html").unwrap(), "text/html");
    assert_eq!(static_file_mime("public/robots.txt").unwrap(), "text/plain");
    match static_file_mime("public/no_extension") {
        Err(VentError::UnknownMIME { path }) => assert_eq!(path, "public/no_extension"),
        other => panic!("unexpected {other:?}"),
    }
    assert_eq!(mime_or_unknown("a.css", Some("text/css".to_string())).unwrap(), "text/css");
    assert!(matches!(mime_or_unknown("a", None), Err(VentError::UnknownMIME { .. })));
}

#[test]
fn error_status_codes() {
    assert_eq!(VentError::Sqlx { action: SqlxAction::FindingPeople }.status_code(), 404);
    assert_eq!(VentError::Sqlx { action: SqlxAction::AcquiringConnection }.status_code(), 500);
    assert_eq!(VentError::ParseTime { original: "x".to_string() }.status_code(), 400);
    assert_eq!(VentError::MissingCFIP.status_code(), 400);
    assert_eq!(VentError::Multipart.status_code(), 400);
    assert_eq!(VentError::PageNotFound { was_looking_for: "/x".to_string() }.status_code(), 404);
    assert_eq!(VentError::Csv.status_code(), 500);
    assert_eq!(VentError::Bcrypt.status_code(), 500);
}

#[test]
fn numbers_as_text() {
    assert_eq!(decimal_string(0), "0");
    assert_eq!(decimal_string(1234567890), "1234567890");
    assert_eq!(decimal_string(u128::MAX), u128::MAX.to_string());
    assert_eq!(signed_decimal_string(-42), "-42");
    assert_eq!(signed_decimal_string(i32::MIN), i32::MIN.to_string());
    assert_eq!(signed_decimal_string(7), "7");
    assert_eq!(hex_string(0xdeadbeef), "deadbeef");
    assert_eq!(hex_string(u128::MAX), format!("{:x}", u128::MAX));
}

#[test]
fn booleans_and_joins() {
    assert_eq!(bool_text(true), "true");
    assert_eq!(parse_bool_text("false"), Some(false));
    assert_eq!(parse_bool_text("TRUE"), None);
    assert_eq!(parse_bool_text(""), None);
    let parts = vec!["a".to_string(), "b".to_string(), "c".to_string()];
    assert_eq!(join_strings(&parts, ", "), "a, b, c");
    assert_eq!(join_strings(&vec![], ", "), "");
}

#[test]
fn text_order_is_lexicographic() {
    assert_eq!(compare_text("abc", "abd"), -1);
    assert_eq!(compare_text("ab", "abc"), -1);
    assert_eq!(compare_text("b", "abc"), 1);
    assert_eq!(compare_text("same", "same"), 0);
    assert!(same_text("x", "x"));
    assert!(!same_text("x", "X"));
}

#[test]
fn photos_are_archived() {
    let files = vec![("uploads/a.png".to_string(), vec![1u8, 2, 3]), ("uploads/b.png".to_string(), b"hello".to_vec())];
    let zip = archive_photos(&files).unwrap();
    assert_eq!(&zip[..4], b"PK\x03\x04");
    assert!(zip.windows(13).any(|w| w == b"uploads/a.png"));
    let again = archive_photos(&files).unwrap();
    assert_eq!(zip, again);
    let twice = vec![("same".to_string(), vec![]), ("same".to_string(), vec![])];
    assert!(matches!(archive_photos(&twice), Err(VentError::Zip)));
    assert!(archive_photos(&vec![]).unwrap().len() > 0);
}

#[test]
fn keys_from_numbers() {
    let existing = vec!["uploads/ff.png".to_string(), "zips/7.zip".to_string()];
    assert_eq!(upload_key_if_free(255, "png", &existing), None);
    assert_eq!(upload_key_if_free(254, "png", &existing), Some("uploads/fe.png".to_string()));
    assert_eq!(zip_key_if_free(7, &existing), Some("zips/7.zip".to_string()));
    assert_eq!(zip_key_if_free(8, &vec!["8.zip".to_string()]), None);
}
