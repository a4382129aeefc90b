use mementic::generation::{is_blank, is_url_allowed, url_encode};
use mementic::minting::{guess_content_type, normalize_image_url};
use mementic::text::{decimal_text, trim_chars};
use mementic::weekly::format_remaining_time;

#[test]
fn url_encode_keeps_unreserved_characters() {
    assert_eq!(url_encode("Abc-123_x.y~z"), "Abc-123_x.y~z");
}

#[test]
fn url_encode_writes_space_as_percent_20() {
    assert_eq!(url_encode("funny cat meme"), "funny%20cat%20meme");
}

#[test]
fn url_encode_writes_other_ascii_as_hex() {
    assert_eq!(url_encode("a&b=c?"), "a%26b%3Dc%3F");
    assert_eq!(url_encode("100%"), "100%25");
}

#[test]
fn url_encode_uses_the_low_byte_of_other_characters() {
    // 'é' is U+00E9 and '€' is U+20AC: only the low byte is written.
    assert_eq!(url_encode("é"), "%E9");
    assert_eq!(url_encode("€"), "%AC");
}

#[test]
fn url_encode_of_empty_text_is_empty() {
    assert_eq!(url_encode(""), "");
}

#[test]
fn url_policy_allows_https_and_local_http() {
    assert!(is_url_allowed("https://example.com/x"));
    assert!(is_url_allowed("http://127.0.0.1:8000/x"));
    assert!(is_url_allowed("http://localhost:4943"));
    assert!(!is_url_allowed("http://example.com"));
    assert!(!is_url_allowed("ftp://example.com"));
    assert!(!is_url_allowed("https:/"));
}

#[test]
fn blank_prompts_are_white_space_only() {
    assert!(is_blank(""));
    assert!(is_blank("  \t\n"));
    assert!(is_blank("\u{3000}\u{00A0}"));
    assert!(!is_blank("  cat "));
}

#[test]
fn trim_drops_white_space_at_both_ends() {
    let cs: Vec<char> = "  a b \n".chars().collect();
    let t: String = trim_chars(&cs).into_iter().collect();
    assert_eq!(t, "a b");
    let blank: Vec<char> = " \t ".chars().collect();
    assert!(trim_chars(&blank).is_empty());
}

#[test]
fn decimal_text_writes_numbers() {
    assert_eq!(decimal_text(0), "0");
    assert_eq!(decimal_text(7), "7");
    assert_eq!(decimal_text(1234567890), "1234567890");
    assert_eq!(decimal_text(u64::MAX), "18446744073709551615");
}

#[test]
fn content_type_ignores_case() {
    assert_eq!(guess_content_type("PNG").as_deref(), Some("image/png"));
    assert_eq!(guess_content_type("png").as_deref(), Some("image/png"));
    assert_eq!(guess_content_type("Jpg").as_deref(), Some("image/jpeg"));
    assert_eq!(guess_content_type("jpeg").as_deref(), Some("image/jpeg"));
    assert_eq!(guess_content_type("webp").as_deref(), Some("image/webp"));
    assert_eq!(guess_content_type("GIF").as_deref(), Some("image/gif"));
    assert_eq!(guess_content_type("bmp").as_deref(), Some("image/bmp"));
    assert_eq!(guess_content_type("tif").as_deref(), Some("image/tiff"));
    assert_eq!(guess_content_type("TIFF").as_deref(), Some("image/tiff"));
    assert_eq!(guess_content_type("svg"), None);
    assert_eq!(guess_content_type(""), None);
}

#[test]
fn image_url_keeps_https_and_local_http() {
    assert_eq!(normalize_image_url("  https://cdn.x/a.png \n"), Ok("https://cdn.x/a.png".to_string()));
    assert_eq!(normalize_image_url("http://localhost:8080/a.png"), Ok("http://localhost:8080/a.png".to_string()));
    assert_eq!(normalize_image_url("http://127.0.0.1/a.png"), Ok("http://127.0.0.1/a.png".to_string()));
}

#[test]
fn image_url_maps_ipfs_to_the_gateway() {
    assert_eq!(normalize_image_url("ipfs://QmCid/x.png"), Ok("https://ipfs.io/ipfs/QmCid/x.png".to_string()));
    assert_eq!(normalize_image_url("ipfs:///QmCid"), Ok("https://ipfs.io/ipfs/QmCid".to_string()));
}

#[test]
fn image_url_upgrades_remote_http() {
    assert_eq!(normalize_image_url("http://example.com/a.png"), Ok("https://example.com/a.png".to_string()));
}

#[test]
fn image_url_refuses_blank_and_other_schemes() {
    assert_eq!(normalize_image_url("   "), Err("Empty image URL".to_string()));
    assert_eq!(normalize_image_url("ftp://x/a.png"), Err("Url need to specify https scheme".to_string()));
}

#[test]
fn remaining_time_is_written_in_days_hours_minutes() {
    let s = 1_000_000_000u64;
    assert_eq!(format_remaining_time((2 * 86400 + 3 * 3600 + 4 * 60 + 5) * s), "2d 3h 4m");
    assert_eq!(format_remaining_time((3 * 3600 + 59 * 60) * s), "3h 59m");
    assert_eq!(format_remaining_time(59 * s), "0m");
    assert_eq!(format_remaining_time(0), "0m");
}

#[test]
fn accepted_image_urls_are_fetchable() {
    for u in ["http://example.com/a", "ipfs://x", " https://a ", "http://localhost/x", "http://127.0.0.1/y"] {
        let n = normalize_image_url(u).unwrap();
        assert!(is_url_allowed(&n), "{}", n);
    }
}

#[test]
fn encoded_text_is_url_safe() {
    let e = url_encode("Hé, ✓ 100% <ok>?\t~_.-");
    assert!(e.chars().all(|c| c.is_ascii_alphanumeric() || "-_.~%".contains(c)));
    assert_eq!(url_encode("a b"), "a%20b");
}
