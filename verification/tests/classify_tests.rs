use danmaku::classify::{classify, is_av_or_bv, CanonicalVideoRef, IdKind, PipelineDecision};
use danmaku::codec::{encode, CodecError};

fn resolve(url: &str) -> CanonicalVideoRef {
    match classify(url).unwrap() {
        PipelineDecision::Resolve(r) => r,
        PipelineDecision::Skip => panic!("expected a resolve for {url}"),
    }
}

fn skips(url: &str) -> bool {
    matches!(classify(url), Ok(PipelineDecision::Skip))
}

#[test]
fn grammar_check() {
    assert!(is_av_or_bv("av170001"));
    assert!(is_av_or_bv("av1"));
    assert!(is_av_or_bv("BV1xx411c7mD"));
    assert!(is_av_or_bv("bv1xx411c7mD"));
    assert!(is_av_or_bv("Bv1xx411c7mD"));
    assert!(!is_av_or_bv("av"));
    assert!(!is_av_or_bv("av12x"));
    assert!(!is_av_or_bv("AV170001"));
    assert!(!is_av_or_bv("BV123"));
    assert!(!is_av_or_bv("BV1xx411c7m"));
    assert!(!is_av_or_bv("BV1xx411c7m-"));
    assert!(!is_av_or_bv("ep399420"));
}

#[test]
fn legacy_url_rewrite() {
    let bv = encode(170001).unwrap();
    let r = resolve("https://www.bilibili.com/video/av170001");
    assert_eq!(r.token, "av170001");
    assert_eq!(r.video_id, bv);
    assert_eq!(r.kind, IdKind::LegacyNumeric);
    assert_eq!(r.source_url, format!("https://www.bilibili.com/video/{bv}"));
}

#[test]
fn canonical_url_unchanged() {
    let r = resolve("https://www.bilibili.com/video/BV1xx411c7mD");
    assert_eq!(r.token, "BV1xx411c7mD");
    assert_eq!(r.video_id, "BV1xx411c7mD");
    assert_eq!(r.kind, IdKind::Canonical);
    assert_eq!(r.source_url, "https://www.bilibili.com/video/BV1xx411c7mD");
}

#[test]
fn unrelated_hosts_are_skipped() {
    assert!(skips("https://www.youtube.com/watch?v=abc"));
    assert!(skips("https://example.com/video/av170001"));
    assert!(skips("https://bilibili.org/video/av170001"));
    assert!(skips("https://video.bilibili.com/video/av170001"));
}

#[test]
fn bare_domain_is_normalized() {
    let r = resolve("https://bilibili.com/video/BV1xx411c7mD");
    assert_eq!(r.source_url, "https://www.bilibili.com/video/BV1xx411c7mD");
}

#[test]
fn festival_url_resolution() {
    let r = resolve("https://www.bilibili.com/festival/2021bnj?bvid=BV1xx411c7mD&spm_id_from=x");
    assert_eq!(r.video_id, "BV1xx411c7mD");
    assert_eq!(r.source_url, "https://www.bilibili.com/video/BV1xx411c7mD");
}

#[test]
fn festival_url_without_bvid_is_skipped() {
    assert!(skips("https://www.bilibili.com/festival/2021bnj?spm_id_from=x"));
    assert!(skips("https://www.bilibili.com/festival/2021bnj"));
}

#[test]
fn trailing_slash_tolerated() {
    let a = resolve("https://www.bilibili.com/video/BV1xx411c7mD");
    let b = resolve("https://www.bilibili.com/video/BV1xx411c7mD/");
    assert_eq!(a.video_id, b.video_id);
    assert_eq!(a.source_url, b.source_url);
    assert_eq!(a.token, b.token);
}

#[test]
fn direct_identifier_path_gets_video_marker() {
    let r = resolve("https://www.bilibili.com/BV1xx411c7mD");
    assert_eq!(r.source_url, "https://www.bilibili.com/video/BV1xx411c7mD");
    let bv = encode(170001).unwrap();
    let r = resolve("https://www.bilibili.com/av170001");
    assert_eq!(r.source_url, format!("https://www.bilibili.com/video/{bv}"));
}

#[test]
fn bangumi_listing_is_accepted() {
    let r = resolve("https://www.bilibili.com/bangumi/play/ep399420");
    assert_eq!(r.token, "ep399420");
    assert_eq!(r.video_id, "ep399420");
    assert_eq!(r.source_url, "https://www.bilibili.com/bangumi/play/ep399420");
}

#[test]
fn query_and_fragment_are_preserved() {
    let bv = encode(170001).unwrap();
    let r = resolve("https://www.bilibili.com/video/av170001?p=2#part3");
    assert_eq!(r.source_url, format!("https://www.bilibili.com/video/{bv}?p=2#part3"));
}

#[test]
fn malformed_identifiers_are_skipped() {
    assert!(skips("https://www.bilibili.com/video/xyz"));
    assert!(skips("https://www.bilibili.com/video/av12x34"));
    assert!(skips("https://www.bilibili.com/video/"));
    assert!(skips("https://www.bilibili.com/video"));
    assert!(skips("https://www.bilibili.com/"));
    assert!(skips("https://www.bilibili.com/read/cv1234"));
}

#[test]
fn non_urls_are_skipped() {
    assert!(skips("/home/user/movie.mkv"));
    assert!(skips("not a url"));
    assert!(skips("mailto:someone@example.com"));
    assert!(skips(""));
}

#[test]
fn oversized_legacy_identifier_is_fatal() {
    // 2^51 parses as a number but is outside the codec domain
    assert!(matches!(
        classify("https://www.bilibili.com/video/av4503599627370496"),
        Err(CodecError::OutOfRange)
    ));
    // too large even for a u64: a parse failure, so a skip
    assert!(skips("https://www.bilibili.com/video/av99999999999999999999999"));
}
