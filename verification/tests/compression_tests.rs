use tonic_core::compression::{
    accept_list, CompressionEncoding, EnabledCompressionEncodings,
};
use tonic_core::status::Code;

fn none() -> EnabledCompressionEncodings {
    EnabledCompressionEncodings { gzip: false, zstd: false }
}

fn gzip_only() -> EnabledCompressionEncodings {
    EnabledCompressionEncodings { gzip: true, zstd: false }
}

fn both() -> EnabledCompressionEncodings {
    EnabledCompressionEncodings { gzip: true, zstd: true }
}

#[test]
fn absent_encoding_header_is_identity() {
    let r = CompressionEncoding::from_encoding_header(None, none()).unwrap();
    assert_eq!(r, None);
}

#[test]
fn identity_encoding_header_is_identity() {
    let r = CompressionEncoding::from_encoding_header(Some("identity"), none()).unwrap();
    assert_eq!(r, None);
}

#[test]
fn accepted_encoding_header_is_taken() {
    let r = CompressionEncoding::from_encoding_header(Some("gzip"), gzip_only()).unwrap();
    assert_eq!(r, Some(CompressionEncoding::Gzip));
}

#[test]
fn unaccepted_encoding_header_is_unimplemented() {
    let st = CompressionEncoding::from_encoding_header(Some("gzip"), none()).unwrap_err();
    assert_eq!(st.code, Code::Unimplemented);
    assert!(st.message.contains("accept-encoding: identity"));
}

#[test]
fn unknown_encoding_header_is_unimplemented() {
    let st = CompressionEncoding::from_encoding_header(Some("snappy"), both()).unwrap_err();
    assert_eq!(st.code, Code::Unimplemented);
    assert!(st.message.contains("accept-encoding: gzip,zstd,identity"));
}

#[test]
fn accept_encoding_picks_first_enabled() {
    let r = CompressionEncoding::from_accept_encoding_header(Some("zstd, gzip"), both());
    assert_eq!(r, Some(CompressionEncoding::Zstd));
    let r = CompressionEncoding::from_accept_encoding_header(Some("zstd, gzip"), gzip_only());
    assert_eq!(r, Some(CompressionEncoding::Gzip));
}

#[test]
fn accept_encoding_trims_token_spaces() {
    let r = CompressionEncoding::from_accept_encoding_header(Some("  gzip  "), gzip_only());
    assert_eq!(r, Some(CompressionEncoding::Gzip));
}

#[test]
fn accept_encoding_skips_unknown_tokens() {
    let r = CompressionEncoding::from_accept_encoding_header(Some("snappy, gzip"), both());
    assert_eq!(r, Some(CompressionEncoding::Gzip));
}

#[test]
fn accept_encoding_none_when_nothing_matches() {
    assert_eq!(CompressionEncoding::from_accept_encoding_header(Some("gzip"), none()), None);
    assert_eq!(CompressionEncoding::from_accept_encoding_header(None, both()), None);
    assert_eq!(CompressionEncoding::from_accept_encoding_header(Some(""), both()), None);
}

#[test]
fn accept_list_renders_enabled_set() {
    assert_eq!(accept_list(none()), "identity");
    assert_eq!(accept_list(gzip_only()), "gzip,identity");
    assert_eq!(accept_list(both()), "gzip,zstd,identity");
}

#[test]
fn enable_keeps_other_members() {
    let mut set = EnabledCompressionEncodings::default();
    assert!(!set.is_enabled(CompressionEncoding::Gzip));
    set.enable(CompressionEncoding::Gzip);
    assert!(set.is_enabled(CompressionEncoding::Gzip));
    assert!(!set.is_enabled(CompressionEncoding::Zstd));
    set.enable(CompressionEncoding::Zstd);
    assert!(set.is_enabled(CompressionEncoding::Gzip));
    assert!(set.is_enabled(CompressionEncoding::Zstd));
}

#[test]
fn encoding_names() {
    assert_eq!(CompressionEncoding::Gzip.name(), "gzip");
    assert_eq!(CompressionEncoding::Zstd.name(), "zstd");
}
