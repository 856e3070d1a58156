use procmon::lineconv::{convert_crlf_to_lf, has_crlf};

#[test]
fn test_empty() {
    assert_eq!(convert_crlf_to_lf(b""), b"".to_vec());
}

#[test]
fn test_only_lf() {
    assert_eq!(convert_crlf_to_lf(b"a\nb\n"), b"a\nb\n".to_vec());
}

#[test]
fn test_only_crlf() {
    assert_eq!(convert_crlf_to_lf(b"a\r\nb\r\n"), b"a\nb\n".to_vec());
}

#[test]
fn test_mixed() {
    assert_eq!(convert_crlf_to_lf(b"a\n\r\nb\r\n"), b"a\n\nb\n".to_vec());
}

#[test]
fn test_trailing_crlf() {
    assert_eq!(convert_crlf_to_lf(b"a\r\n"), b"a\n".to_vec());
}

#[test]
fn lone_and_final_cr_are_kept() {
    assert_eq!(convert_crlf_to_lf(b"a\rb\r"), b"a\rb\r".to_vec());
    assert_eq!(convert_crlf_to_lf(b"\r\r\n"), b"\r\n".to_vec());
}

#[test]
fn has_crlf_reports_pairs_only() {
    assert!(has_crlf(b"x\r\ny"));
    assert!(!has_crlf(b"x\ny\r"));
    assert!(!has_crlf(b""));
    assert!(!has_crlf(b"\n\r"));
}
