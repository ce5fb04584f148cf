use base64::Engine;
use bishop::codec::decode_payload;
use bishop::paste::{
    clean_file_name, decode_and_check, remote_paste_command, sanitize_filename, stamped_filename,
    MAX_BYTES,
};

fn b64(bytes: &[u8]) -> String {
    base64::engine::general_purpose::STANDARD.encode(bytes)
}

#[test]
fn sanitize_strips_path_and_specials() {
    let s = sanitize_filename("../../../../etc/passwd; rm -rf");
    assert!(!s.contains('/'));
    assert!(!s.contains(';'));
    assert!(!s.contains(".."));
    // Last component preserved after path stripping + special→_ mapping.
    assert!(s.contains("passwd"));
}

#[test]
fn sanitize_preserves_safe_filename() {
    let s = sanitize_filename("screenshot 1.png");
    assert!(s.ends_with("screenshot_1.png"));
}

#[test]
fn sanitize_trims_leading_dots() {
    let s = sanitize_filename(".hidden.txt");
    assert!(!s.contains("-.hidden"));
    assert!(s.contains("hidden.txt"));
}

#[test]
fn sanitized_names_are_never_hidden() {
    for raw in ["_.hidden", "._.x", "...", ".", "__..__.a", "x/._y"] {
        let s = sanitize_filename(raw);
        assert!(!s.split_once('-').unwrap().1.starts_with('.'), "{} -> {}", raw, s);
    }
}

#[test]
fn sanitize_caps_length() {
    let long = "a".repeat(500);
    let s = sanitize_filename(&long);
    let (_ts, name) = s.split_once('-').unwrap();
    assert_eq!(name.len(), 96);
}

#[test]
fn size_cap_rejects_oversize() {
    let oversize = b64(&vec![0u8; MAX_BYTES + 1]);
    assert!(decode_and_check(&oversize).is_err());
}

#[test]
fn size_cap_allows_max() {
    let at_limit = b64(&vec![0u8; MAX_BYTES]);
    assert!(decode_and_check(&at_limit).is_ok());
}

fn float_message(len: usize) -> String {
    format!(
        "file is {:.1} MB \u{2014} limit is 200 MB. Transfer it directly with scp instead.",
        len as f64 / 1_048_576.0
    )
}

#[test]
fn oversize_message_rounds_to_one_decimal() {
    let len = MAX_BYTES + 52429;
    let err = decode_and_check(&b64(&vec![7u8; len])).unwrap_err();
    assert_eq!(err, float_message(len));
    assert_eq!(err, "file is 200.1 MB \u{2014} limit is 200 MB. Transfer it directly with scp instead.");
}

#[test]
fn oversize_message_rounds_ties_to_even() {
    // exactly 200.25 MB
    let len = 209977344;
    let err = decode_and_check(&b64(&vec![7u8; len])).unwrap_err();
    assert_eq!(err, float_message(len));
}

#[test]
fn decode_returns_the_bytes() {
    assert_eq!(decode_and_check(&b64(b"hello")).unwrap(), b"hello".to_vec());
    assert_eq!(decode_and_check("").unwrap(), Vec::<u8>::new());
}

#[test]
fn bad_base64_is_refused() {
    let err = decode_payload("not base64!").unwrap_err();
    assert!(err.starts_with("bad base64: "));
    let err = decode_and_check("@@@@").unwrap_err();
    assert!(err.starts_with("bad base64: "));
}

#[test]
fn clean_names() {
    assert_eq!(clean_file_name("screenshot 1.png"), "screenshot_1.png");
    assert_eq!(clean_file_name("../../../../etc/passwd; rm -rf"), "passwd__rm_-rf");
    assert_eq!(clean_file_name(".hidden.txt"), "hidden.txt");
    assert_eq!(clean_file_name("..._x"), "x");
    assert_eq!(clean_file_name("..."), "pasted");
    assert_eq!(clean_file_name(""), "pasted");
    assert_eq!(clean_file_name("dir/"), "dir");
    assert_eq!(clean_file_name("/"), "pasted");
    assert_eq!(clean_file_name("héllo.txt"), "h_llo.txt");
    // the whole leading run of dots and underscores goes: never a hidden file
    assert_eq!(clean_file_name("._.x"), "x");
    assert_eq!(clean_file_name(".. .x"), "x");
    assert_eq!(clean_file_name("_.hidden"), "hidden");
    assert_eq!(clean_file_name("a_.b"), "a_.b");
}

#[test]
fn stamped_names() {
    assert_eq!(stamped_filename(1700000000, "a b.txt"), "1700000000-a_b.txt");
    assert_eq!(stamped_filename(0, ".."), "0-pasted");
}

#[test]
fn remote_upload_command() {
    let (path, cmd) = remote_paste_command("1-x.png");
    assert_eq!(path, "/tmp/bishop-pasted/1-x.png");
    assert_eq!(cmd, "mkdir -p '/tmp/bishop-pasted' && cat > '/tmp/bishop-pasted/1-x.png'");
}
