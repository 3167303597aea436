use autopiercam::artifact::{
    capture_filename_at, capture_filename_with_extension, idempotency_key,
    is_generated_frame_filename, parse_generated_capture_filename, parse_generated_frame_filename,
    CaptureSessionNonce, IDEMPOTENCY_PREFIX,
};
use autopiercam::digest::sha256;
use autopiercam::hex::parse_hex;
use autopiercam::message::bounded_error_message;
use autopiercam::order::{check_path_le, sort_paths};
use autopiercam::path::{check_absolute, check_child, check_parent, same_path};
use autopiercam::text::{parse_digits, push_decimal_u128, push_padded};

const NONCE: CaptureSessionNonce = CaptureSessionNonce([
    0x00, 0x11, 0x22, 0x33, 0x44, 0x55, 0x66, 0x77, 0x88, 0x99, 0xaa, 0xbb, 0xcc, 0xdd, 0xee, 0xff,
]);

#[test]
fn capture_filename_formats_time_session_nonce_and_sequence_exactly() {
    assert_eq!(
        capture_filename_at(1_700_000_000, 123_000_000, NONCE, 42),
        "frame-1700000000-123-00112233445566778899aabbccddeeff-000042.jpg"
    );
    assert_ne!(
        capture_filename_at(1_700_000_000, 123_000_000, NONCE, 42),
        capture_filename_at(
            1_700_000_000,
            123_000_000,
            CaptureSessionNonce([0xff; 16]),
            42
        )
    );
}

#[test]
fn other_artifacts_carry_their_own_extension() {
    assert_eq!(
        capture_filename_with_extension(1, 999_999_999, NONCE, 1_234_567, "mp4"),
        "frame-1-999-00112233445566778899aabbccddeeff-1234567.mp4"
    );
}

#[test]
fn session_nonces_are_drawn_at_random() {
    let first = CaptureSessionNonce::random().unwrap();
    let second = CaptureSessionNonce::random().unwrap();
    assert_ne!(first, second);
    assert_eq!(first.hex().len(), 32);
    assert_eq!(NONCE.hex(), "00112233445566778899aabbccddeeff");
}

#[test]
fn generated_names_read_back_their_time() {
    let name = capture_filename_at(1_700_000_000, 123_000_000, NONCE, 42);
    assert_eq!(
        parse_generated_capture_filename(&name),
        Some(1_700_000_000_123)
    );
    assert_eq!(parse_generated_frame_filename(&name), None);
    assert_eq!(
        parse_generated_frame_filename("frame-1700000000-123-000042.jpg"),
        Some(1_700_000_000_123)
    );
    assert_eq!(
        parse_generated_capture_filename("frame-1700000000-123-000042.jpeg"),
        Some(1_700_000_000_123)
    );
}

#[test]
fn only_the_exact_grammar_is_generated() {
    for invalid in [
        "frame-loose.jpg",
        "frame-9999999999-01-000002.jpg",
        "frame-9999999999-001-00002.jpg",
        "frame-9999999999-001-000003.JPG",
        "other-9999999999-001-000004.jpg",
        "frame-9999999999-001-000005.png",
        "frame-09-001-000005.jpg",
        "frame-9-001-0000005.jpg",
        "frame-99999999999999999999-001-000005.jpg",
        "",
    ] {
        assert!(!is_generated_frame_filename(invalid), "{invalid}");
    }
    assert!(is_generated_frame_filename("frame-0-000-000000.jpg"));
    assert!(is_generated_frame_filename("frame-9-999-1000000.jpeg"));
}

#[test]
fn upload_keys_join_digest_and_name() {
    let key = idempotency_key("frame-1-000-000001.jpg", &sha256(b"abc"));
    assert_eq!(
        key,
        "autopiercam-sha256-ba7816bf8f01cfea414140de5dae2223b00361a396177a9cb410ff61f20015ad-frame-1-000-000001.jpg"
    );
    assert!(key.starts_with(IDEMPOTENCY_PREFIX));
}

#[test]
fn long_messages_are_cut_at_a_character() {
    assert_eq!(bounded_error_message("short".to_owned()), "short");
    let cut = bounded_error_message("é".repeat(1_000));
    assert!(cut.len() <= 1_024 + '…'.len_utf8());
    assert!(cut.ends_with('…'));
    assert!(cut.starts_with("éé"));
}

fn sorted(paths: &[&str]) -> Vec<String> {
    sort_paths(paths.iter().map(|path| (*path).to_owned()).collect())
}

#[test]
fn paths_sort_by_their_components() {
    assert_eq!(sorted(&["b", "é", "a"]), vec!["a", "b", "é"]);
    assert_eq!(
        sorted(&["/c/a-b/x.jpg", "/c/a/y.jpg", "/c/a"]),
        vec!["/c/a", "/c/a/y.jpg", "/c/a-b/x.jpg"]
    );
    assert_eq!(sorted(&["a", "/a"]), vec!["/a", "a"]);
    assert!(check_path_le("a/b", "a-b"));
    assert!(!check_path_le("a-b", "a/b"));
}

#[test]
fn children_stand_directly_in_their_directory() {
    assert!(check_child("/captures/a.jpg", "/captures", "a.jpg"));
    assert!(check_child("/captures/a.jpg", "/captures/", "a.jpg"));
    assert!(!check_child("/captures/nested/a.jpg", "/captures", "a.jpg"));
    assert!(!check_child("/captures/a.jpg", "/captures", "b.jpg"));
    assert!(!check_child("captures/a.jpg", "/captures", "a.jpg"));
    assert!(check_child(r"C:\captures\a.jpg", r"C:\captures", "a.jpg"));
    assert!(check_child(r"c:\captures/a.jpg", r"C:\captures", "a.jpg"));
    assert!(!check_child(r"D:\captures\a.jpg", r"C:\captures", "a.jpg"));
}

#[test]
fn backslashes_separate_only_where_a_path_is_a_windows_path() {
    assert!(!check_child(r"/captures\a.jpg", "/captures", "a.jpg"));
    assert!(check_child(r"/captures/b\a.jpg", "/captures", r"b\a.jpg"));
    assert!(!same_path(r"/captures\a", "/captures/a"));
    assert!(same_path("/captures//a/", "/captures/./a"));
    assert!(!same_path("/captures/A", "/captures/a"));
    assert!(same_path(r"C:\captures\a", r"c:/captures/a/"));
    assert!(!same_path(r"C:\captures\A", r"C:\captures\a"));
    assert!(!same_path(r"\\?\C:\captures\a", r"C:\captures\a"));
    assert!(!same_path(r"\\?\C:\captures/a", r"\\?\C:\captures\a"));
    assert_eq!(
        sorted(&[r"/c/a\z", "/c/a/z", "/c/a"]),
        vec!["/c/a", "/c/a/z", r"/c/a\z"]
    );
}

#[test]
fn parents_are_one_component_above() {
    assert!(check_parent("/captures", "/captures/a.jpg"));
    assert!(check_parent("/", "/captures"));
    assert!(!check_parent("/captures", "/captures/nested/a.jpg"));
    assert!(!check_parent("/captures", "/captures"));
    assert!(!check_parent("/", "/"));
    assert!(check_parent(r"\\?\C:\captures", r"\\?\C:\captures\a.jpg"));
    assert!(!check_parent(r"\\?\C:\captures", r"\\?\C:\captures"));
}

#[test]
fn absolute_paths_have_a_root() {
    for path in ["/", "/a", r"C:\a", "c:/a", r"\\server\share\a", r"\\?\C:\a"] {
        assert!(check_absolute(path), "{path}");
    }
    for path in ["", "a", "a/b", "./a", "C:a", r"\a"] {
        assert!(!check_absolute(path), "{path}");
    }
}

#[test]
fn numbers_and_hexadecimal_text_read_back() {
    let mut text = String::new();
    push_decimal_u128(&mut text, u128::MAX);
    assert_eq!(text, u128::MAX.to_string());
    let mut padded = String::new();
    push_padded(&mut padded, 7, 3);
    assert_eq!(padded, "007");
    assert_eq!(parse_digits(&['1', '8']), Some(18));
    assert_eq!(parse_hex(&['0', 'f', 'a', '0']), Some(vec![0x0f, 0xa0]));
    assert_eq!(parse_hex(&['0']), None);
    assert_eq!(parse_hex(&['0', 'G']), None);
}
