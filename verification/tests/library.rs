use ypb::auth::{delete_decision, DeleteDecision};
use ypb::config::{upload_allowed, AppState, Args};
use ypb::errors::AppError;
use ypb::ident::generate;
use ypb::resolve::{resolve_binary, resolve_text, Rendering};
use ypb::response::{
    choose_scheme, delete_confirmation, extract_hash, extract_secret, upload_response,
};
use ypb::route::parse_filehash;
use ypb::sweep::{is_expired, sweep_plan, SweepEntry, SWEEP_CHECK_PERIOD_SECS};
use ypb::text::{trim_spaces, u64_to_string};

// --- identifier generation ---

#[test]
fn test_hash_format() {
    let hash = generate("1232\n".as_bytes());
    assert_eq!(hash.len(), 4);
    assert_eq!(hash, "K8mw");
}

#[test]
fn test_generate_deterministic() {
    let content = b"Hello, this is a test!";
    assert_eq!(generate(content), generate(content));
}

#[test]
fn test_generate_empty() {
    let hash = generate(b"");
    assert_eq!(hash.len(), 4);
    assert_eq!(hash, generate(b""));
}

#[test]
fn test_generate_binary() {
    let binary_data: Vec<u8> = vec![
        0x89, 0x50, 0x4E, 0x47, 0x0D, 0x0A, 0x1A, 0x0A, 0x00, 0x00, 0x00, 0x0D, 0x49, 0x48, 0x44,
        0x52, 0x01, 0x02, 0x03, 0x04, 0x05, 0x06, 0x07, 0x08,
    ];
    let hash = generate(&binary_data);
    assert_eq!(hash.len(), 4);
    for c in hash.chars() {
        assert!(c.is_ascii_alphanumeric() || c == '-' || c == '_');
    }
}

#[test]
fn test_generate_distinguishes_content() {
    // Not guaranteed in general (identifiers may collide), but these two do
    // differ under the reference checksum, so a constant generator would fail.
    assert_ne!(generate(b"1232\n"), generate(b"Hello, this is a test!"));
}

// --- route parsing ---

#[test]
fn test_parse_plain_hash() {
    let (name, ext) = parse_filehash("abcd");
    assert_eq!(name, "abcd.txt");
    assert_eq!(ext, None);
}

#[test]
fn test_parse_hash_with_extension() {
    let (name, ext) = parse_filehash("abcd.rs");
    assert_eq!(name, "abcd.txt");
    assert_eq!(ext.as_deref(), Some("rs"));
}

#[test]
fn test_parse_hash_txt_extension() {
    let (name, ext) = parse_filehash("abcd.txt");
    assert_eq!(name, "abcd.txt");
    assert_eq!(ext.as_deref(), Some("txt"));
}

#[test]
fn test_parse_discards_directories() {
    let (name, ext) = parse_filehash("a/b/c.png");
    assert_eq!(name, "c.txt");
    assert_eq!(ext.as_deref(), Some("png"));
}

#[test]
fn test_parse_traversal_is_harmless() {
    let (name, ext) = parse_filehash("..");
    assert_eq!(name, ".txt");
    assert_eq!(ext, None);
    let (name, ext) = parse_filehash("../../etc/passwd");
    assert_eq!(name, "passwd.txt");
    assert_eq!(ext, None);
}

#[test]
fn test_parse_leading_dot_starts_no_extension() {
    let (name, ext) = parse_filehash(".gitignore");
    assert_eq!(name, ".gitignore.txt");
    assert_eq!(ext, None);
}

#[test]
fn test_parse_splits_at_last_dot() {
    let (name, ext) = parse_filehash("foo.tar.gz");
    assert_eq!(name, "foo.tar.txt");
    assert_eq!(ext.as_deref(), Some("gz"));
}

#[test]
fn test_parse_ignores_trailing_slashes() {
    let (name, ext) = parse_filehash("abcd/");
    assert_eq!(name, "abcd.txt");
    assert_eq!(ext, None);
}

#[test]
fn test_identifier_names_its_own_blob() {
    // The file name a fresh identifier maps to is the one the upload wrote.
    let hash = generate(b"1232\n");
    let (name, ext) = parse_filehash(&hash);
    assert_eq!(name, format!("{}.txt", hash));
    assert_eq!(ext, None);
}

#[test]
fn test_extension_does_not_change_blob() {
    let hash = generate(b"Hello, this is a test!");
    let (plain_name, _) = parse_filehash(&hash);
    let (txt_name, txt_ext) = parse_filehash(&format!("{}.txt", hash));
    let (rs_name, rs_ext) = parse_filehash(&format!("{}.rs", hash));
    assert_eq!(plain_name, txt_name);
    assert_eq!(plain_name, rs_name);
    assert_eq!(txt_ext.as_deref(), Some("txt"));
    assert_eq!(rs_ext.as_deref(), Some("rs"));
}

// --- text utilities ---

#[test]
fn test_u64_to_string() {
    assert_eq!(u64_to_string(0), "0");
    assert_eq!(u64_to_string(7), "7");
    assert_eq!(u64_to_string(12345), "12345");
    assert_eq!(u64_to_string(u64::MAX), "18446744073709551615");
}

#[test]
fn test_trim_spaces() {
    assert_eq!(trim_spaces("  a b\t"), "a b");
    assert_eq!(trim_spaces(""), "");
    assert_eq!(trim_spaces("   "), "");
}

// --- retrieval resolution ---

#[test]
fn test_url_redirect_decision() {
    let r = resolve_text("https://example.com", &None, "vs");
    match r {
        Rendering::Redirect { location } => assert_eq!(location, "https://example.com"),
        _ => panic!("expected a redirect"),
    }
}

#[test]
fn test_url_wins_over_highlighting() {
    let r = resolve_text("https://example.com", &Some("rs".to_string()), "vs");
    match r {
        Rendering::Redirect { location } => assert_eq!(location, "https://example.com"),
        _ => panic!("expected a redirect"),
    }
}

#[test]
fn test_url_with_space_is_plain() {
    let r = resolve_text("http server notes", &None, "vs");
    assert!(matches!(r, Rendering::Plain));
}

#[test]
fn test_plain_for_no_extension_and_txt() {
    let r1 = resolve_text("Hello, this is a test!", &None, "vs");
    let r2 = resolve_text("Hello, this is a test!", &Some("txt".to_string()), "vs");
    assert!(matches!(r1, Rendering::Plain));
    assert!(matches!(r2, Rendering::Plain));
}

#[test]
fn test_highlighted_document() {
    let content = "\n    fn main() {\n        println!(\"Hello, world!\");\n    }\n    ";
    let r = resolve_text(content, &Some("rs".to_string()), "vs");
    match r {
        Rendering::Highlighted { document } => {
            assert!(document.contains("<code class=\"rs\">"));
            assert!(document.contains(content.trim()));
            assert!(document.contains("styles/vs.css"));
        }
        _ => panic!("expected a highlighted document"),
    }
}

#[test]
fn test_binary_content_type() {
    assert_eq!(resolve_binary(&Some("png".to_string())), "image/png");
    assert_eq!(resolve_binary(&None), "application/octet-stream");
    assert_eq!(
        resolve_binary(&Some("zzzq".to_string())),
        "application/octet-stream"
    );
}

// --- upload response and its parsers ---

#[test]
fn test_upload_response_format() {
    let body = upload_response("http", "localhost:3000", "K8mw", 5, 1700000000);
    assert_eq!(
        body,
        "url: http://localhost:3000/K8mw\nshort: K8mw\nsize: 5 bytes\nsecret: 1700000000\n"
    );
}

#[test]
fn test_extract_hash_and_secret_round_trip() {
    let body = upload_response("https", "paste.example", "aB-_", 42, 1234567890);
    assert_eq!(extract_hash(&body).as_deref(), Some("aB-_"));
    assert_eq!(extract_secret(&body).as_deref(), Some("1234567890"));
}

#[test]
fn test_extract_from_foreign_text() {
    assert_eq!(extract_hash("no fields here"), None);
    assert_eq!(extract_secret("short: only-a-hash\n"), None);
    assert_eq!(extract_hash("short: abcd : tail\n").as_deref(), Some("abcd"));
}

#[test]
fn test_choose_scheme() {
    assert_eq!(choose_scheme(Some("https".to_string())), "https");
    assert_eq!(choose_scheme(None), "http");
}

#[test]
fn test_delete_confirmation() {
    assert_eq!(
        delete_confirmation("K8mw"),
        "File K8mw deleted successfully"
    );
}

// --- upload size limit ---

#[test]
fn test_file_size_limit() {
    let limit = 10 * 1024;
    assert!(upload_allowed(limit, limit));
    assert!(!upload_allowed(limit + 1, limit));
}

// --- deletion authorization ---

#[test]
fn test_delete_with_correct_secret() {
    let secret = u64_to_string(1700000000);
    let d = delete_decision(true, &secret, 1700000000);
    assert_eq!(d, DeleteDecision::Remove);
}

#[test]
fn test_delete_with_wrong_secret() {
    let d = delete_decision(true, &"wrong_secret".to_string(), 1700000000);
    assert_eq!(d, DeleteDecision::RejectForbidden);
}

#[test]
fn test_delete_missing_blob() {
    let secret = u64_to_string(1700000000);
    let d = delete_decision(false, &secret, 1700000000);
    assert_eq!(d, DeleteDecision::RejectNotFound);
}

// --- expiry sweep ---

#[test]
fn test_sweep_selects_only_expired() {
    let entries = vec![
        SweepEntry {
            name: "young.txt".to_string(),
            age_secs: 10,
        },
        SweepEntry {
            name: "exact.txt".to_string(),
            age_secs: 3600,
        },
        SweepEntry {
            name: "old.txt".to_string(),
            age_secs: 3601,
        },
        SweepEntry {
            name: "older.txt".to_string(),
            age_secs: 7200,
        },
    ];
    let doomed = sweep_plan(&entries, 3600);
    assert_eq!(doomed, vec!["old.txt".to_string(), "older.txt".to_string()]);
}

#[test]
fn test_sweep_spares_everything_young() {
    let entries = vec![SweepEntry {
        name: "young.txt".to_string(),
        age_secs: 59,
    }];
    let doomed = sweep_plan(&entries, 3600);
    assert!(doomed.is_empty());
}

#[test]
fn test_is_expired_boundary() {
    assert!(is_expired(3601, 3600));
    assert!(!is_expired(3600, 3600));
    assert!(!is_expired(0, 3600));
}

#[test]
fn test_sweep_check_period() {
    assert_eq!(SWEEP_CHECK_PERIOD_SECS, 60);
}

// --- errors ---

#[test]
fn test_error_statuses() {
    assert_eq!(AppError::NotFound.status_code(), 404);
    assert_eq!(AppError::Forbidden.status_code(), 403);
    assert_eq!(AppError::IoError("boom".to_string()).status_code(), 500);
    assert_eq!(
        AppError::SystemTimeError("skew".to_string()).status_code(),
        500
    );
}

#[test]
fn test_error_messages() {
    assert_eq!(AppError::NotFound.message(), "File not found");
    assert_eq!(AppError::Forbidden.message(), "Permission denied");
    assert_eq!(AppError::IoError("boom".to_string()).message(), "boom");
    assert_eq!(
        AppError::SystemTimeError("skew".to_string()).message(),
        "skew"
    );
}

// --- configuration ---

#[test]
fn test_default_args() {
    let args = Args::default();
    assert_eq!(args.port, 3000);
    assert_eq!(args.file_path, "./files");
    assert_eq!(args.clean_period, 3600);
    assert_eq!(args.limit_size, 10 * 1024 * 1024);
    assert_eq!(args.syntax_theme, "vs");
    let state = AppState { args };
    assert_eq!(state.args.port, 3000);
}
