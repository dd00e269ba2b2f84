use assistant_core::ai_types::extract_model_id;
use assistant_core::catalog::{find_catalog_entry, get_model_catalog, LocalModelCategory};
use assistant_core::ids::{hex_string, make_session_id, uuid_simple};
use assistant_core::text::str_eq;

#[test]
fn extract_model_id_strips_the_provider_prefix() {
    assert_eq!(extract_model_id("openai::gpt-4"), "gpt-4");
    assert_eq!(extract_model_id("gpt-4"), "gpt-4");
    assert_eq!(extract_model_id("a::b::c"), "b::c");
    assert_eq!(extract_model_id(""), "");
    assert_eq!(extract_model_id("::x"), "x");
    assert_eq!(extract_model_id("x::"), "");
    assert_eq!(extract_model_id(":single:colons:"), ":single:colons:");
}

#[test]
fn hex_formatting_matches_the_standard_one() {
    assert_eq!(hex_string(0), "0");
    assert_eq!(hex_string(255), "ff");
    assert_eq!(hex_string(48879), "beef");
    assert_eq!(hex_string(1_700_000_000_123_456_789), format!("{:x}", 1_700_000_000_123_456_789u128));
}

#[test]
fn session_identifiers_carry_the_prefix() {
    let id = make_session_id();
    assert!(id.starts_with("rec-"));
    assert!(id.len() > 4);
    let tag = uuid_simple();
    assert!(!tag.is_empty());
    assert!(tag.chars().all(|c| c.is_ascii_hexdigit() && !c.is_ascii_uppercase()));
}

#[test]
fn catalog_lists_five_speech_models() {
    let catalog = get_model_catalog();
    assert_eq!(catalog.len(), 5);
    let ids: Vec<&str> = catalog.iter().map(|e| e.id.as_str()).collect();
    assert_eq!(
        ids,
        vec![
            "whisper-tiny",
            "whisper-base",
            "whisper-small",
            "whisper-medium",
            "whisper-large-v3-turbo"
        ]
    );
    assert!(catalog.iter().all(|e| e.category == LocalModelCategory::SpeechToText));
    assert!(catalog.iter().all(|e| e.download_url.starts_with("https://")));
}

#[test]
fn catalog_lookup_by_identifier() {
    let e = find_catalog_entry("whisper-base").unwrap();
    assert_eq!(e.name, "Whisper Base");
    assert_eq!(e.size_mb, 142);
    assert_eq!(e.filename, "ggml-base.bin");
    assert!(find_catalog_entry("whisper-xxl").is_none());
    assert!(find_catalog_entry("").is_none());
}

#[test]
fn string_equality_compares_content() {
    assert!(str_eq("", ""));
    assert!(str_eq("abc", "abc"));
    assert!(!str_eq("abc", "abd"));
    assert!(!str_eq("abc", "ab"));
    assert!(str_eq("naïve", "naïve"));
    assert!(!str_eq("naïve", "naive"));
}
