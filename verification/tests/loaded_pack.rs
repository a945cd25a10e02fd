use gdpatch::engine_build::{EngineBuild, GDScriptBuild, VersionSpecifier};
use gdpatch::gdscript::TokenType;
use gdpatch::loaded_pack::{format_pack_path, get_file, LoadedPack};
use gdpatch::pack::{Pack, PackBuilder, PackConfig, PackFormat, PackedFile};
use gdpatch::uid_cache::{UIDCache, UID};

fn gdscript() -> GDScriptBuild {
    GDScriptBuild {
        tokenizer_version: Some(101),
        tokens: vec![TokenType::Empty],
        allow_mixed_indentation_when_multiline: true,
        has_improved_invalid_character_error: true,
        has_literal_sign_handling: true,
        has_new_number_underscore_parsing: true,
        has_raw_strings: true,
        has_when: true,
        need_digits_in_hex_and_binary: true,
        has_fixed_continuation_lines: true,
        has_uppercase_number_types: true,
        has_variadic_functions: true,
        expands_tabs_in_span_column: true,
        allow_zwsp_as_whitespace: false,
        allow_mixed_indentation_on_blank_lines: true,
        has_extra_word_in_binary_script_header: false,
        has_fixed_multiline_handling_in_super_calls: true,
        has_early_bail_in_super_calls: true,
        allow_multiline_array_dictionary_patterns: true,
        allow_preload_trailing_comma: true,
        has_static_variables: true,
        has_is_not: true,
        allow_empty_parentheses_in_getter_declaration: true,
        has_match_error_recovery: true,
        has_dictionary_error_recovery: true,
        has_typed_for_loops: true,
        allow_keywords_as_attributes: true,
        has_72979_annotation_parsing: true,
        has_77744_suite_changes: true,
    }
}

fn engine(prefixless: bool) -> EngineBuild {
    EngineBuild::new(VersionSpecifier::new(4, 3, 0, 0, "stable".to_string()), None, gdscript(), prefixless)
}

/// A version 3 pack file holding `res://a.txt` ("abc") and `res://b.txt` ("hello").
fn pack_file(prefix: &str) -> Vec<u8> {
    let mut b = PackBuilder::new(PackFormat::V3, (4, 3, 0));
    b.files.insert(
        format!("{}a.txt", prefix),
        PackedFile { encrypted: false, offset: 0, size: 3, hash: [0; 16] },
    );
    b.files.insert(
        format!("{}b.txt", prefix),
        PackedFile { encrypted: false, offset: 3, size: 5, hash: [0; 16] },
    );
    let mut bytes = b.encode(&PackConfig::default(), 0);
    bytes.extend_from_slice(b"abchello");
    bytes
}

#[test]
fn pack_paths() {
    assert_eq!(format_pack_path("icon.svg", &engine(false)), "res://icon.svg");
    assert_eq!(format_pack_path("icon.svg", &engine(true)), "icon.svg");
}

#[test]
fn reads_files_out_of_the_pack() {
    let bytes = pack_file("res://");
    let pack = Pack::parse(&bytes, &PackConfig::default(), 0).unwrap();
    assert_eq!(get_file(&pack, &bytes, &engine(false), "b.txt"), Some(b"hello".to_vec()));
    assert_eq!(get_file(&pack, &bytes, &engine(false), "a.txt"), Some(b"abc".to_vec()));
    assert_eq!(get_file(&pack, &bytes, &engine(false), "c.txt"), None);
    // the build decides whether the prefix is part of the key
    assert_eq!(get_file(&pack, &bytes, &engine(true), "a.txt"), None);
    // a file whose range runs past the data is not returned
    assert_eq!(get_file(&pack, &bytes[..bytes.len() - 1], &engine(false), "b.txt"), None);
}

#[test]
fn prefixless_pack() {
    let bytes = pack_file("");
    let pack = Pack::parse(&bytes, &PackConfig::default(), 0).unwrap();
    let loaded = LoadedPack::new(pack, engine(true), UIDCache::default());
    assert!(loaded.file_exists("a.txt"));
    assert!(!loaded.file_exists("res://a.txt"));
    assert_eq!(loaded.get_file(&bytes, "a.txt"), Some(b"abc".to_vec()));
    assert_eq!(loaded.get_file_info("b.txt").unwrap().size, 5);
}

#[test]
fn loaded_pack_lookups() {
    let bytes = pack_file("res://");
    let pack = Pack::parse(&bytes, &PackConfig::default(), 0).unwrap();
    let uids = UIDCache(vec![
        (UID(7), "res://a.txt".to_string()),
        (UID(8), "res://b.txt".to_string()),
        (UID(9), "res://a.txt".to_string()),
    ]);
    let loaded = LoadedPack::new(pack, engine(false), uids);
    assert!(loaded.file_exists("b.txt"));
    assert!(!loaded.file_exists("z.txt"));
    let info = loaded.get_file_info("a.txt").unwrap();
    assert_eq!(info.size, 3);
    assert!(loaded.get_file_info("z.txt").is_none());
    assert_eq!(loaded.get_file(&bytes, "b.txt"), Some(b"hello".to_vec()));
    assert_eq!(loaded.get_uid("a.txt"), Some(7));
    assert_eq!(loaded.get_uid("b.txt"), Some(8));
    assert_eq!(loaded.get_uid("c.txt"), None);
}
