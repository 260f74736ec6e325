use liter_llm::cache::{cache_entry_expiry, cache_key_path, check_cached_entry, u64_to_decimal, CacheLookup};
use liter_llm::format::{formatter_commands, formatter_for_language, formatter_probe, language_dir, FormatterKind};

#[test]
fn decimal_rendering() {
    assert_eq!(u64_to_decimal(0), "0");
    assert_eq!(u64_to_decimal(7), "7");
    assert_eq!(u64_to_decimal(10), "10");
    assert_eq!(u64_to_decimal(1234567890), "1234567890");
    assert_eq!(u64_to_decimal(u64::MAX), u64::MAX.to_string());
}

#[test]
fn key_paths() {
    assert_eq!(cache_key_path("llm-cache/", 42), "llm-cache/42");
    assert_eq!(cache_key_path("", 0), "0");
}

#[test]
fn expiry_and_lookups() {
    let exp = cache_entry_expiry(1000, 300);
    assert_eq!(exp, 1300);
    assert!(check_cached_entry(1300, exp, "body", "body") == CacheLookup::Hit);
    assert!(check_cached_entry(1301, exp, "body", "body") == CacheLookup::Expired);
    assert!(check_cached_entry(1200, exp, "body", "other") == CacheLookup::Mismatch);
    assert!(check_cached_entry(1301, exp, "body", "other") == CacheLookup::Expired);
}

#[test]
fn languages_and_formatters() {
    assert!(formatter_for_language("rust") == Some(FormatterKind::Rust));
    assert!(formatter_for_language("wasm") == Some(FormatterKind::TypeScript));
    assert!(formatter_for_language("typescript") == Some(FormatterKind::TypeScript));
    assert!(formatter_for_language("c") == Some(FormatterKind::C));
    assert!(formatter_for_language("kotlin").is_none());
}

#[test]
fn formatter_paths() {
    assert_eq!(language_dir("out", "python"), "out/python");
    assert_eq!(formatter_probe(&FormatterKind::Rust, "out/rust").as_deref(), Some("out/rust/Cargo.toml"));
    assert_eq!(formatter_probe(&FormatterKind::Python, "out/python").as_deref(), Some("out/python/tests"));
    assert!(formatter_probe(&FormatterKind::Go, "out/go").is_none());
}

#[test]
fn formatter_plans() {
    let rust = formatter_commands(&FormatterKind::Rust, "out/rust", true);
    assert_eq!(rust.len(), 1);
    assert_eq!(rust[0].program, "cargo");
    assert_eq!(rust[0].args, vec!["fmt", "--manifest-path", "out/rust/Cargo.toml"]);
    assert!(formatter_commands(&FormatterKind::Rust, "out/rust", false).is_empty());

    let py = formatter_commands(&FormatterKind::Python, "out/python", false);
    assert_eq!(py.len(), 2);
    assert_eq!(py[0].args, vec!["check", "--fix", "--quiet", "out/python"]);
    let py_tests = formatter_commands(&FormatterKind::Python, "out/python", true);
    assert_eq!(py_tests[1].args, vec!["format", "--quiet", "out/python/tests"]);

    let java = formatter_commands(&FormatterKind::Java, "out/java", true);
    assert_eq!(java[0].current_dir.as_deref(), Some("out/java"));
    assert_eq!(java[0].label, "mvn spotless:apply");

    let c = formatter_commands(&FormatterKind::C, "out/c", false);
    assert_eq!(c[0].args, vec!["-i", "--style=file", "out/c/test_liter_llm.c"]);
}

#[test]
fn distinct_keys_have_distinct_paths() {
    let paths: Vec<String> = [0u64, 1, 10, 100, 101, 11].iter().map(|k| cache_key_path("p/", *k)).collect();
    for i in 0..paths.len() {
        for j in 0..paths.len() {
            if i != j {
                assert_ne!(paths[i], paths[j]);
            }
        }
    }
}
