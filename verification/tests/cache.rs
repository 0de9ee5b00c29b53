use wasi_runner::cache::{cache_dir, cache_path, cached_wasm_path, git_blob_hash};
use wasi_runner::compiler::ensure_compiled;

#[test]
fn blob_hash_known_values() {
    assert_eq!(git_blob_hash(b""), "e69de29bb2d1d6434b8b29ae775ad8c2e48c5391");
    assert_eq!(git_blob_hash(b"hello\n"), "ce013625030ba8dba906f756967f9e9ca394464a");
    let h = git_blob_hash(&[7u8; 1234]);
    assert_eq!(h.len(), 40);
    assert!(h.chars().all(|c| c.is_ascii_digit() || ('a'..='f').contains(&c)));
}

#[test]
fn cache_locations() {
    assert_eq!(cache_dir("/proj"), "/proj/.opencode/cache/wasi");
    assert_eq!(cache_dir("/proj/"), "/proj/.opencode/cache/wasi");
    assert_eq!(cache_dir(""), ".opencode/cache/wasi");
    assert_eq!(cache_path("/proj", "abc"), "/proj/.opencode/cache/wasi/abc.wasm");
    assert_eq!(cache_path("/proj", "/abs"), "/abs.wasm");
}

#[test]
fn cached_path_follows_content() {
    let p = cached_wasm_path("/r", b"hello\n");
    assert_eq!(p, "/r/.opencode/cache/wasi/ce013625030ba8dba906f756967f9e9ca394464a.wasm");
    assert_ne!(cached_wasm_path("/r", b"hello\n"), cached_wasm_path("/r", b"hello!\n"));
}

#[test]
fn ensure_compiled_plan() {
    let hit = ensure_compiled("/r", b"hello\n", true);
    let miss = ensure_compiled("/r", b"hello\n", false);
    assert_eq!(hit.wasm_path, miss.wasm_path);
    assert!(!hit.compile);
    assert!(miss.compile);
    assert_eq!(hit.wasm_path, cached_wasm_path("/r", b"hello\n"));
}
