use lexwisp::package_hash::package_hash;
use sha2::{Digest, Sha256};

fn expected(parts: &[(&str, &[u8])]) -> String {
    let mut hasher = Sha256::new();
    for (path, content) in parts {
        hasher.update(path.as_bytes());
        hasher.update([0]);
        hasher.update(content);
        hasher.update([0xff]);
    }
    hex::encode(hasher.finalize())
}

#[test]
fn package_files_hash_in_path_order_with_forward_slashes() {
    let files = vec![
        ("prompts\\b.md".to_string(), b"B".to_vec()),
        ("manifest.toml".to_string(), b"M".to_vec()),
        ("A.md".to_string(), b"A".to_vec()),
    ];
    let hash = package_hash(files);
    assert_eq!(
        hash,
        expected(&[("A.md", b"A"), ("manifest.toml", b"M"), ("prompts/b.md", b"B")])
    );
    assert_eq!(hash.len(), 64);
}

#[test]
fn the_hash_does_not_depend_on_reading_order() {
    let a = package_hash(vec![
        ("x.js".to_string(), vec![1, 2, 3]),
        ("manifest.toml".to_string(), b"[plugin]".to_vec()),
    ]);
    let b = package_hash(vec![
        ("manifest.toml".to_string(), b"[plugin]".to_vec()),
        ("x.js".to_string(), vec![1, 2, 3]),
    ]);
    assert_eq!(a, b);
    let changed = package_hash(vec![
        ("manifest.toml".to_string(), b"[plugin]".to_vec()),
        ("x.js".to_string(), vec![1, 2, 4]),
    ]);
    assert_ne!(a, changed);
}

#[test]
fn an_empty_package_hashes_the_empty_input() {
    assert_eq!(package_hash(Vec::new()), hex::encode(Sha256::digest(b"")));
}
