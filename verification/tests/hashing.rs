use poe_bundle::util::filepath_hash;
use poe_bundle::util::hash_fnv1a;

#[test]
fn fnv1a_of_empty_is_offset_basis() {
    assert_eq!(hash_fnv1a(b""), 14695981039346656037u64);
}

#[test]
fn fnv1a_known_vector() {
    assert_eq!(hash_fnv1a(b"a"), 0xaf63dc4c8601ec8cu64);
}

#[test]
fn filepath_hash_is_case_insensitive() {
    assert_eq!(
        filepath_hash("Data/Mods.dat".to_string()),
        filepath_hash("data/mods.dat".to_string())
    );
    assert_eq!(filepath_hash("ABC".to_string()), filepath_hash("abc".to_string()));
}

#[test]
fn filepath_hash_is_deterministic() {
    let a = filepath_hash("Data/Mods.dat".to_string());
    let b = filepath_hash("Data/Mods.dat".to_string());
    let c = filepath_hash("Data/Mods.dat".to_string());
    assert_eq!(a, b);
    assert_eq!(b, c);
}

#[test]
fn filepath_hash_exact_value() {
    // FNV-1a of the lowercased path with the two-byte salt appended.
    assert_eq!(filepath_hash("Data/Mods.dat".to_string()), 3469442598182529602u64);
    assert_eq!(filepath_hash("abc".to_string()), 7201074580011678385u64);
}

#[test]
fn different_paths_hash_differently() {
    assert_ne!(
        filepath_hash("Data/Mods.dat".to_string()),
        filepath_hash("Data/Tags.dat".to_string())
    );
}
