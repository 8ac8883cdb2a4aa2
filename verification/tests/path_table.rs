use poe_bundle::err::BundleError;
use poe_bundle::paths::build_paths;
use poe_bundle::paths::read_utf8;

fn rec(index: u32, text: &[u8]) -> Vec<u8> {
    let mut b = index.to_le_bytes().to_vec();
    b.extend_from_slice(text);
    b.push(0u8);
    b
}

fn toggle() -> Vec<u8> {
    0u32.to_le_bytes().to_vec()
}

#[test]
fn scenario_palette_and_emit() {
    // Records [0, 1,"Data/", 0, 1,"Mods.dat"]: the first zero enters the
    // generation phase and "Data/" becomes palette entry 1; the second zero
    // exits it; index 1 then emits palette entry 1 plus the suffix.
    let mut b = toggle();
    b.extend(rec(1, b"Data/"));
    b.extend(toggle());
    b.extend(rec(1, b"Mods.dat"));
    let out = build_paths(&b).unwrap();
    assert_eq!(out, vec!["Data/Mods.dat".to_string()]);
}

#[test]
fn prefix_reuse_starts_with_palette_entry() {
    // Two palette entries; every emitted path starts with the referenced
    // entry exactly.
    let mut b = toggle();
    b.extend(rec(1, b"Data/"));
    b.extend(rec(2, b"Art/"));
    b.extend(toggle());
    b.extend(rec(1, b"Mods.dat"));
    b.extend(rec(2, b"Logo.png"));
    b.extend(rec(7, b"Loose.txt"));
    let out = build_paths(&b).unwrap();
    assert_eq!(
        out,
        vec!["Data/Mods.dat".to_string(), "Art/Logo.png".to_string(), "Loose.txt".to_string()]
    );
    assert!(out[0].starts_with("Data/"));
    assert!(out[1].starts_with("Art/"));
}

#[test]
fn palette_references_chain_within_generation() {
    // During generation a record may reference an earlier palette entry; the
    // palette then holds the concatenation.
    let mut b = toggle();
    b.extend(rec(1, b"Data/"));
    b.extend(rec(1, b"Sub/"));
    b.extend(toggle());
    b.extend(rec(2, b"x.dat"));
    let out = build_paths(&b).unwrap();
    assert_eq!(out, vec!["Data/Sub/x.dat".to_string()]);
}

#[test]
fn toggle_pair_is_noop_with_empty_palette() {
    // A leading zero pair leaves everything unchanged when the palette is
    // empty.
    let mut plain = toggle();
    plain.extend(rec(1, b"A"));
    plain.extend(toggle());
    plain.extend(rec(1, b"B"));

    let mut padded = toggle();
    padded.extend(toggle());
    padded.extend(plain.clone());

    assert_eq!(build_paths(&plain).unwrap(), build_paths(&padded).unwrap());
    assert_eq!(build_paths(&plain).unwrap(), vec!["AB".to_string()]);

    // Two zeroes alone decode to nothing.
    let mut two = toggle();
    two.extend(toggle());
    assert_eq!(build_paths(&two).unwrap(), Vec::<String>::new());
}

#[test]
fn entering_generation_clears_palette() {
    // The palette built in the first generation phase is gone once a second
    // generation phase begins: index 1 then refers past the (new, single)
    // palette entry list built afterwards.
    let mut b = toggle();
    b.extend(rec(1, b"Old/"));
    b.extend(toggle());
    b.extend(toggle());
    b.extend(rec(1, b"New/"));
    b.extend(toggle());
    b.extend(rec(1, b"f.bin"));
    let out = build_paths(&b).unwrap();
    assert_eq!(out, vec!["New/f.bin".to_string()]);
}

#[test]
fn trailing_bytes_are_ignored() {
    let mut b = toggle();
    b.extend(rec(1, b"A"));
    b.extend(toggle());
    b.extend(rec(1, b"B"));
    b.extend_from_slice(&[9u8, 9u8, 9u8]);
    let out = build_paths(&b).unwrap();
    assert_eq!(out, vec!["AB".to_string()]);
}

#[test]
fn missing_terminator_is_an_error() {
    let mut b = 1u32.to_le_bytes().to_vec();
    b.extend_from_slice(b"abc");
    assert_eq!(build_paths(&b), Err(BundleError::MissingPathTerminator));
}

#[test]
fn invalid_utf8_is_an_error() {
    let mut b = 1u32.to_le_bytes().to_vec();
    b.extend_from_slice(&[0xFFu8, 0xFEu8]);
    b.push(0u8);
    assert_eq!(build_paths(&b), Err(BundleError::InvalidPathText));
}

#[test]
fn non_ascii_paths_decode() {
    let mut b = 1u32.to_le_bytes().to_vec();
    b.extend_from_slice("Dätä/ファイル.dat".as_bytes());
    b.push(0u8);
    let out = build_paths(&b).unwrap();
    assert_eq!(out, vec!["Dätä/ファイル.dat".to_string()]);
}

#[test]
fn read_utf8_reads_through_terminator() {
    let b = b"hello\0world\0";
    let (s, next) = read_utf8(b, 0).unwrap();
    assert_eq!(s, "hello".to_string());
    assert_eq!(next, 6);
    let (s2, next2) = read_utf8(b, next).unwrap();
    assert_eq!(s2, "world".to_string());
    assert_eq!(next2, 12);
}

#[test]
fn read_utf8_reports_missing_terminator() {
    assert_eq!(read_utf8(b"abc", 0), Err(BundleError::MissingPathTerminator));
}

#[test]
fn read_utf8_reports_invalid_text() {
    assert_eq!(read_utf8(&[0x80u8, 0u8], 0), Err(BundleError::InvalidPathText));
}
