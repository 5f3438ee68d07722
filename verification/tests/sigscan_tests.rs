use gmod::sigscan::SigToken;
use gmod::sigscan::Signature;

#[test]
fn parse_reads_bytes_and_wildcards() {
    let sig = Signature::parse("48 8B ?? 1a ?").unwrap();
    assert_eq!(sig.len(), 5);
}

#[test]
fn parse_rejects_malformed_patterns() {
    assert!(Signature::parse("4").is_none());
    assert!(Signature::parse("GG").is_none());
    assert!(Signature::parse("48 8").is_none());
    assert!(Signature::parse("???").is_none());
}

#[test]
fn parse_accepts_extra_spaces() {
    let sig = Signature::parse("  55  8B ").unwrap();
    assert_eq!(sig.len(), 2);
}

#[test]
fn scan_finds_pattern_at_known_offset() {
    let sig = Signature::parse("DE AD ?? EF").unwrap();
    let hay = [0x00u8, 0x11, 0xDE, 0xAD, 0x77, 0xEF, 0x22];
    assert_eq!(sig.scan(&hay), Some(2));
}

#[test]
fn scan_without_pattern_is_not_found() {
    let sig = Signature::parse("DE AD BE EF").unwrap();
    let hay = [0x00u8, 0x11, 0x22, 0x33, 0x44];
    assert_eq!(sig.scan(&hay), None);
}

#[test]
fn scan_with_two_occurrences_returns_the_first() {
    let sig = Signature::parse("AB CD").unwrap();
    let hay = [0x00u8, 0xAB, 0xCD, 0x00, 0xAB, 0xCD];
    assert_eq!(sig.scan(&hay), Some(1));
}

#[test]
fn scan_shorter_haystack_is_not_found() {
    let sig = Signature::parse("AB CD EF").unwrap();
    let hay = [0xABu8, 0xCD];
    assert_eq!(sig.scan(&hay), None);
}

#[test]
fn decode_applies_relative_displacement() {
    // A call opcode followed by a 32-bit little-endian displacement of 0x10:
    // the target is the address just after the displacement field plus 0x10.
    let sig = Signature::parse("E8 ?? ?? ?? ??").unwrap().with_rel32(1);
    let hay = [0x90u8, 0xE8, 0x10, 0x00, 0x00, 0x00, 0x90];
    let pos = sig.scan(&hay).unwrap();
    assert_eq!(pos, 1);
    let target = sig.decode(0x1000, &hay, pos);
    // 0x1000 (base) + 1 (match) + 1 (displacement offset) + 4 (field) + 0x10
    assert_eq!(target, 0x1016);
}

#[test]
fn decode_handles_negative_displacement() {
    let sig = Signature::parse("E8 ?? ?? ?? ??").unwrap().with_rel32(1);
    // Displacement bytes FC FF FF FF read as -4.
    let hay = [0xE8u8, 0xFC, 0xFF, 0xFF, 0xFF];
    let target = sig.decode(0x2000, &hay, 0);
    // 0x2000 + 0 + 1 + 4 - 4
    assert_eq!(target, 0x2001);
}

#[test]
fn decode_without_rule_returns_match_address() {
    let sig = Signature::parse("AA BB").unwrap();
    let hay = [0x00u8, 0xAA, 0xBB];
    let pos = sig.scan(&hay).unwrap();
    assert_eq!(sig.decode(0x4000, &hay, pos), 0x4001);
}

#[test]
fn resolve_combines_scan_and_decode() {
    let sig = Signature::parse("E8 ?? ?? ?? ??").unwrap().with_rel32(1);
    let hay = [0x90u8, 0xE8, 0x10, 0x00, 0x00, 0x00];
    assert_eq!(sig.resolve(0x1000, &hay), Some(0x1016));
    let empty: [u8; 2] = [0x90, 0x90];
    assert_eq!(sig.resolve(0x1000, &empty), None);
}

#[test]
fn from_tokens_builds_a_signature() {
    let sig = Signature::from_tokens(vec![SigToken::Byte(0xAB), SigToken::Any]);
    let hay = [0xABu8, 0x33];
    assert_eq!(sig.scan(&hay), Some(0));
}

#[test]
fn wildcards_match_any_byte() {
    let sig = Signature::parse("?? 42 ??").unwrap();
    let hay = [0x01u8, 0x42, 0xFF];
    assert_eq!(sig.scan(&hay), Some(0));
    let miss = [0x01u8, 0x41, 0xFF];
    assert_eq!(sig.scan(&miss), None);
}
