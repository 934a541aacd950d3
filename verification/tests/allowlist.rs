use mmm::{
    Allowlist, Identifier, Pool, ALLOWLIST_KIND_ANY, ALLOWLIST_KIND_EMPTY, ALLOWLIST_KIND_FVCA,
    ALLOWLIST_KIND_GROUP, ALLOWLIST_KIND_MCC, ALLOWLIST_KIND_METADATA, ALLOWLIST_KIND_MINT,
    ALLOWLIST_KIND_MPL_CORE_COLLECTION, ALLOWLIST_MAX_LEN,
};

fn creator_a() -> Identifier {
    let mut bytes = [0u8; 32];
    bytes[0] = 0xA1;
    bytes[31] = 0x01;
    Identifier::new(bytes)
}

#[test]
fn kind_constants_have_their_numbers() {
    assert_eq!(ALLOWLIST_KIND_EMPTY, 0);
    assert_eq!(ALLOWLIST_KIND_FVCA, 1);
    assert_eq!(ALLOWLIST_KIND_MINT, 2);
    assert_eq!(ALLOWLIST_KIND_MCC, 3);
    assert_eq!(ALLOWLIST_KIND_METADATA, 4);
    assert_eq!(ALLOWLIST_KIND_GROUP, 5);
    assert_eq!(ALLOWLIST_KIND_MPL_CORE_COLLECTION, 6);
    assert_eq!(ALLOWLIST_KIND_ANY, 255);
}

#[test]
fn kinds_that_read_the_value_reject_the_zero_identifier() {
    for kind in 1u8..=6 {
        let entry = Allowlist { kind, value: Identifier::zero() };
        assert!(!entry.valid(), "kind {kind}");
    }
}

#[test]
fn kinds_that_read_the_value_accept_a_set_identifier() {
    for kind in 1u8..=6 {
        let entry = Allowlist { kind, value: creator_a() };
        assert!(entry.valid(), "kind {kind}");
    }
}

#[test]
fn one_set_byte_is_enough_for_a_value() {
    for at in [0usize, 15, 31] {
        let mut bytes = [0u8; 32];
        bytes[at] = 1;
        let entry = Allowlist { kind: ALLOWLIST_KIND_MINT, value: Identifier::new(bytes) };
        assert!(entry.valid(), "byte {at}");
    }
}

#[test]
fn empty_and_any_accept_every_value() {
    for kind in [ALLOWLIST_KIND_EMPTY, ALLOWLIST_KIND_ANY] {
        assert!(Allowlist { kind, value: Identifier::zero() }.valid());
        assert!(Allowlist { kind, value: creator_a() }.valid());
        assert!(Allowlist { kind, value: Identifier::new([0xFF; 32]) }.valid());
    }
}

#[test]
fn reserved_kinds_are_never_valid() {
    for kind in 7u8..=254 {
        assert!(!Allowlist { kind, value: Identifier::zero() }.valid(), "kind {kind}");
        assert!(!Allowlist { kind, value: creator_a() }.valid(), "kind {kind}");
    }
}

#[test]
fn is_empty_looks_at_the_kind_alone() {
    for kind in 0u8..=255 {
        for value in [Identifier::zero(), creator_a()] {
            assert_eq!(Allowlist { kind, value }.is_empty(), kind == 0, "kind {kind}");
        }
    }
}

#[test]
fn default_entry_is_a_vacant_slot() {
    let entry = Allowlist::default();
    assert_eq!(entry.kind, ALLOWLIST_KIND_EMPTY);
    assert_eq!(entry.value, Identifier::zero());
    assert!(entry.is_empty());
    assert!(entry.valid());
}

#[test]
fn pool_with_one_creator_entry_and_vacant_slots() {
    let mut pool = Pool::default();
    pool.allowlists[0] = Allowlist { kind: ALLOWLIST_KIND_FVCA, value: creator_a() };
    assert!(pool.allowlists[0].valid());
    assert!(!pool.allowlists[0].is_empty());
    for slot in 1..ALLOWLIST_MAX_LEN {
        assert!(pool.allowlists[slot].is_empty(), "slot {slot}");
    }
    assert!(pool.is_well_formed());
}

#[test]
fn entry_is_written_as_kind_then_value() {
    let entry = Allowlist { kind: ALLOWLIST_KIND_MCC, value: creator_a() };
    let mut out = vec![9u8];
    entry.write(&mut out);
    assert_eq!(out.len(), 1 + Allowlist::LEN);
    assert_eq!(out[0], 9);
    assert_eq!(out[1], 3);
    assert_eq!(&out[2..], &creator_a().bytes[..]);
    assert_eq!(Allowlist::read(&out, 1), entry);
}

#[test]
fn identifier_zero_and_equality() {
    assert!(Identifier::zero().is_zero());
    assert_eq!(Identifier::zero(), Identifier::default());
    assert_eq!(Identifier::zero().bytes, [0u8; 32]);
    assert!(!creator_a().is_zero());
    assert_ne!(creator_a(), Identifier::zero());
    assert_eq!(creator_a(), creator_a());
    let mut last = [0u8; 32];
    last[31] = 1;
    assert!(!Identifier::new(last).is_zero());
}

#[test]
fn identifier_is_read_at_an_offset() {
    let mut data = vec![0u8; 40];
    for (i, byte) in data.iter_mut().enumerate() {
        *byte = i as u8;
    }
    let id = Identifier::read(&data, 5);
    for i in 0..32 {
        assert_eq!(id.bytes[i], (i + 5) as u8);
    }
}
