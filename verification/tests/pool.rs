use anchor_lang::AnchorSerialize;
use mmm::{
    Allowlist, Identifier, Pool, RecordError, ALLOWLIST_KIND_FVCA, ALLOWLIST_KIND_MINT,
    ALLOWLIST_MAX_LEN, CURVE_KIND_EXP, CURVE_KIND_LINEAR, MAX_BP, POOL_DISCRIMINATOR,
};

fn id(seed: u8) -> Identifier {
    let mut bytes = [0u8; 32];
    for (i, byte) in bytes.iter_mut().enumerate() {
        *byte = seed.wrapping_add(i as u8);
    }
    Identifier::new(bytes)
}

fn sample_pool() -> Pool {
    let mut pool = Pool::default();
    pool.spot_price = 1_000_000;
    pool.curve_type = CURVE_KIND_EXP;
    pool.curve_delta = 500;
    pool.reinvest_fulfill_buy = true;
    pool.reinvest_fulfill_sell = false;
    pool.expiry = 1_700_000_000;
    pool.lp_fee_bp = 250;
    pool.referral = id(10);
    pool.referral_bp = 7;
    pool.buyside_creator_royalty_bp = 500;
    pool.cosigner_annotation = [0xC5; 32];
    pool.sellside_asset_amount = 3;
    pool.lp_fee_earned = 12_345;
    pool.owner = id(20);
    pool.cosigner = id(30);
    pool.uuid = id(40);
    pool.payment_mint = id(50);
    pool.allowlists[0] = Allowlist { kind: ALLOWLIST_KIND_FVCA, value: id(60) };
    pool.allowlists[1] = Allowlist { kind: ALLOWLIST_KIND_MINT, value: id(70) };
    pool.buyside_payment_amount = 9_000_000_000;
    pool.shared_escrow_account = id(80);
    pool.shared_escrow_count = 4;
    pool
}

fn borsh_of_fields(pool: &Pool) -> Vec<u8> {
    let mut out = Vec::new();
    pool.spot_price.serialize(&mut out).unwrap();
    pool.curve_type.serialize(&mut out).unwrap();
    pool.curve_delta.serialize(&mut out).unwrap();
    pool.reinvest_fulfill_buy.serialize(&mut out).unwrap();
    pool.reinvest_fulfill_sell.serialize(&mut out).unwrap();
    pool.expiry.serialize(&mut out).unwrap();
    pool.lp_fee_bp.serialize(&mut out).unwrap();
    pool.referral.bytes.serialize(&mut out).unwrap();
    pool.referral_bp.serialize(&mut out).unwrap();
    pool.buyside_creator_royalty_bp.serialize(&mut out).unwrap();
    pool.cosigner_annotation.serialize(&mut out).unwrap();
    pool.sellside_asset_amount.serialize(&mut out).unwrap();
    pool.lp_fee_earned.serialize(&mut out).unwrap();
    pool.owner.bytes.serialize(&mut out).unwrap();
    pool.cosigner.bytes.serialize(&mut out).unwrap();
    pool.uuid.bytes.serialize(&mut out).unwrap();
    pool.payment_mint.bytes.serialize(&mut out).unwrap();
    for entry in pool.allowlists.iter() {
        entry.kind.serialize(&mut out).unwrap();
        entry.value.bytes.serialize(&mut out).unwrap();
    }
    pool.buyside_payment_amount.serialize(&mut out).unwrap();
    pool.shared_escrow_account.bytes.serialize(&mut out).unwrap();
    pool.shared_escrow_count.serialize(&mut out).unwrap();
    out
}

#[test]
fn pool_len_is_tag_fields_and_padding() {
    assert_eq!(ALLOWLIST_MAX_LEN, 6);
    assert_eq!(Pool::PADDING, 354);
    assert_eq!(Pool::LEN, 849);
    let fields = 8 * 6 + 8 + 1 + 2 * 3 + 32 * 6 + 2 + 32 + Allowlist::LEN * ALLOWLIST_MAX_LEN;
    assert_eq!(fields, 487);
    assert_eq!(Pool::LEN, 8 + fields + Pool::PADDING);
    assert_eq!(borsh_of_fields(&Pool::default()).len(), fields);
    assert_eq!(Pool::default().serialize().len(), Pool::LEN);
    assert_eq!(sample_pool().serialize().len(), Pool::LEN);
}

#[test]
fn pool_discriminator_is_the_hash_of_its_name() {
    let hash = anchor_lang::solana_program::hash::hash(b"account:Pool").to_bytes();
    assert_eq!(&POOL_DISCRIMINATOR[..], &hash[..8]);
    assert_eq!(POOL_DISCRIMINATOR, [241, 154, 109, 4, 17, 177, 109, 188]);
}

#[test]
fn fresh_pool_uses_no_shared_escrow() {
    let pool = Pool::default();
    assert!(!pool.using_shared_escrow());
    assert_eq!(pool.shared_escrow_account, Identifier::zero());
    assert_eq!(pool.shared_escrow_count, 0);
}

#[test]
fn shared_escrow_is_used_when_the_account_is_set() {
    let mut pool = Pool::default();
    pool.shared_escrow_account = id(1);
    assert!(pool.using_shared_escrow());
    let mut bytes = [0u8; 32];
    bytes[17] = 1;
    pool.shared_escrow_account = Identifier::new(bytes);
    assert!(pool.using_shared_escrow());
    pool.shared_escrow_account = Identifier::zero();
    pool.shared_escrow_count = 5;
    pool.owner = id(2);
    assert!(!pool.using_shared_escrow());
}

#[test]
fn default_pool_is_all_zero() {
    let pool = Pool::default();
    assert_eq!(pool.spot_price, 0);
    assert_eq!(pool.curve_type, CURVE_KIND_LINEAR);
    assert_eq!(pool.expiry, 0);
    assert!(!pool.reinvest_fulfill_buy);
    assert_eq!(pool.cosigner_annotation, [0u8; 32]);
    assert_eq!(pool.owner, Identifier::zero());
    for entry in pool.allowlists.iter() {
        assert_eq!(*entry, Allowlist::default());
    }
    assert!(pool.is_well_formed());
    let bytes = pool.serialize();
    assert_eq!(&bytes[..8], &POOL_DISCRIMINATOR[..]);
    assert!(bytes[8..].iter().all(|b| *b == 0));
}

#[test]
fn pool_round_trips() {
    let pool = sample_pool();
    let bytes = pool.serialize();
    assert_eq!(Pool::deserialize(&bytes), Ok(pool));
    let zero = Pool::default();
    assert_eq!(Pool::deserialize(&zero.serialize()), Ok(zero));
}

#[test]
fn pool_padding_is_ignored_on_read() {
    let pool = sample_pool();
    let mut bytes = pool.serialize();
    for byte in bytes[495..].iter_mut() {
        *byte = 0xEE;
    }
    assert_eq!(Pool::deserialize(&bytes), Ok(pool));
    assert_eq!(Pool::deserialize(&bytes[..495]), Ok(pool));
    bytes.extend_from_slice(&[1, 2, 3]);
    assert_eq!(Pool::deserialize(&bytes), Ok(pool));
}

#[test]
fn exponential_pool_round_trips_with_fees_in_range() {
    let mut pool = Pool::default();
    pool.curve_type = CURVE_KIND_EXP;
    pool.curve_delta = 500;
    pool.spot_price = 1_000_000;
    pool.lp_fee_bp = 250;
    pool.buyside_creator_royalty_bp = 500;
    let read = Pool::deserialize(&pool.serialize()).unwrap();
    assert_eq!(read, pool);
    assert_eq!(read.curve_type, 1);
    assert_eq!(read.curve_delta, 500);
    assert_eq!(read.spot_price, 1_000_000);
    assert!(read.lp_fee_bp <= MAX_BP);
    assert!(read.buyside_creator_royalty_bp <= MAX_BP);
    assert!(read.is_well_formed());
}

#[test]
fn pool_fields_stand_at_their_places() {
    let pool = sample_pool();
    let bytes = pool.serialize();
    assert_eq!(&bytes[8..16], &[0x40, 0x42, 0x0F, 0, 0, 0, 0, 0]);
    assert_eq!(bytes[16], 1);
    assert_eq!(&bytes[17..25], &[0xF4, 0x01, 0, 0, 0, 0, 0, 0]);
    assert_eq!(bytes[25], 1);
    assert_eq!(bytes[26], 0);
    assert_eq!(&bytes[27..35], &1_700_000_000i64.to_le_bytes());
    assert_eq!(&bytes[35..37], &[0xFA, 0x00]);
    assert_eq!(&bytes[37..69], &id(10).bytes);
    assert_eq!(&bytes[69..71], &[7, 0]);
    assert_eq!(&bytes[71..73], &[0xF4, 0x01]);
    assert_eq!(&bytes[73..105], &[0xC5; 32]);
    assert_eq!(&bytes[105..113], &3u64.to_le_bytes());
    assert_eq!(&bytes[113..121], &12_345u64.to_le_bytes());
    assert_eq!(&bytes[121..153], &id(20).bytes);
    assert_eq!(&bytes[153..185], &id(30).bytes);
    assert_eq!(&bytes[185..217], &id(40).bytes);
    assert_eq!(&bytes[217..249], &id(50).bytes);
    assert_eq!(bytes[249], 1);
    assert_eq!(&bytes[250..282], &id(60).bytes);
    assert_eq!(bytes[282], 2);
    assert_eq!(&bytes[283..315], &id(70).bytes);
    assert!(bytes[315..447].iter().all(|b| *b == 0));
    assert_eq!(&bytes[447..455], &9_000_000_000u64.to_le_bytes());
    assert_eq!(&bytes[455..487], &id(80).bytes);
    assert_eq!(&bytes[487..495], &4u64.to_le_bytes());
    assert!(bytes[495..].iter().all(|b| *b == 0));
}

#[test]
fn pool_is_written_as_borsh_writes_its_fields() {
    for pool in [Pool::default(), sample_pool()] {
        let bytes = pool.serialize();
        let mut expected = POOL_DISCRIMINATOR.to_vec();
        expected.extend_from_slice(&borsh_of_fields(&pool));
        assert_eq!(&bytes[..495], &expected[..]);
    }
}

#[test]
fn negative_expiry_round_trips() {
    let mut pool = sample_pool();
    pool.expiry = -5;
    let bytes = pool.serialize();
    assert_eq!(&bytes[27..35], &[0xFB, 0xFF, 0xFF, 0xFF, 0xFF, 0xFF, 0xFF, 0xFF]);
    assert_eq!(Pool::deserialize(&bytes).unwrap().expiry, -5);
}

#[test]
fn pool_bytes_without_a_tag_are_turned_down() {
    assert_eq!(Pool::deserialize(&[]), Err(RecordError::DiscriminatorNotFound));
    assert_eq!(
        Pool::deserialize(&POOL_DISCRIMINATOR[..7]),
        Err(RecordError::DiscriminatorNotFound)
    );
}

#[test]
fn pool_bytes_with_another_tag_are_turned_down() {
    let mut bytes = sample_pool().serialize();
    bytes[7] ^= 1;
    assert_eq!(Pool::deserialize(&bytes), Err(RecordError::DiscriminatorMismatch));
    assert_eq!(Pool::deserialize(&[0u8; 849]), Err(RecordError::DiscriminatorMismatch));
    assert_eq!(Pool::deserialize(&[0u8; 8]), Err(RecordError::DiscriminatorMismatch));
}

#[test]
fn pool_bytes_that_are_too_few_are_turned_down() {
    let bytes = sample_pool().serialize();
    assert_eq!(Pool::deserialize(&bytes[..494]), Err(RecordError::DidNotDeserialize));
    assert_eq!(Pool::deserialize(&bytes[..8]), Err(RecordError::DidNotDeserialize));
    assert!(Pool::deserialize(&bytes[..495]).is_ok());
}

#[test]
fn pool_flag_that_is_no_bool_is_turned_down() {
    for at in [25usize, 26] {
        let mut bytes = sample_pool().serialize();
        bytes[at] = 2;
        assert_eq!(Pool::deserialize(&bytes), Err(RecordError::DidNotDeserialize), "byte {at}");
        bytes[at] = 255;
        assert_eq!(Pool::deserialize(&bytes), Err(RecordError::DidNotDeserialize), "byte {at}");
    }
}

#[test]
fn well_formed_pool_is_accepted() {
    assert!(sample_pool().is_well_formed());
    let mut pool = sample_pool();
    pool.lp_fee_bp = 10000;
    pool.buyside_creator_royalty_bp = 10000;
    pool.curve_type = CURVE_KIND_LINEAR;
    assert!(pool.is_well_formed());
}

#[test]
fn unknown_curve_is_malformed() {
    let mut pool = sample_pool();
    pool.curve_type = 2;
    assert!(!pool.is_well_formed());
    pool.curve_type = 255;
    assert!(!pool.is_well_formed());
}

#[test]
fn fee_above_the_whole_is_malformed() {
    let mut pool = sample_pool();
    pool.lp_fee_bp = 10001;
    assert!(!pool.is_well_formed());
    let mut pool = sample_pool();
    pool.buyside_creator_royalty_bp = 10001;
    assert!(!pool.is_well_formed());
    let mut pool = sample_pool();
    pool.referral_bp = u16::MAX;
    assert!(pool.is_well_formed());
}

#[test]
fn invalid_allowlist_entry_is_malformed() {
    for slot in 0..ALLOWLIST_MAX_LEN {
        let mut pool = sample_pool();
        pool.allowlists[slot] = Allowlist { kind: ALLOWLIST_KIND_MINT, value: Identifier::zero() };
        assert!(!pool.is_well_formed(), "slot {slot}");
        pool.allowlists[slot] = Allowlist { kind: 7, value: id(1) };
        assert!(!pool.is_well_formed(), "slot {slot}");
    }
}

#[test]
fn shared_escrow_count_is_not_taken_below_zero() {
    let mut pool = sample_pool();
    pool.shared_escrow_count = 1;
    assert!(pool.using_shared_escrow());
    let first = pool.shared_escrow_count.checked_sub(1);
    assert_eq!(first, Some(0));
    pool.shared_escrow_count = first.unwrap();
    assert_eq!(pool.shared_escrow_count, 0);
    let second = pool.shared_escrow_count.checked_sub(1);
    assert_eq!(second, None);
    assert_eq!(pool.shared_escrow_count, 0);
    let read = Pool::deserialize(&pool.serialize()).unwrap();
    assert_eq!(read.shared_escrow_count, 0);
}
