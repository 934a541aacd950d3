use anchor_lang::prelude::Pubkey;
use mmm::{BubblegumProgram, Identifier, RecordError, TreeConfigAnchor, BUBBLEGUM_ID};

fn tree_config_bytes() -> Vec<u8> {
    let mut bytes = vec![122u8, 245, 175, 248, 171, 34, 0, 207];
    bytes.extend_from_slice(&[0x11; 32]);
    bytes.extend_from_slice(&[0x22; 32]);
    bytes.extend_from_slice(&1_000u64.to_le_bytes());
    bytes.extend_from_slice(&17u64.to_le_bytes());
    bytes.push(1);
    bytes.push(0);
    bytes
}

#[test]
fn registry_identifier_is_the_one_of_the_outside_crate() {
    let id = BubblegumProgram::id();
    assert_eq!(id.bytes, mpl_bubblegum::ID.to_bytes());
    assert_eq!(id.bytes, BUBBLEGUM_ID);
    assert_eq!(
        Pubkey::new_from_array(id.bytes).to_string(),
        "BGUMAp9Gq7iTEuizy4pqaxsTyUCBK68MDfK752saRPUY"
    );
    assert_ne!(id, Identifier::zero());
}

#[test]
fn tree_config_is_owned_by_the_registry() {
    assert_eq!(TreeConfigAnchor::owner(), BubblegumProgram::id());
}

#[test]
fn tree_config_is_read_with_the_registry_layout() {
    let bytes = tree_config_bytes();
    let record = TreeConfigAnchor::try_deserialize_unchecked(&bytes).unwrap();
    assert_eq!(record.0.tree_creator, Pubkey::new_from_array([0x11; 32]));
    assert_eq!(record.tree_delegate, Pubkey::new_from_array([0x22; 32]));
    assert_eq!(record.total_mint_capacity, 1_000);
    assert_eq!(record.num_minted, 17);
    assert!(record.is_public);
    let again = mpl_bubblegum::accounts::TreeConfig::from_bytes(&bytes).unwrap();
    assert_eq!(record.0, again);
    assert_eq!(record.clone().0, again);
}

#[test]
fn tree_config_bytes_that_do_not_decode_are_turned_down() {
    let bytes = tree_config_bytes();
    assert_eq!(
        TreeConfigAnchor::try_deserialize_unchecked(&bytes[..10]).err(),
        Some(RecordError::DidNotDeserialize)
    );
    assert_eq!(
        TreeConfigAnchor::try_deserialize_unchecked(&[]).err(),
        Some(RecordError::DidNotDeserialize)
    );
    let mut flag = bytes.clone();
    flag[88] = 7;
    assert_eq!(
        TreeConfigAnchor::try_deserialize_unchecked(&flag).err(),
        Some(RecordError::DidNotDeserialize)
    );
}

#[test]
fn registry_answer_is_wrapped_as_it_is() {
    let bytes = tree_config_bytes();
    let decoded = mpl_bubblegum::accounts::TreeConfig::from_bytes(&bytes);
    let wrapped = TreeConfigAnchor::from_decoded(decoded).unwrap();
    assert_eq!(wrapped.num_minted, 17);
    let failed = mpl_bubblegum::accounts::TreeConfig::from_bytes(&bytes[..3]);
    assert!(failed.is_err());
    assert_eq!(TreeConfigAnchor::from_decoded(failed).err(), Some(RecordError::DidNotDeserialize));
}

#[test]
fn tree_config_is_never_written() {
    let record = TreeConfigAnchor::try_deserialize_unchecked(&tree_config_bytes()).unwrap();
    let mut out = vec![1u8, 2, 3];
    assert_eq!(record.try_serialize(&mut out), Err(RecordError::ForeignRecord));
    assert_eq!(out, vec![1, 2, 3]);
    let mut empty = Vec::new();
    assert_eq!(record.try_serialize(&mut empty), Err(RecordError::ForeignRecord));
    assert!(empty.is_empty());
}
