use crate::codec::{
    bytes32_eq, bytes32_of, has_tag, lemma_bytes32_of, lemma_u64_bytes_of_value,
    lemma_u64_round_trip, read_bytes32, read_u64, u64_bytes, u64_value, write_bytes, write_u64,
    write_zeros,
};
use crate::error::RecordError;
use crate::identifier::Identifier;
use crate::pool::Pool;
use vstd::prelude::*;

verus! {

/// The tag that a sell-state record begins with.
pub const SELL_STATE_DISCRIMINATOR: [u8; 8] = [183, 195, 195, 180, 139, 112, 255, 193];

/// The escrow record of one asset that a pool holds. It is addressed by
/// `(pool, asset_mint)`, exists while `asset_amount` is above zero, and
/// repeats the pool's owner and cosigner annotation so that a reader needs no
/// second lookup.
#[derive(Clone, Copy, Debug, PartialEq, Eq)]
pub struct SellState {
    pub pool: Identifier,
    pub pool_owner: Identifier,
    pub asset_mint: Identifier,
    pub asset_amount: u64,
    pub cosigner_annotation: [u8; 32],
}

impl SellState {
    /// Bytes kept free behind the fields for fields to come.
    pub const PADDING: usize = 200;

    /// The length of a record: tag, fields and padding.
    pub const LEN: usize = 8 +
        8 + // u64
        32 * 3 + // identifiers
        32 + // cosigner annotation
        Self::PADDING;

    /// The record repeats the owner and the cosigner annotation of `pool`
    /// as they are now. Whoever writes a pool that sell states refer to has
    /// to write those sell states too, so that this holds after every write.
    pub open spec fn mirrors_spec(&self, pool: &Pool) -> bool {
        &&& self.pool_owner == pool.owner
        &&& self.cosigner_annotation == pool.cosigner_annotation
    }

    /// Tells whether the record repeats the owner and the cosigner
    /// annotation of `pool` as they are now.
    #[verifier::when_used_as_spec(mirrors_spec)]
    pub fn mirrors(&self, pool: &Pool) -> (r: bool)
        ensures
            r == self.mirrors_spec(pool),
    {
        self.pool_owner == pool.owner && bytes32_eq(
            &self.cosigner_annotation,
            &pool.cosigner_annotation,
        )
    }

    /// The sell state of `asset_amount` of the asset `asset_mint` in the pool
    /// stored under `pool`, with the given copies of that pool's owner and
    /// cosigner annotation.
    pub fn new(
        pool: Identifier,
        pool_owner: Identifier,
        asset_mint: Identifier,
        asset_amount: u64,
        cosigner_annotation: [u8; 32],
    ) -> (state: SellState)
        ensures
            state == (SellState {
                pool,
                pool_owner,
                asset_mint,
                asset_amount,
                cosigner_annotation,
            }),
    {
        SellState { pool, pool_owner, asset_mint, asset_amount, cosigner_annotation }
    }

    /// The sell state of `asset_amount` of the asset `asset_mint` in the pool
    /// `pool`, which is stored under `pool_key`.
    pub fn for_pool(
        pool_key: Identifier,
        pool: &Pool,
        asset_mint: Identifier,
        asset_amount: u64,
    ) -> (state: SellState)
        ensures
            state == (SellState {
                pool: pool_key,
                pool_owner: pool.owner,
                asset_mint,
                asset_amount,
                cosigner_annotation: pool.cosigner_annotation,
            }),
            state.mirrors(pool),
    {
        SellState {
            pool: pool_key,
            pool_owner: pool.owner,
            asset_mint,
            asset_amount,
            cosigner_annotation: pool.cosigner_annotation,
        }
    }

    /// The record whose every field is zero.
    pub open spec fn zeroed() -> SellState {
        SellState {
            pool: Identifier::zero(),
            pool_owner: Identifier::zero(),
            asset_mint: Identifier::zero(),
            asset_amount: 0,
            cosigner_annotation: vstd::array::spec_array_fill_for_copy_type::<u8, 32>(0u8),
        }
    }

    /// The bytes of the tag and the fields, in the order of the declaration.
    pub open spec fn encoding(self) -> Seq<u8> {
        SELL_STATE_DISCRIMINATOR@ + self.pool@ + self.pool_owner@ + self.asset_mint@ + u64_bytes(
            self.asset_amount,
        ) + self.cosigner_annotation@
    }

    /// What a reader makes of `bytes`: the record whose tag and fields they
    /// begin with, whatever follows.
    pub open spec fn decoding(bytes: Seq<u8>) -> Result<SellState, RecordError> {
        if bytes.len() < 8 {
            Err(RecordError::DiscriminatorNotFound)
        } else if bytes.subrange(0, 8) != SELL_STATE_DISCRIMINATOR@ {
            Err(RecordError::DiscriminatorMismatch)
        } else if bytes.len() < 144 {
            Err(RecordError::DidNotDeserialize)
        } else {
            Ok(
                SellState {
                    pool: Identifier::from_seq(bytes.subrange(8, 40)),
                    pool_owner: Identifier::from_seq(bytes.subrange(40, 72)),
                    asset_mint: Identifier::from_seq(bytes.subrange(72, 104)),
                    asset_amount: u64_value(bytes.subrange(104, 112)),
                    cosigner_annotation: bytes32_of(bytes.subrange(112, 144)),
                },
            )
        }
    }

    /// Writes the record as it is first stored: tag, fields, and padding of
    /// zero bytes up to `LEN`.
    pub fn serialize(&self) -> (bytes: Vec<u8>)
        ensures
            bytes@ == self.encoding() + Seq::new(Self::PADDING as nat, |i: int| 0u8),
            bytes@.len() == Self::LEN,
    {
        let mut bytes: Vec<u8> = Vec::new();
        write_bytes(&mut bytes, &SELL_STATE_DISCRIMINATOR);
        write_bytes(&mut bytes, &self.pool.bytes);
        write_bytes(&mut bytes, &self.pool_owner.bytes);
        write_bytes(&mut bytes, &self.asset_mint.bytes);
        write_u64(&mut bytes, self.asset_amount);
        write_bytes(&mut bytes, &self.cosigner_annotation);
        proof {
            assert(bytes@ =~= self.encoding());
            self.lemma_encoding_len();
        }
        write_zeros(&mut bytes, Self::PADDING);
        bytes
    }

    /// Reads a record from `data`. Bytes behind the fields are not looked at.
    pub fn deserialize(data: &[u8]) -> (r: Result<SellState, RecordError>)
        ensures
            r == Self::decoding(data@),
    {
        if data.len() < 8 {
            return Err(RecordError::DiscriminatorNotFound);
        }
        if !has_tag(data, &SELL_STATE_DISCRIMINATOR) {
            return Err(RecordError::DiscriminatorMismatch);
        }
        if data.len() < 144 {
            return Err(RecordError::DidNotDeserialize);
        }
        Ok(
            SellState {
                pool: Identifier::read(data, 8),
                pool_owner: Identifier::read(data, 40),
                asset_mint: Identifier::read(data, 72),
                asset_amount: read_u64(data, 104),
                cosigner_annotation: read_bytes32(data, 112),
            },
        )
    }

    /// The tag, the fields at their widths and the padding add up to `LEN`.
    pub proof fn lemma_encoding_len(self)
        ensures
            self.encoding().len() + Self::PADDING == Self::LEN,
    {
        lemma_u64_round_trip(self.asset_amount);
    }

    /// A record that is written and read again comes back with every field
    /// as it was, whatever bytes stand behind the fields.
    pub proof fn lemma_round_trip(self, tail: Seq<u8>)
        ensures
            Self::decoding(self.encoding() + tail) == Ok::<SellState, RecordError>(self),
    {
        let bytes = self.encoding() + tail;
        lemma_u64_round_trip(self.asset_amount);
        assert(bytes.subrange(0, 8) =~= SELL_STATE_DISCRIMINATOR@);
        assert(bytes.subrange(8, 40) =~= self.pool@);
        assert(bytes.subrange(40, 72) =~= self.pool_owner@);
        assert(bytes.subrange(72, 104) =~= self.asset_mint@);
        assert(bytes.subrange(104, 112) =~= u64_bytes(self.asset_amount));
        assert(bytes.subrange(112, 144) =~= self.cosigner_annotation@);
        lemma_bytes32_of(self.pool.bytes, self.pool@);
        lemma_bytes32_of(self.pool_owner.bytes, self.pool_owner@);
        lemma_bytes32_of(self.asset_mint.bytes, self.asset_mint@);
        lemma_bytes32_of(self.cosigner_annotation, self.cosigner_annotation@);
    }

    /// Bytes are read as a record only if they begin with the bytes of that
    /// record.
    pub proof fn lemma_decoding_is_prefix(bytes: Seq<u8>, state: SellState)
        requires
            Self::decoding(bytes) == Ok::<SellState, RecordError>(state),
        ensures
            bytes.len() >= state.encoding().len(),
            bytes.subrange(0, state.encoding().len() as int) == state.encoding(),
    {
        state.lemma_encoding_len();
        lemma_u64_bytes_of_value(bytes.subrange(104, 112));
        lemma_bytes32_of(state.pool.bytes, bytes.subrange(8, 40));
        lemma_bytes32_of(state.pool_owner.bytes, bytes.subrange(40, 72));
        lemma_bytes32_of(state.asset_mint.bytes, bytes.subrange(72, 104));
        lemma_bytes32_of(state.cosigner_annotation, bytes.subrange(112, 144));
        assert(bytes.subrange(0, 144) =~= bytes.subrange(0, 8) + bytes.subrange(8, 40)
            + bytes.subrange(40, 72) + bytes.subrange(72, 104) + bytes.subrange(104, 112)
            + bytes.subrange(112, 144));
    }
}

impl Default for SellState {
    /// The zeroed sell state.
    fn default() -> (state: SellState)
        ensures
            state == SellState::zeroed(),
    {
        SellState {
            pool: Identifier::zero(),
            pool_owner: Identifier::zero(),
            asset_mint: Identifier::zero(),
            asset_amount: 0,
            cosigner_annotation: [0u8; 32],
        }
    }
}

} // verus!
