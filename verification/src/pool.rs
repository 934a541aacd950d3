use crate::allowlist::Allowlist;
use crate::codec::{
    bool_bytes, bool_value, bytes32_of, has_tag, i64_bytes, i64_value, lemma_bytes32_of,
    lemma_bool_bytes_of_value, lemma_bool_round_trip, lemma_i64_bytes_of_value,
    lemma_i64_round_trip, lemma_le_bytes_len, lemma_u16_bytes_of_value, lemma_u16_round_trip,
    lemma_u64_bytes_of_value, lemma_u64_round_trip, read_bool, read_bytes32,
    read_i64, read_u16, read_u64, twos_complement, u16_bytes, u16_value, u64_bytes, u64_value,
    write_bool, write_bytes, write_i64, write_u16, write_u64, write_zeros,
};
use crate::error::RecordError;
use crate::identifier::Identifier;
use vstd::prelude::*;

verus! {

/// The price moves by a fixed amount per trade.
pub const CURVE_KIND_LINEAR: u8 = 0;

/// The price moves by a fixed share of itself per trade.
pub const CURVE_KIND_EXP: u8 = 1;

/// The number of allowlist slots of every pool.
pub const ALLOWLIST_MAX_LEN: usize = 6;

/// The highest value of a field in basis points: the whole.
pub const MAX_BP: u16 = 10000;

/// The tag that a pool record begins with.
pub const POOL_DISCRIMINATOR: [u8; 8] = [241, 154, 109, 4, 17, 177, 109, 188];

/// The record of a pool: what its owner configured, what it holds, who it
/// belongs to and which assets it admits.
///
/// A pool is addressed by `(owner, uuid)`. The fields from `owner` to
/// `buyside_payment_amount` are fixed when the pool is created; the others
/// change with configuration updates and fulfilled orders.
#[derive(Clone, Copy, Debug, PartialEq, Eq)]
pub struct Pool {
    pub spot_price: u64,
    pub curve_type: u8,
    pub curve_delta: u64,
    pub reinvest_fulfill_buy: bool,
    pub reinvest_fulfill_sell: bool,
    /// Unix seconds; 0 means that the pool does not expire.
    pub expiry: i64,
    pub lp_fee_bp: u16,
    pub referral: Identifier,
    /// No longer used; kept for the layout.
    pub referral_bp: u16,
    pub buyside_creator_royalty_bp: u16,
    /// An opaque hash that only the cosigner sets.
    pub cosigner_annotation: [u8; 32],
    /// How many assets the pool holds.
    pub sellside_asset_amount: u64,
    pub lp_fee_earned: u64,
    pub owner: Identifier,
    pub cosigner: Identifier,
    pub uuid: Identifier,
    pub payment_mint: Identifier,
    pub allowlists: [Allowlist; ALLOWLIST_MAX_LEN],
    pub buyside_payment_amount: u64,
    /// The shared escrow that the pool draws on; zero when it uses none.
    pub shared_escrow_account: Identifier,
    /// How many more orders the shared escrow honors for this pool.
    pub shared_escrow_count: u64,
}

impl Pool {
    /// Bytes kept free behind the fields for fields to come.
    pub const PADDING: usize = 354;

    /// The length of a record: tag, fields and padding.
    pub const LEN: usize = 8 +
        8 * 6 + // u64
        8 + // i64
        1 + // u8
        2 * 3 + // u16
        32 * 6 + // identifiers
        2 + // bool
        32 + // cosigner annotation
        Allowlist::LEN * ALLOWLIST_MAX_LEN + // allowlists
        Self::PADDING;

    /// The pool draws on a shared escrow: the account is set.
    pub open spec fn using_shared_escrow_spec(&self) -> bool {
        self.shared_escrow_account != Identifier::zero()
    }

    /// Tells whether the pool draws on a shared escrow.
    #[verifier::when_used_as_spec(using_shared_escrow_spec)]
    pub fn using_shared_escrow(&self) -> (r: bool)
        ensures
            r == self.using_shared_escrow_spec(),
    {
        self.shared_escrow_account != Identifier::default()
    }

    /// The record is acceptable: the curve is one of the two kinds, the fee
    /// and the royalty are at most the whole, and every slot that is not
    /// vacant holds a valid entry.
    pub open spec fn well_formed(&self) -> bool {
        &&& self.curve_type == CURVE_KIND_LINEAR || self.curve_type == CURVE_KIND_EXP
        &&& self.lp_fee_bp <= MAX_BP
        &&& self.buyside_creator_royalty_bp <= MAX_BP
        &&& forall|i: int|
            0 <= i < ALLOWLIST_MAX_LEN ==> self.allowlists@[i].is_empty()
                || self.allowlists@[i].valid()
    }

    /// Tells whether the record is acceptable. A caller checks this before
    /// it commits a new or changed pool.
    pub fn is_well_formed(&self) -> (r: bool)
        ensures
            r == self.well_formed(),
    {
        if self.curve_type != CURVE_KIND_LINEAR && self.curve_type != CURVE_KIND_EXP {
            return false;
        }
        if self.lp_fee_bp > MAX_BP || self.buyside_creator_royalty_bp > MAX_BP {
            return false;
        }
        let mut i: usize = 0;
        while i < ALLOWLIST_MAX_LEN
            invariant
                i <= ALLOWLIST_MAX_LEN,
                forall|j: int|
                    0 <= j < i ==> self.allowlists@[j].is_empty() || self.allowlists@[j].valid(),
            decreases ALLOWLIST_MAX_LEN - i,
        {
            if !self.allowlists[i].is_empty() && !self.allowlists[i].valid() {
                return false;
            }
            i += 1;
        }
        true
    }

    /// The record whose every field is zero: no price, no assets, no owner,
    /// six vacant slots.
    pub open spec fn zeroed() -> Pool {
        Pool {
            spot_price: 0,
            curve_type: 0,
            curve_delta: 0,
            reinvest_fulfill_buy: false,
            reinvest_fulfill_sell: false,
            expiry: 0,
            lp_fee_bp: 0,
            referral: Identifier::zero(),
            referral_bp: 0,
            buyside_creator_royalty_bp: 0,
            cosigner_annotation: vstd::array::spec_array_fill_for_copy_type::<u8, 32>(0u8),
            sellside_asset_amount: 0,
            lp_fee_earned: 0,
            owner: Identifier::zero(),
            cosigner: Identifier::zero(),
            uuid: Identifier::zero(),
            payment_mint: Identifier::zero(),
            allowlists: vstd::array::spec_array_fill_for_copy_type::<Allowlist, ALLOWLIST_MAX_LEN>(
                Allowlist::vacant(),
            ),
            buyside_payment_amount: 0,
            shared_escrow_account: Identifier::zero(),
            shared_escrow_count: 0,
        }
    }

    /// A pool draws on a shared escrow exactly when its shared escrow account
    /// is not the zero identifier; the zeroed pool draws on none.
    pub proof fn lemma_using_shared_escrow(pool: Pool)
        ensures
            pool.using_shared_escrow() <==> pool.shared_escrow_account != Identifier::zero(),
            !Pool::zeroed().using_shared_escrow(),
    {
    }

    /// The zeroed pool is acceptable.
    pub proof fn lemma_zeroed_well_formed()
        ensures
            Pool::zeroed().well_formed(),
    {
    }

    /// The bytes of the fields that the owner configures.
    pub open spec fn config_encoding(self) -> Seq<u8> {
        u64_bytes(self.spot_price) + seq![self.curve_type] + u64_bytes(self.curve_delta)
            + bool_bytes(self.reinvest_fulfill_buy) + bool_bytes(self.reinvest_fulfill_sell)
            + i64_bytes(self.expiry) + u16_bytes(self.lp_fee_bp) + self.referral@ + u16_bytes(
            self.referral_bp,
        ) + u16_bytes(self.buyside_creator_royalty_bp) + self.cosigner_annotation@
    }

    /// The bytes of the fields that fulfilled orders change.
    pub open spec fn accounting_encoding(self) -> Seq<u8> {
        u64_bytes(self.sellside_asset_amount) + u64_bytes(self.lp_fee_earned)
    }

    /// The bytes of the fields that are fixed when the pool is created.
    pub open spec fn identity_encoding(self) -> Seq<u8> {
        self.owner@ + self.cosigner@ + self.uuid@ + self.payment_mint@
            + Allowlist::encoding_of_all(self.allowlists@) + u64_bytes(
            self.buyside_payment_amount,
        )
    }

    /// The bytes of the fields that link the pool to a shared escrow.
    pub open spec fn escrow_encoding(self) -> Seq<u8> {
        self.shared_escrow_account@ + u64_bytes(self.shared_escrow_count)
    }

    /// The bytes of the tag and the fields, in the order of the declaration.
    pub open spec fn encoding(self) -> Seq<u8> {
        POOL_DISCRIMINATOR@ + self.config_encoding() + self.accounting_encoding()
            + self.identity_encoding() + self.escrow_encoding()
    }

    /// The allowlist entry that the bytes of a record hold in slot `i`.
    pub open spec fn decoding_of_slot(bytes: Seq<u8>, i: int) -> Allowlist {
        Allowlist::decoding(bytes.subrange(249 + 33 * i, 249 + 33 * i + 33))
    }

    /// What a reader makes of `bytes`: the record whose tag and fields they
    /// begin with, whatever follows.
    pub open spec fn decoding(bytes: Seq<u8>) -> Result<Pool, RecordError> {
        if bytes.len() < 8 {
            Err(RecordError::DiscriminatorNotFound)
        } else if bytes.subrange(0, 8) != POOL_DISCRIMINATOR@ {
            Err(RecordError::DiscriminatorMismatch)
        } else if bytes.len() < 495 || bool_value(bytes[25]) is None || bool_value(bytes[26])
            is None {
            Err(RecordError::DidNotDeserialize)
        } else {
            Ok(
                Pool {
                    spot_price: u64_value(bytes.subrange(8, 16)),
                    curve_type: bytes[16],
                    curve_delta: u64_value(bytes.subrange(17, 25)),
                    reinvest_fulfill_buy: bool_value(bytes[25])->0,
                    reinvest_fulfill_sell: bool_value(bytes[26])->0,
                    expiry: i64_value(bytes.subrange(27, 35)),
                    lp_fee_bp: u16_value(bytes.subrange(35, 37)),
                    referral: Identifier::from_seq(bytes.subrange(37, 69)),
                    referral_bp: u16_value(bytes.subrange(69, 71)),
                    buyside_creator_royalty_bp: u16_value(bytes.subrange(71, 73)),
                    cosigner_annotation: bytes32_of(bytes.subrange(73, 105)),
                    sellside_asset_amount: u64_value(bytes.subrange(105, 113)),
                    lp_fee_earned: u64_value(bytes.subrange(113, 121)),
                    owner: Identifier::from_seq(bytes.subrange(121, 153)),
                    cosigner: Identifier::from_seq(bytes.subrange(153, 185)),
                    uuid: Identifier::from_seq(bytes.subrange(185, 217)),
                    payment_mint: Identifier::from_seq(bytes.subrange(217, 249)),
                    allowlists: [
                        Self::decoding_of_slot(bytes, 0),
                        Self::decoding_of_slot(bytes, 1),
                        Self::decoding_of_slot(bytes, 2),
                        Self::decoding_of_slot(bytes, 3),
                        Self::decoding_of_slot(bytes, 4),
                        Self::decoding_of_slot(bytes, 5),
                    ],
                    buyside_payment_amount: u64_value(bytes.subrange(447, 455)),
                    shared_escrow_account: Identifier::from_seq(bytes.subrange(455, 487)),
                    shared_escrow_count: u64_value(bytes.subrange(487, 495)),
                },
            )
        }
    }

    /// The width of each group of fields.
    pub proof fn lemma_group_lens(self)
        ensures
            self.config_encoding().len() == 97,
            self.accounting_encoding().len() == 16,
            self.identity_encoding().len() == 334,
            self.escrow_encoding().len() == 40,
    {
        lemma_le_bytes_len(self.spot_price as nat, 8);
        lemma_le_bytes_len(self.curve_delta as nat, 8);
        lemma_le_bytes_len(twos_complement(self.expiry), 8);
        lemma_le_bytes_len(self.lp_fee_bp as nat, 2);
        lemma_le_bytes_len(self.referral_bp as nat, 2);
        lemma_le_bytes_len(self.buyside_creator_royalty_bp as nat, 2);
        lemma_le_bytes_len(self.sellside_asset_amount as nat, 8);
        lemma_le_bytes_len(self.lp_fee_earned as nat, 8);
        lemma_le_bytes_len(self.buyside_payment_amount as nat, 8);
        lemma_le_bytes_len(self.shared_escrow_count as nat, 8);
        Allowlist::lemma_encoding_of_all_len(self.allowlists@);
    }

    /// The tag, the fields at their widths and the padding add up to `LEN`.
    pub proof fn lemma_encoding_len(self)
        ensures
            self.encoding().len() + Self::PADDING == Self::LEN,
    {
        self.lemma_group_lens();
    }

    /// Appends the fields that the owner configures.
    fn write_config(&self, out: &mut Vec<u8>)
        ensures
            final(out)@ == old(out)@ + self.config_encoding(),
    {
        let ghost start = out@;
        write_u64(out, self.spot_price);
        out.push(self.curve_type);
        write_u64(out, self.curve_delta);
        write_bool(out, self.reinvest_fulfill_buy);
        write_bool(out, self.reinvest_fulfill_sell);
        write_i64(out, self.expiry);
        write_u16(out, self.lp_fee_bp);
        write_bytes(out, &self.referral.bytes);
        write_u16(out, self.referral_bp);
        write_u16(out, self.buyside_creator_royalty_bp);
        write_bytes(out, &self.cosigner_annotation);
        proof {
            assert(out@ =~= start + self.config_encoding());
        }
    }

    /// Appends the fields that are fixed when the pool is created.
    fn write_identity(&self, out: &mut Vec<u8>)
        ensures
            final(out)@ == old(out)@ + self.identity_encoding(),
    {
        let ghost start = out@;
        write_bytes(out, &self.owner.bytes);
        write_bytes(out, &self.cosigner.bytes);
        write_bytes(out, &self.uuid.bytes);
        write_bytes(out, &self.payment_mint.bytes);
        let ghost before = out@;
        let mut i: usize = 0;
        while i < ALLOWLIST_MAX_LEN
            invariant
                i <= ALLOWLIST_MAX_LEN,
                out@ == before + Allowlist::encoding_of_all(self.allowlists@.take(i as int)),
            decreases ALLOWLIST_MAX_LEN - i,
        {
            proof {
                let next = self.allowlists@.take(i + 1);
                assert(next.drop_last() =~= self.allowlists@.take(i as int));
                assert(out@ + self.allowlists@[i as int].encoding() =~= before
                    + Allowlist::encoding_of_all(next));
            }
            self.allowlists[i].write(out);
            i += 1;
        }
        proof {
            assert(self.allowlists@.take(i as int) =~= self.allowlists@);
        }
        write_u64(out, self.buyside_payment_amount);
        proof {
            assert(out@ =~= start + self.identity_encoding());
        }
    }

    /// Writes the record as it is first stored: tag, fields, and padding of
    /// zero bytes up to `LEN`.
    pub fn serialize(&self) -> (bytes: Vec<u8>)
        ensures
            bytes@ == self.encoding() + Seq::new(Self::PADDING as nat, |i: int| 0u8),
            bytes@.len() == Self::LEN,
    {
        let mut bytes: Vec<u8> = Vec::new();
        write_bytes(&mut bytes, &POOL_DISCRIMINATOR);
        self.write_config(&mut bytes);
        write_u64(&mut bytes, self.sellside_asset_amount);
        write_u64(&mut bytes, self.lp_fee_earned);
        self.write_identity(&mut bytes);
        write_bytes(&mut bytes, &self.shared_escrow_account.bytes);
        write_u64(&mut bytes, self.shared_escrow_count);
        proof {
            assert(bytes@ =~= self.encoding());
            self.lemma_encoding_len();
        }
        write_zeros(&mut bytes, Self::PADDING);
        bytes
    }

    /// Reads a record from `data`. Bytes behind the fields are not looked at.
    pub fn deserialize(data: &[u8]) -> (r: Result<Pool, RecordError>)
        ensures
            r == Self::decoding(data@),
    {
        if data.len() < 8 {
            return Err(RecordError::DiscriminatorNotFound);
        }
        if !has_tag(data, &POOL_DISCRIMINATOR) {
            return Err(RecordError::DiscriminatorMismatch);
        }
        if data.len() < 495 {
            return Err(RecordError::DidNotDeserialize);
        }
        let reinvest_fulfill_buy: bool = match read_bool(data, 25) {
            Some(b) => b,
            None => { return Err(RecordError::DidNotDeserialize); },
        };
        let reinvest_fulfill_sell: bool = match read_bool(data, 26) {
            Some(b) => b,
            None => { return Err(RecordError::DidNotDeserialize); },
        };
        let mut allowlists: [Allowlist; ALLOWLIST_MAX_LEN] = [Allowlist::default();
            ALLOWLIST_MAX_LEN];
        let mut i: usize = 0;
        while i < ALLOWLIST_MAX_LEN
            invariant
                i <= ALLOWLIST_MAX_LEN,
                data.len() >= 495,
                forall|j: int| 0 <= j < i ==> allowlists@[j] == Self::decoding_of_slot(data@, j),
            decreases ALLOWLIST_MAX_LEN - i,
        {
            allowlists[i] = Allowlist::read(data, 249 + 33 * i);
            i += 1;
        }
        let pool = Pool {
            spot_price: read_u64(data, 8),
            curve_type: data[16],
            curve_delta: read_u64(data, 17),
            reinvest_fulfill_buy,
            reinvest_fulfill_sell,
            expiry: read_i64(data, 27),
            lp_fee_bp: read_u16(data, 35),
            referral: Identifier::read(data, 37),
            referral_bp: read_u16(data, 69),
            buyside_creator_royalty_bp: read_u16(data, 71),
            cosigner_annotation: read_bytes32(data, 73),
            sellside_asset_amount: read_u64(data, 105),
            lp_fee_earned: read_u64(data, 113),
            owner: Identifier::read(data, 121),
            cosigner: Identifier::read(data, 153),
            uuid: Identifier::read(data, 185),
            payment_mint: Identifier::read(data, 217),
            allowlists,
            buyside_payment_amount: read_u64(data, 447),
            shared_escrow_account: Identifier::read(data, 455),
            shared_escrow_count: read_u64(data, 487),
        };
        proof {
            assert(pool.allowlists =~= Self::decoding(data@)->Ok_0.allowlists);
        }
        Ok(pool)
    }

    /// Every field stands at its place in the bytes of the record.
    proof fn lemma_config_layout(self)
        ensures
            ({
                let c = self.config_encoding();
                &&& c.len() == 97
                &&& c.subrange(0, 8) == u64_bytes(self.spot_price)
                &&& c[8] == self.curve_type
                &&& c.subrange(9, 17) == u64_bytes(self.curve_delta)
                &&& c[17] == bool_bytes(self.reinvest_fulfill_buy)[0]
                &&& c[18] == bool_bytes(self.reinvest_fulfill_sell)[0]
                &&& c.subrange(19, 27) == i64_bytes(self.expiry)
                &&& c.subrange(27, 29) == u16_bytes(self.lp_fee_bp)
                &&& c.subrange(29, 61) == self.referral@
                &&& c.subrange(61, 63) == u16_bytes(self.referral_bp)
                &&& c.subrange(63, 65) == u16_bytes(self.buyside_creator_royalty_bp)
                &&& c.subrange(65, 97) == self.cosigner_annotation@
            }),
    {
        self.lemma_group_lens();
        let c = self.config_encoding();
        lemma_le_bytes_len(self.spot_price as nat, 8);
        lemma_le_bytes_len(self.curve_delta as nat, 8);
        lemma_le_bytes_len(twos_complement(self.expiry), 8);
        lemma_le_bytes_len(self.lp_fee_bp as nat, 2);
        lemma_le_bytes_len(self.referral_bp as nat, 2);
        lemma_le_bytes_len(self.buyside_creator_royalty_bp as nat, 2);
        assert(c.subrange(0, 8) =~= u64_bytes(self.spot_price));
        assert(c.subrange(9, 17) =~= u64_bytes(self.curve_delta));
        assert(c.subrange(19, 27) =~= i64_bytes(self.expiry));
        assert(c.subrange(27, 29) =~= u16_bytes(self.lp_fee_bp));
        assert(c.subrange(29, 61) =~= self.referral@);
        assert(c.subrange(61, 63) =~= u16_bytes(self.referral_bp));
        assert(c.subrange(63, 65) =~= u16_bytes(self.buyside_creator_royalty_bp));
        assert(c.subrange(65, 97) =~= self.cosigner_annotation@);
    }

    /// Every field stands at its place in the bytes of the record.
    proof fn lemma_identity_layout(self)
        ensures
            ({
                let c = self.identity_encoding();
                &&& c.len() == 334
                &&& c.subrange(0, 32) == self.owner@
                &&& c.subrange(32, 64) == self.cosigner@
                &&& c.subrange(64, 96) == self.uuid@
                &&& c.subrange(96, 128) == self.payment_mint@
                &&& c.subrange(128, 326) == Allowlist::encoding_of_all(self.allowlists@)
                &&& c.subrange(326, 334) == u64_bytes(self.buyside_payment_amount)
            }),
    {
        self.lemma_group_lens();
        let c = self.identity_encoding();
        lemma_le_bytes_len(self.buyside_payment_amount as nat, 8);
        Allowlist::lemma_encoding_of_all_len(self.allowlists@);
        assert(c.subrange(0, 32) =~= self.owner@);
        assert(c.subrange(32, 64) =~= self.cosigner@);
        assert(c.subrange(64, 96) =~= self.uuid@);
        assert(c.subrange(96, 128) =~= self.payment_mint@);
        assert(c.subrange(128, 326) =~= Allowlist::encoding_of_all(self.allowlists@));
        assert(c.subrange(326, 334) =~= u64_bytes(self.buyside_payment_amount));
    }

    /// Every group of fields stands at its place in the bytes of the record.
    proof fn lemma_group_layout(self, tail: Seq<u8>)
        ensures
            ({
                let bytes = self.encoding() + tail;
                &&& bytes.len() >= 495
                &&& bytes.subrange(0, 8) == POOL_DISCRIMINATOR@
                &&& bytes.subrange(8, 105) == self.config_encoding()
                &&& bytes.subrange(105, 121) == self.accounting_encoding()
                &&& bytes.subrange(121, 455) == self.identity_encoding()
                &&& bytes.subrange(455, 495) == self.escrow_encoding()
            }),
    {
        self.lemma_group_lens();
        let bytes = self.encoding() + tail;
        assert(bytes.subrange(0, 8) =~= POOL_DISCRIMINATOR@);
        assert(bytes.subrange(8, 105) =~= self.config_encoding());
        assert(bytes.subrange(105, 121) =~= self.accounting_encoding());
        assert(bytes.subrange(121, 455) =~= self.identity_encoding());
        assert(bytes.subrange(455, 495) =~= self.escrow_encoding());
    }

    /// `bytes` hold the tag and every field of `pool` at its place.
    #[verifier::opaque]
    spec fn laid_out(bytes: Seq<u8>, pool: Pool) -> bool {
        &&& bytes.len() >= 495
        &&& bytes.subrange(0, 8) == POOL_DISCRIMINATOR@
        &&& bytes.subrange(8, 16) == u64_bytes(pool.spot_price)
        &&& bytes[16] == pool.curve_type
        &&& bytes.subrange(17, 25) == u64_bytes(pool.curve_delta)
        &&& bytes[25] == bool_bytes(pool.reinvest_fulfill_buy)[0]
        &&& bytes[26] == bool_bytes(pool.reinvest_fulfill_sell)[0]
        &&& bytes.subrange(27, 35) == i64_bytes(pool.expiry)
        &&& bytes.subrange(35, 37) == u16_bytes(pool.lp_fee_bp)
        &&& bytes.subrange(37, 69) == pool.referral@
        &&& bytes.subrange(69, 71) == u16_bytes(pool.referral_bp)
        &&& bytes.subrange(71, 73) == u16_bytes(pool.buyside_creator_royalty_bp)
        &&& bytes.subrange(73, 105) == pool.cosigner_annotation@
        &&& bytes.subrange(105, 113) == u64_bytes(pool.sellside_asset_amount)
        &&& bytes.subrange(113, 121) == u64_bytes(pool.lp_fee_earned)
        &&& bytes.subrange(121, 153) == pool.owner@
        &&& bytes.subrange(153, 185) == pool.cosigner@
        &&& bytes.subrange(185, 217) == pool.uuid@
        &&& bytes.subrange(217, 249) == pool.payment_mint@
        &&& bytes.subrange(249, 447) == Allowlist::encoding_of_all(pool.allowlists@)
        &&& bytes.subrange(447, 455) == u64_bytes(pool.buyside_payment_amount)
        &&& bytes.subrange(455, 487) == pool.shared_escrow_account@
        &&& bytes.subrange(487, 495) == u64_bytes(pool.shared_escrow_count)
    }

    /// The bytes of a record, whatever follows them, hold every field at its
    /// place.
    proof fn lemma_encoding_laid_out(self, tail: Seq<u8>)
        ensures
            Self::laid_out(self.encoding() + tail, self),
    {
        reveal(Pool::laid_out);
        let bytes = self.encoding() + tail;
        self.lemma_group_layout(tail);
        self.lemma_config_layout();
        self.lemma_identity_layout();
        let config = bytes.subrange(8, 105);
        let accounting = bytes.subrange(105, 121);
        let identity = bytes.subrange(121, 455);
        let escrow = bytes.subrange(455, 495);
        lemma_u64_round_trip(self.sellside_asset_amount);
        lemma_u64_round_trip(self.lp_fee_earned);
        lemma_u64_round_trip(self.shared_escrow_count);
        assert(bytes.subrange(8, 16) =~= config.subrange(0, 8));
        assert(bytes[16] == config[8]);
        assert(bytes.subrange(17, 25) =~= config.subrange(9, 17));
        assert(bytes[25] == config[17]);
        assert(bytes[26] == config[18]);
        assert(bytes.subrange(27, 35) =~= config.subrange(19, 27));
        assert(bytes.subrange(35, 37) =~= config.subrange(27, 29));
        assert(bytes.subrange(37, 69) =~= config.subrange(29, 61));
        assert(bytes.subrange(69, 71) =~= config.subrange(61, 63));
        assert(bytes.subrange(71, 73) =~= config.subrange(63, 65));
        assert(bytes.subrange(73, 105) =~= config.subrange(65, 97));
        assert(bytes.subrange(105, 113) =~= accounting.subrange(0, 8));
        assert(bytes.subrange(113, 121) =~= accounting.subrange(8, 16));
        assert(accounting.subrange(0, 8) =~= u64_bytes(self.sellside_asset_amount));
        assert(accounting.subrange(8, 16) =~= u64_bytes(self.lp_fee_earned));
        assert(bytes.subrange(121, 153) =~= identity.subrange(0, 32));
        assert(bytes.subrange(153, 185) =~= identity.subrange(32, 64));
        assert(bytes.subrange(185, 217) =~= identity.subrange(64, 96));
        assert(bytes.subrange(217, 249) =~= identity.subrange(96, 128));
        assert(bytes.subrange(249, 447) =~= identity.subrange(128, 326));
        assert(bytes.subrange(447, 455) =~= identity.subrange(326, 334));
        assert(bytes.subrange(455, 487) =~= escrow.subrange(0, 32));
        assert(bytes.subrange(487, 495) =~= escrow.subrange(32, 40));
        assert(escrow.subrange(0, 32) =~= self.shared_escrow_account@);
        assert(escrow.subrange(32, 40) =~= u64_bytes(self.shared_escrow_count));
    }

    /// Every allowlist entry is read from its slot as it was written.
    proof fn lemma_slot_laid_out(bytes: Seq<u8>, pool: Pool, i: int)
        requires
            Self::laid_out(bytes, pool),
            0 <= i < ALLOWLIST_MAX_LEN,
        ensures
            Self::decoding_of_slot(bytes, i) == pool.allowlists@[i],
    {
        reveal(Pool::laid_out);
        Allowlist::lemma_encoding_of_all_entry(pool.allowlists@, i);
        pool.allowlists@[i].lemma_round_trip();
        assert(bytes.subrange(249 + 33 * i, 249 + 33 * i + 33) =~= bytes.subrange(
            249,
            447,
        ).subrange(33 * i, 33 * i + 33));
    }

    /// Bytes that hold every field of a record at its place are read as that
    /// record.
    proof fn lemma_laid_out_decoding(bytes: Seq<u8>, pool: Pool)
        requires
            Self::laid_out(bytes, pool),
        ensures
            Self::decoding(bytes) == Ok::<Pool, RecordError>(pool),
    {
        Self::lemma_slot_laid_out(bytes, pool, 0);
        Self::lemma_slot_laid_out(bytes, pool, 1);
        Self::lemma_slot_laid_out(bytes, pool, 2);
        Self::lemma_slot_laid_out(bytes, pool, 3);
        Self::lemma_slot_laid_out(bytes, pool, 4);
        Self::lemma_slot_laid_out(bytes, pool, 5);
        reveal(Pool::laid_out);
        lemma_u64_round_trip(pool.spot_price);
        lemma_u64_round_trip(pool.curve_delta);
        lemma_bool_round_trip(pool.reinvest_fulfill_buy);
        lemma_bool_round_trip(pool.reinvest_fulfill_sell);
        lemma_i64_round_trip(pool.expiry);
        lemma_u16_round_trip(pool.lp_fee_bp);
        lemma_u16_round_trip(pool.referral_bp);
        lemma_u16_round_trip(pool.buyside_creator_royalty_bp);
        lemma_u64_round_trip(pool.sellside_asset_amount);
        lemma_u64_round_trip(pool.lp_fee_earned);
        lemma_u64_round_trip(pool.buyside_payment_amount);
        lemma_u64_round_trip(pool.shared_escrow_count);
        lemma_bytes32_of(pool.referral.bytes, pool.referral@);
        lemma_bytes32_of(pool.cosigner_annotation, pool.cosigner_annotation@);
        lemma_bytes32_of(pool.owner.bytes, pool.owner@);
        lemma_bytes32_of(pool.cosigner.bytes, pool.cosigner@);
        lemma_bytes32_of(pool.uuid.bytes, pool.uuid@);
        lemma_bytes32_of(pool.payment_mint.bytes, pool.payment_mint@);
        lemma_bytes32_of(pool.shared_escrow_account.bytes, pool.shared_escrow_account@);
        let read = Self::decoding(bytes)->Ok_0;
        assert(read.allowlists =~= pool.allowlists);
    }

    /// Bytes that are read as a record hold every field of it at its place.
    proof fn lemma_decoding_laid_out(bytes: Seq<u8>, pool: Pool)
        requires
            Self::decoding(bytes) == Ok::<Pool, RecordError>(pool),
        ensures
            Self::laid_out(bytes, pool),
    {
        reveal(Pool::laid_out);
        lemma_u64_bytes_of_value(bytes.subrange(8, 16));
        lemma_u64_bytes_of_value(bytes.subrange(17, 25));
        lemma_bool_bytes_of_value(bytes[25]);
        lemma_bool_bytes_of_value(bytes[26]);
        lemma_i64_bytes_of_value(bytes.subrange(27, 35));
        lemma_u16_bytes_of_value(bytes.subrange(35, 37));
        lemma_u16_bytes_of_value(bytes.subrange(69, 71));
        lemma_u16_bytes_of_value(bytes.subrange(71, 73));
        lemma_u64_bytes_of_value(bytes.subrange(105, 113));
        lemma_u64_bytes_of_value(bytes.subrange(113, 121));
        lemma_u64_bytes_of_value(bytes.subrange(447, 455));
        lemma_u64_bytes_of_value(bytes.subrange(487, 495));
        lemma_bytes32_of(pool.referral.bytes, bytes.subrange(37, 69));
        lemma_bytes32_of(pool.cosigner_annotation, bytes.subrange(73, 105));
        lemma_bytes32_of(pool.owner.bytes, bytes.subrange(121, 153));
        lemma_bytes32_of(pool.cosigner.bytes, bytes.subrange(153, 185));
        lemma_bytes32_of(pool.uuid.bytes, bytes.subrange(185, 217));
        lemma_bytes32_of(pool.payment_mint.bytes, bytes.subrange(217, 249));
        lemma_bytes32_of(pool.shared_escrow_account.bytes, bytes.subrange(455, 487));
        let region = bytes.subrange(249, 447);
        assert forall|i: int| 0 <= i < pool.allowlists@.len() implies region.subrange(
            33 * i,
            33 * i + 33,
        ) == #[trigger] pool.allowlists@[i].encoding() by {
            let slot = bytes.subrange(249 + 33 * i, 249 + 33 * i + 33);
            assert(pool.allowlists@[i] == Self::decoding_of_slot(bytes, i));
            Allowlist::lemma_encoding_of_decoding(slot);
            assert(region.subrange(33 * i, 33 * i + 33) =~= slot);
        }
        Allowlist::lemma_encoding_of_all_from_entries(pool.allowlists@, region);
    }

    /// Bytes that hold every field of a record at its place begin with the
    /// bytes of that record.
    proof fn lemma_laid_out_is_prefix(bytes: Seq<u8>, pool: Pool)
        requires
            Self::laid_out(bytes, pool),
        ensures
            bytes.len() >= 495,
            bytes.subrange(0, 495) == pool.encoding(),
    {
        reveal(Pool::laid_out);
        pool.lemma_group_lens();
        assert(bytes.subrange(8, 105) =~= pool.config_encoding()) by {
            assert(bool_bytes(pool.reinvest_fulfill_buy) =~= seq![bytes[25]]);
            assert(bool_bytes(pool.reinvest_fulfill_sell) =~= seq![bytes[26]]);
            assert(bytes.subrange(8, 105) =~= bytes.subrange(8, 16) + seq![bytes[16]]
                + bytes.subrange(17, 25) + seq![bytes[25]] + seq![bytes[26]] + bytes.subrange(
                27,
                35,
            ) + bytes.subrange(35, 37) + bytes.subrange(37, 69) + bytes.subrange(69, 71)
                + bytes.subrange(71, 73) + bytes.subrange(73, 105));
        }
        assert(bytes.subrange(105, 121) =~= pool.accounting_encoding()) by {
            assert(bytes.subrange(105, 121) =~= bytes.subrange(105, 113) + bytes.subrange(
                113,
                121,
            ));
        }
        assert(bytes.subrange(121, 455) =~= pool.identity_encoding()) by {
            assert(bytes.subrange(121, 455) =~= bytes.subrange(121, 153) + bytes.subrange(
                153,
                185,
            ) + bytes.subrange(185, 217) + bytes.subrange(217, 249) + bytes.subrange(249, 447)
                + bytes.subrange(447, 455));
        }
        assert(bytes.subrange(455, 495) =~= pool.escrow_encoding()) by {
            assert(bytes.subrange(455, 495) =~= bytes.subrange(455, 487) + bytes.subrange(
                487,
                495,
            ));
        }
        assert(bytes.subrange(0, 495) =~= bytes.subrange(0, 8) + bytes.subrange(8, 105)
            + bytes.subrange(105, 121) + bytes.subrange(121, 455) + bytes.subrange(455, 495));
    }

    /// Bytes are read as a record only if they begin with the bytes of that
    /// record.
    pub proof fn lemma_decoding_is_prefix(bytes: Seq<u8>, pool: Pool)
        requires
            Self::decoding(bytes) == Ok::<Pool, RecordError>(pool),
        ensures
            bytes.len() >= pool.encoding().len(),
            bytes.subrange(0, pool.encoding().len() as int) == pool.encoding(),
    {
        Self::lemma_decoding_laid_out(bytes, pool);
        Self::lemma_laid_out_is_prefix(bytes, pool);
        pool.lemma_encoding_len();
    }

    /// A record that is written and read again comes back with every field
    /// as it was, whatever bytes stand behind the fields.
    pub proof fn lemma_round_trip(self, tail: Seq<u8>)
        ensures
            Self::decoding(self.encoding() + tail) == Ok::<Pool, RecordError>(self),
    {
        self.lemma_encoding_laid_out(tail);
        Self::lemma_laid_out_decoding(self.encoding() + tail, self);
    }
}

impl Default for Pool {
    /// The zeroed pool.
    fn default() -> (pool: Pool)
        ensures
            pool == Pool::zeroed(),
    {
        Pool {
            spot_price: 0,
            curve_type: 0,
            curve_delta: 0,
            reinvest_fulfill_buy: false,
            reinvest_fulfill_sell: false,
            expiry: 0,
            lp_fee_bp: 0,
            referral: Identifier::zero(),
            referral_bp: 0,
            buyside_creator_royalty_bp: 0,
            cosigner_annotation: [0u8; 32],
            sellside_asset_amount: 0,
            lp_fee_earned: 0,
            owner: Identifier::zero(),
            cosigner: Identifier::zero(),
            uuid: Identifier::zero(),
            payment_mint: Identifier::zero(),
            allowlists: [Allowlist::default(); ALLOWLIST_MAX_LEN],
            buyside_payment_amount: 0,
            shared_escrow_account: Identifier::zero(),
            shared_escrow_count: 0,
        }
    }
}

} // verus!
