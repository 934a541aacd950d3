use crate::codec::{lemma_bytes32_of, write_bytes};
use crate::identifier::Identifier;
use vstd::prelude::*;

verus! {

/// A vacant slot: the entry admits nothing and its value is ignored.
pub const ALLOWLIST_KIND_EMPTY: u8 = 0;

/// The value is the first verified creator of the admitted assets.
pub const ALLOWLIST_KIND_FVCA: u8 = 1;

/// The value is the one asset that is admitted.
pub const ALLOWLIST_KIND_MINT: u8 = 2;

/// The value is the verified collection of the admitted assets.
pub const ALLOWLIST_KIND_MCC: u8 = 3;

/// The value is matched against the metadata of the asset.
pub const ALLOWLIST_KIND_METADATA: u8 = 4;

/// The value is the group that the admitted assets belong to.
pub const ALLOWLIST_KIND_GROUP: u8 = 5;

/// The value is the authority of a collection kept by a foreign registry.
pub const ALLOWLIST_KIND_MPL_CORE_COLLECTION: u8 = 6;

/// Every asset is admitted and the value is ignored. A pool that uses this
/// kind has to rely on its cosigner to judge the asset.
pub const ALLOWLIST_KIND_ANY: u8 = 255;

/// One admission rule of a pool: a kind tag and the identifier that the kind
/// compares an asset against.
#[derive(Clone, Copy, Debug, PartialEq, Eq)]
pub struct Allowlist {
    pub kind: u8,
    pub value: Identifier,
}

impl Allowlist {
    /// The length of an entry in a record: the kind and the value.
    pub const LEN: usize = 1 + 32;

    /// The kinds that compare an asset against `value`, which therefore has to
    /// be set.
    pub open spec fn kind_reads_value(kind: u8) -> bool {
        ALLOWLIST_KIND_FVCA <= kind <= ALLOWLIST_KIND_MPL_CORE_COLLECTION
    }

    /// The entry is acceptable: its kind is `Empty` or `Any`, or it is one of
    /// the kinds that read the value and the value is set. The kinds between
    /// the last of those and `Any` are reserved and never acceptable.
    pub open spec fn valid_spec(&self) -> bool {
        ||| self.kind == ALLOWLIST_KIND_EMPTY
        ||| self.kind == ALLOWLIST_KIND_ANY
        ||| Self::kind_reads_value(self.kind) && self.value != Identifier::zero()
    }

    /// The vacant slot with the zero identifier.
    pub open spec fn vacant() -> Allowlist {
        Allowlist { kind: ALLOWLIST_KIND_EMPTY, value: Identifier::zero() }
    }

    /// The slot is vacant.
    pub open spec fn is_empty_spec(&self) -> bool {
        self.kind == ALLOWLIST_KIND_EMPTY
    }

    /// Tells whether the entry is acceptable in a pool.
    #[verifier::when_used_as_spec(valid_spec)]
    pub fn valid(&self) -> (r: bool)
        ensures
            r == self.valid_spec(),
    {
        if self.kind > ALLOWLIST_KIND_MPL_CORE_COLLECTION && self.kind != ALLOWLIST_KIND_ANY {
            return false;
        }
        if self.kind != ALLOWLIST_KIND_EMPTY && self.kind != ALLOWLIST_KIND_ANY {
            return self.value != Identifier::default();
        }
        true
    }

    /// Tells whether the slot is vacant, so that a reader of a pool's fixed
    /// array of entries can skip it.
    #[verifier::when_used_as_spec(is_empty_spec)]
    pub fn is_empty(&self) -> (r: bool)
        ensures
            r == self.is_empty_spec(),
    {
        self.kind == ALLOWLIST_KIND_EMPTY
    }

    /// The bytes of the entry in a record: the kind, then the value.
    pub open spec fn encoding(self) -> Seq<u8> {
        seq![self.kind] + self.value@
    }

    /// The entry that the first 33 of `bytes` hold.
    pub open spec fn decoding(bytes: Seq<u8>) -> Allowlist {
        Allowlist { kind: bytes[0], value: Identifier::from_seq(bytes.subrange(1, 33)) }
    }

    /// The bytes of `entries`, one entry after the other.
    pub open spec fn encoding_of_all(entries: Seq<Allowlist>) -> Seq<u8>
        decreases entries.len(),
    {
        if entries.len() == 0 {
            Seq::empty()
        } else {
            Self::encoding_of_all(entries.drop_last()) + entries.last().encoding()
        }
    }

    /// Appends the bytes of the entry to `out`.
    pub fn write(&self, out: &mut Vec<u8>)
        ensures
            final(out)@ == old(out)@ + self.encoding(),
    {
        proof {
            assert(out@.push(self.kind) + self.value@ =~= out@ + self.encoding());
        }
        out.push(self.kind);
        write_bytes(out, &self.value.bytes);
    }

    /// Reads the entry that the 33 bytes of `data` from `at` on hold.
    pub fn read(data: &[u8], at: usize) -> (entry: Allowlist)
        requires
            at + 33 <= data.len(),
        ensures
            entry == Self::decoding(data@.subrange(at as int, at + 33)),
    {
        proof {
            assert(data@.subrange(at as int, at + 33).subrange(1, 33) =~= data@.subrange(
                at + 1,
                at + 33,
            ));
        }
        Allowlist { kind: data[at], value: Identifier::read(data, at + 1) }
    }

    /// An entry is read back from its bytes as it was.
    pub proof fn lemma_round_trip(self)
        ensures
            self.encoding().len() == Self::LEN,
            Self::decoding(self.encoding()) == self,
    {
        assert(self.encoding().subrange(1, 33) =~= self.value@);
        lemma_bytes32_of(self.value.bytes, self.value@);
    }

    /// Several entries take 33 bytes each.
    pub proof fn lemma_encoding_of_all_len(entries: Seq<Allowlist>)
        ensures
            Self::encoding_of_all(entries).len() == 33 * entries.len(),
        decreases entries.len(),
    {
        if entries.len() > 0 {
            Self::lemma_encoding_of_all_len(entries.drop_last());
            entries.last().lemma_round_trip();
        }
    }

    /// In the bytes of several entries each entry stands at its place, 33
    /// bytes after the one before.
    pub proof fn lemma_encoding_of_all_entry(entries: Seq<Allowlist>, i: int)
        requires
            0 <= i < entries.len(),
        ensures
            Self::encoding_of_all(entries).subrange(33 * i, 33 * i + 33) == entries[i].encoding(),
        decreases entries.len(),
    {
        let front = entries.drop_last();
        let all = Self::encoding_of_all(entries);
        Self::lemma_encoding_of_all_len(front);
        entries.last().lemma_round_trip();
        if i < front.len() {
            Self::lemma_encoding_of_all_entry(front, i);
            assert(all.subrange(33 * i, 33 * i + 33) =~= Self::encoding_of_all(front).subrange(
                33 * i,
                33 * i + 33,
            ));
        } else {
            assert(all.subrange(33 * i, 33 * i + 33) =~= entries.last().encoding());
        }
    }

    /// The 33 bytes that an entry is read from are the bytes of that entry.
    pub proof fn lemma_encoding_of_decoding(bytes: Seq<u8>)
        requires
            bytes.len() == 33,
        ensures
            Self::decoding(bytes).encoding() == bytes,
    {
        lemma_bytes32_of(Self::decoding(bytes).value.bytes, bytes.subrange(1, 33));
        assert(Self::decoding(bytes).encoding() =~= bytes);
    }

    /// Bytes in which each of several entries stands at its place are the
    /// bytes of those entries.
    pub proof fn lemma_encoding_of_all_from_entries(entries: Seq<Allowlist>, bytes: Seq<u8>)
        requires
            bytes.len() == 33 * entries.len(),
            forall|i: int|
                0 <= i < entries.len() ==> bytes.subrange(33 * i, 33 * i + 33)
                    == #[trigger] entries[i].encoding(),
        ensures
            Self::encoding_of_all(entries) == bytes,
        decreases entries.len(),
    {
        if entries.len() == 0 {
            assert(Self::encoding_of_all(entries) =~= bytes);
        } else {
            let front = entries.drop_last();
            let front_bytes = bytes.subrange(0, 33 * (front.len() as int));
            assert forall|i: int| 0 <= i < front.len() implies front_bytes.subrange(
                33 * i,
                33 * i + 33,
            ) == #[trigger] front[i].encoding() by {
                assert(front[i] == entries[i]);
                assert(front_bytes.subrange(33 * i, 33 * i + 33) =~= bytes.subrange(
                    33 * i,
                    33 * i + 33,
                ));
            }
            Self::lemma_encoding_of_all_from_entries(front, front_bytes);
            let last = front.len() as int;
            assert(bytes.subrange(33 * last, 33 * last + 33) == entries[last].encoding());
            assert(Self::encoding_of_all(entries) =~= bytes);
        }
    }

    /// An entry of a kind that reads the value is not valid while the value is
    /// the zero identifier; an `Empty` or `Any` entry is valid whatever the
    /// value.
    pub proof fn lemma_valid_by_kind(kind: u8, value: Identifier)
        ensures
            Self::kind_reads_value(kind) ==> !(Allowlist { kind, value: Identifier::zero() }).valid(),
            kind == ALLOWLIST_KIND_EMPTY || kind == ALLOWLIST_KIND_ANY ==> (Allowlist {
                kind,
                value,
            }).valid(),
    {
    }

    /// An entry of a reserved kind is not valid, whatever the value.
    pub proof fn lemma_reserved_kind_invalid(kind: u8, value: Identifier)
        requires
            kind > ALLOWLIST_KIND_MPL_CORE_COLLECTION,
            kind != ALLOWLIST_KIND_ANY,
        ensures
            !(Allowlist { kind, value }).valid(),
    {
    }

    /// Whether a slot is vacant depends on the kind alone.
    pub proof fn lemma_is_empty_by_kind(kind: u8, value: Identifier)
        ensures
            (Allowlist { kind, value }).is_empty() <==> kind == 0,
    {
    }
}

impl Default for Allowlist {
    /// A vacant slot with the zero identifier.
    fn default() -> (entry: Allowlist)
        ensures
            entry == Allowlist::vacant(),
    {
        Allowlist { kind: ALLOWLIST_KIND_EMPTY, value: Identifier::zero() }
    }
}

} // verus!
