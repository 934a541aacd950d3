use crate::error::RecordError;
use crate::identifier::Identifier;
use mpl_bubblegum::accounts::TreeConfig;
use vstd::prelude::*;

verus! {

/// `TreeConfig` of mpl-bubblegum: the tree config record of the
/// compressed-asset registry. Its layout is the registry's own; nothing here
/// looks inside it.
#[verifier::external_type_specification]
#[verifier::external_body]
pub struct ExTreeConfig(mpl_bubblegum::accounts::TreeConfig);

/// `std::io::Error`: the error with which the registry's reader turns bytes
/// down.
#[verifier::external_type_specification]
#[verifier::external_body]
pub struct ExIoError(std::io::Error);

/// What `TreeConfig::from_bytes` makes of `bytes`: the record that they hold,
/// or nothing where it turns them down.
pub uninterp spec fn tree_config_of(bytes: Seq<u8>) -> Option<TreeConfig>;

/// The bytes of the identifier under which the registry runs.
pub const BUBBLEGUM_ID: [u8; 32] = [
    152, 139, 128, 235, 121, 53, 40, 105, 178, 36, 116, 95, 89, 221, 191, 138,
    38, 88, 202, 19, 220, 104, 129, 33, 38, 53, 28, 174, 7, 193, 165, 165,
];

/// `TreeConfig::from_bytes` of mpl-bubblegum. Claimed: the outcome depends on
/// the bytes alone, so that it has the name `tree_config_of`.
#[verifier::external_body]
fn tree_config_from_bytes(buf: &[u8]) -> (r: Result<TreeConfig, std::io::Error>)
    ensures
        r is Ok <==> tree_config_of(buf@) is Some,
        r matches Ok(config) ==> tree_config_of(buf@) == Some(config),
{
    TreeConfig::from_bytes(buf)
}

/// The derived `Clone` of `TreeConfig` in mpl-bubblegum. Claimed: the copy
/// is the record that it was made of.
pub assume_specification[ <TreeConfig as Clone>::clone ](config: &TreeConfig) -> (copy: TreeConfig)
    ensures
        copy == *config,
;

/// The constant `ID` of mpl-bubblegum, as bytes. Claimed: it is the
/// identifier written out in `BUBBLEGUM_ID`.
#[verifier::external_body]
fn bubblegum_id() -> (bytes: [u8; 32])
    ensures
        bytes == BUBBLEGUM_ID,
{
    mpl_bubblegum::ID.to_bytes()
}

/// The compressed-asset registry as a program that a pool may name.
pub struct BubblegumProgram;

impl BubblegumProgram {
    /// The identifier under which the registry runs.
    pub open spec fn id_spec() -> Identifier {
        Identifier { bytes: BUBBLEGUM_ID }
    }

    /// The identifier under which the registry runs.
    #[verifier::when_used_as_spec(id_spec)]
    pub fn id() -> (id: Identifier)
        ensures
            id == Self::id_spec(),
    {
        Identifier::new(bubblegum_id())
    }
}

/// A tree config record of the registry, read for the sake of checking a
/// compressed asset. The record is the registry's: it is read here and never
/// written.
#[derive(Clone)]
pub struct TreeConfigAnchor(pub TreeConfig);

impl TreeConfigAnchor {
    /// Wraps what the registry's reader gave: its record as it is, or the
    /// failure to decode for any error of its own.
    pub fn from_decoded(decoded: Result<TreeConfig, std::io::Error>) -> (r: Result<
        TreeConfigAnchor,
        RecordError,
    >)
        ensures
            decoded matches Ok(config) ==> r == Ok::<TreeConfigAnchor, RecordError>(
                TreeConfigAnchor(config),
            ),
            decoded is Err ==> r == Err::<TreeConfigAnchor, RecordError>(
                RecordError::DidNotDeserialize,
            ),
    {
        match decoded {
            Ok(config) => Ok(TreeConfigAnchor(config)),
            Err(_) => Err(RecordError::DidNotDeserialize),
        }
    }

    /// Reads a tree config record from `buf` with the registry's own reader.
    /// No tag of this system is looked for.
    pub fn try_deserialize_unchecked(buf: &[u8]) -> (r: Result<TreeConfigAnchor, RecordError>)
        ensures
            match tree_config_of(buf@) {
                Some(config) => r == Ok::<TreeConfigAnchor, RecordError>(TreeConfigAnchor(config)),
                None => r == Err::<TreeConfigAnchor, RecordError>(RecordError::DidNotDeserialize),
            },
    {
        Self::from_decoded(tree_config_from_bytes(buf))
    }

    /// Turns down the write: the bytes of the record belong to the registry.
    /// Nothing is added to `out`.
    pub fn try_serialize(&self, out: &mut Vec<u8>) -> (r: Result<(), RecordError>)
        ensures
            final(out)@ == old(out)@,
            r == Err::<(), RecordError>(RecordError::ForeignRecord),
    {
        Err(RecordError::ForeignRecord)
    }

    /// The identifier of the program that owns the record: the registry.
    pub fn owner() -> (id: Identifier)
        ensures
            id == BubblegumProgram::id(),
    {
        BubblegumProgram::id()
    }
}

impl std::ops::Deref for TreeConfigAnchor {
    type Target = TreeConfig;

    /// The record of the registry.
    fn deref(&self) -> (config: &TreeConfig)
        ensures
            *config == self.0,
    {
        &self.0
    }
}

} // verus!
