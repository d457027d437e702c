//! Hardfork identifiers of the Ethereum mainnet.
use vstd::prelude::*;

verus! {

/// A hardfork of the Ethereum mainnet, in order of activation.
#[allow(non_camel_case_types)]
#[derive(Clone, Copy, Debug, PartialEq, Eq, Structural)]
pub enum SpecId {
    FRONTIER,
    FRONTIER_THAWING,
    HOMESTEAD,
    DAO_FORK,
    TANGERINE,
    SPURIOUS_DRAGON,
    BYZANTIUM,
    CONSTANTINOPLE,
    PETERSBURG,
    ISTANBUL,
    MUIR_GLACIER,
    BERLIN,
    LONDON,
    ARROW_GLACIER,
    GRAY_GLACIER,
    MERGE,
    SHANGHAI,
    CANCUN,
    PRAGUE,
    PRAGUE_EOF,
    LATEST,
}

impl SpecId {
    /// The number of the hardfork; `LATEST` is 255.
    pub open spec fn number(self) -> u8 {
        match self {
            SpecId::FRONTIER => 0,
            SpecId::FRONTIER_THAWING => 1,
            SpecId::HOMESTEAD => 2,
            SpecId::DAO_FORK => 3,
            SpecId::TANGERINE => 4,
            SpecId::SPURIOUS_DRAGON => 5,
            SpecId::BYZANTIUM => 6,
            SpecId::CONSTANTINOPLE => 7,
            SpecId::PETERSBURG => 8,
            SpecId::ISTANBUL => 9,
            SpecId::MUIR_GLACIER => 10,
            SpecId::BERLIN => 11,
            SpecId::LONDON => 12,
            SpecId::ARROW_GLACIER => 13,
            SpecId::GRAY_GLACIER => 14,
            SpecId::MERGE => 15,
            SpecId::SHANGHAI => 16,
            SpecId::CANCUN => 17,
            SpecId::PRAGUE => 18,
            SpecId::PRAGUE_EOF => 19,
            SpecId::LATEST => 255,
        }
    }

    /// The number of the hardfork.
    pub fn to_u8(self) -> (r: u8)
        ensures
            r == self.number(),
    {
        match self {
            SpecId::FRONTIER => 0,
            SpecId::FRONTIER_THAWING => 1,
            SpecId::HOMESTEAD => 2,
            SpecId::DAO_FORK => 3,
            SpecId::TANGERINE => 4,
            SpecId::SPURIOUS_DRAGON => 5,
            SpecId::BYZANTIUM => 6,
            SpecId::CONSTANTINOPLE => 7,
            SpecId::PETERSBURG => 8,
            SpecId::ISTANBUL => 9,
            SpecId::MUIR_GLACIER => 10,
            SpecId::BERLIN => 11,
            SpecId::LONDON => 12,
            SpecId::ARROW_GLACIER => 13,
            SpecId::GRAY_GLACIER => 14,
            SpecId::MERGE => 15,
            SpecId::SHANGHAI => 16,
            SpecId::CANCUN => 17,
            SpecId::PRAGUE => 18,
            SpecId::PRAGUE_EOF => 19,
            SpecId::LATEST => 255,
        }
    }

    /// Whether the rules of `other` are active under `our`: `our` comes at or after `other`.
    pub fn enabled(our: SpecId, other: SpecId) -> (r: bool)
        ensures
            r == (our.number() >= other.number()),
    {
        our.to_u8() >= other.to_u8()
    }

    /// Whether the rules of `other` are active under this hardfork.
    pub fn is_enabled_in(self, other: SpecId) -> (r: bool)
        ensures
            r == (self.number() >= other.number()),
    {
        SpecId::enabled(self, other)
    }
}

} // verus!
