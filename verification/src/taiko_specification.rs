//! Taiko protocol versions.
use vstd::prelude::*;
use vstd::string::*;

verus! {

/// A version of the Taiko protocol, in order of activation.
#[allow(non_camel_case_types)]
#[derive(Clone, Copy, Debug, PartialEq, Eq, Structural)]
pub enum TaikoProtocolSpecId {
    HEKLA,
    ONTAKE,
    TAIKOLATEST,
}

/// The bytes of the ASCII name `Hekla`.
pub open spec fn hekla_bytes() -> Seq<u8> {
    seq![0x48u8, 0x65, 0x6b, 0x6c, 0x61]
}

/// The bytes of the ASCII name `Ontake`.
pub open spec fn ontake_bytes() -> Seq<u8> {
    seq![0x4fu8, 0x6e, 0x74, 0x61, 0x6b, 0x65]
}

/// The bytes of the ASCII name `TaikoLatest`.
pub open spec fn latest_bytes() -> Seq<u8> {
    seq![0x54u8, 0x61, 0x69, 0x6b, 0x6f, 0x4c, 0x61, 0x74, 0x65, 0x73, 0x74]
}

/// The version a name stands for: `Hekla`, `Ontake`, and any other name for the latest.
pub open spec fn parse_name(name: Seq<u8>) -> TaikoProtocolSpecId {
    if name == hekla_bytes() {
        TaikoProtocolSpecId::HEKLA
    } else if name == ontake_bytes() {
        TaikoProtocolSpecId::ONTAKE
    } else {
        TaikoProtocolSpecId::TAIKOLATEST
    }
}

/// Whether two byte slices are equal.
fn bytes_equal(a: &[u8], b: &[u8]) -> (r: bool)
    ensures
        r == (a@ == b@),
{
    if a.len() != b.len() {
        return false;
    }
    let mut i: usize = 0;
    while i < a.len()
        invariant
            a@.len() == b@.len(),
            0 <= i <= a@.len(),
            forall|j: int| 0 <= j < i ==> a@[j] == b@[j],
        decreases a@.len() - i,
    {
        if a[i] != b[i] {
            return false;
        }
        i += 1;
    }
    assert(a@ =~= b@);
    true
}

impl TaikoProtocolSpecId {
    /// The number of the version; the latest is 255.
    pub open spec fn number(self) -> u8 {
        match self {
            TaikoProtocolSpecId::HEKLA => 0,
            TaikoProtocolSpecId::ONTAKE => 1,
            TaikoProtocolSpecId::TAIKOLATEST => 255,
        }
    }

    /// The name of the version.
    pub open spec fn name_bytes(self) -> Seq<u8> {
        match self {
            TaikoProtocolSpecId::HEKLA => hekla_bytes(),
            TaikoProtocolSpecId::ONTAKE => ontake_bytes(),
            TaikoProtocolSpecId::TAIKOLATEST => latest_bytes(),
        }
    }

    /// The number of the version.
    pub fn to_u8(self) -> (r: u8)
        ensures
            r == self.number(),
    {
        match self {
            TaikoProtocolSpecId::HEKLA => 0,
            TaikoProtocolSpecId::ONTAKE => 1,
            TaikoProtocolSpecId::TAIKOLATEST => 255,
        }
    }

    /// The version with the given number, if there is one.
    pub fn try_from_u8(spec_id: u8) -> (r: Option<TaikoProtocolSpecId>)
        ensures
            match r {
                Some(id) => id.number() == spec_id,
                None => spec_id != 0 && spec_id != 1 && spec_id != 255,
            },
    {
        if spec_id == 0 {
            Some(TaikoProtocolSpecId::HEKLA)
        } else if spec_id == 1 {
            Some(TaikoProtocolSpecId::ONTAKE)
        } else if spec_id == 255 {
            Some(TaikoProtocolSpecId::TAIKOLATEST)
        } else {
            None
        }
    }

    /// Whether the rules of `other` are active under this version.
    pub fn is_enabled_in(&self, other: TaikoProtocolSpecId) -> (r: bool)
        ensures
            r == (self.number() >= other.number()),
    {
        TaikoProtocolSpecId::enabled(*self, other)
    }

    /// Whether the rules of `other` are active under `our`: `our` comes at or after `other`.
    pub fn enabled(our: TaikoProtocolSpecId, other: TaikoProtocolSpecId) -> (r: bool)
        ensures
            r == (our.number() >= other.number()),
    {
        our.to_u8() >= other.to_u8()
    }

    /// The version that a name stands for: `Hekla`, `Ontake`, and any other name for the
    /// latest version.
    pub fn from_name(name: &str) -> (r: TaikoProtocolSpecId)
        ensures
            r == parse_name(name.spec_bytes()),
    {
        let b = name.as_bytes();
        let hekla: [u8; 5] = [0x48, 0x65, 0x6b, 0x6c, 0x61];
        let ontake: [u8; 6] = [0x4f, 0x6e, 0x74, 0x61, 0x6b, 0x65];
        assert(hekla@ == hekla_bytes());
        assert(ontake@ == ontake_bytes());
        if bytes_equal(b, hekla.as_slice()) {
            TaikoProtocolSpecId::HEKLA
        } else if bytes_equal(b, ontake.as_slice()) {
            TaikoProtocolSpecId::ONTAKE
        } else {
            TaikoProtocolSpecId::TAIKOLATEST
        }
    }

    /// The name of the version: `Hekla`, `Ontake` or `TaikoLatest`.
    pub fn name(self) -> (r: &'static str)
        ensures
            r.spec_bytes() == self.name_bytes(),
    {
        match self {
            TaikoProtocolSpecId::HEKLA => {
                let s = "Hekla";
                proof {
                    reveal_strlit("Hekla");
                    assert(is_ascii(s));
                    assert(s.spec_bytes() =~= hekla_bytes());
                }
                s
            },
            TaikoProtocolSpecId::ONTAKE => {
                let s = "Ontake";
                proof {
                    reveal_strlit("Ontake");
                    assert(is_ascii(s));
                    assert(s.spec_bytes() =~= ontake_bytes());
                }
                s
            },
            TaikoProtocolSpecId::TAIKOLATEST => {
                let s = "TaikoLatest";
                proof {
                    reveal_strlit("TaikoLatest");
                    assert(is_ascii(s));
                    assert(s.spec_bytes() =~= latest_bytes());
                }
                s
            },
        }
    }
}

impl Default for TaikoProtocolSpecId {
    /// The latest version.
    fn default() -> (r: TaikoProtocolSpecId)
        ensures
            r == TaikoProtocolSpecId::TAIKOLATEST,
    {
        TaikoProtocolSpecId::TAIKOLATEST
    }
}

/// A protocol version known when the code is compiled.
pub trait TaikoProtocolSpec: Sized {
    /// The version, in specifications.
    spec fn spec_protocol_id() -> TaikoProtocolSpecId;

    /// The version.
    fn protocol_spec_id() -> (r: TaikoProtocolSpecId)
        ensures
            r == Self::spec_protocol_id(),
    ;

    /// Whether the rules of `spec_id` are active under this version.
    fn enabled(spec_id: TaikoProtocolSpecId) -> (r: bool)
        ensures
            r == (Self::spec_protocol_id().number() >= spec_id.number()),
    {
        TaikoProtocolSpecId::enabled(Self::protocol_spec_id(), spec_id)
    }
}

/// The Hekla version.
#[derive(Clone, Copy, Debug, Default, PartialEq, Eq, PartialOrd, Ord, Hash)]
pub struct HeklaSpec;

impl TaikoProtocolSpec for HeklaSpec {
    open spec fn spec_protocol_id() -> TaikoProtocolSpecId {
        TaikoProtocolSpecId::HEKLA
    }

    fn protocol_spec_id() -> (r: TaikoProtocolSpecId) {
        TaikoProtocolSpecId::HEKLA
    }
}

/// The Ontake version.
#[derive(Clone, Copy, Debug, Default, PartialEq, Eq, PartialOrd, Ord, Hash)]
pub struct OntakeSpec;

impl TaikoProtocolSpec for OntakeSpec {
    open spec fn spec_protocol_id() -> TaikoProtocolSpecId {
        TaikoProtocolSpecId::ONTAKE
    }

    fn protocol_spec_id() -> (r: TaikoProtocolSpecId) {
        TaikoProtocolSpecId::ONTAKE
    }
}

/// Naming a version and reading the name back gives the version; reading a number back
/// gives it too.
pub proof fn lemma_name_round_trip(id: TaikoProtocolSpecId)
    ensures
        parse_name(id.name_bytes()) == id,
{
    assert(hekla_bytes() != ontake_bytes()) by {
        assert(hekla_bytes().len() != ontake_bytes().len());
    }
    assert(latest_bytes() != hekla_bytes()) by {
        assert(latest_bytes().len() != hekla_bytes().len());
    }
    assert(latest_bytes() != ontake_bytes()) by {
        assert(latest_bytes().len() != ontake_bytes().len());
    }
}

/// Activation is a total order: every version enables itself, enabling is transitive, any
/// two versions are ordered one way, and the latest enables every version.
pub proof fn lemma_enabled_order(a: TaikoProtocolSpecId, b: TaikoProtocolSpecId, c: TaikoProtocolSpecId)
    ensures
        a.number() >= a.number(),
        a.number() >= b.number() && b.number() >= c.number() ==> a.number() >= c.number(),
        a.number() >= b.number() || b.number() >= a.number(),
        a.number() >= b.number() && b.number() >= a.number() ==> a == b,
        TaikoProtocolSpecId::TAIKOLATEST.number() >= a.number(),
{
}

} // verus!
