//! Wire-protocol versions and their selection.

use vstd::prelude::*;

verus! {

/// The versions of the wire protocol that the engine knows.
#[derive(Clone, Copy, Debug, PartialEq, Eq, Structural, Hash)]
pub enum ProtocolId {
    Legacy,
    Bitswap100,
    Bitswap110,
    Bitswap120,
}

impl ProtocolId {
    /// The preference of a version: a higher rank is preferred.
    pub open spec fn spec_rank(self) -> nat {
        match self {
            ProtocolId::Legacy => 0,
            ProtocolId::Bitswap100 => 1,
            ProtocolId::Bitswap110 => 2,
            ProtocolId::Bitswap120 => 3,
        }
    }

    /// The preference of a version: a higher rank is preferred.
    pub fn rank(self) -> (r: u8)
        ensures
            r == self.spec_rank(),
    {
        match self {
            ProtocolId::Legacy => 0,
            ProtocolId::Bitswap100 => 1,
            ProtocolId::Bitswap110 => 2,
            ProtocolId::Bitswap120 => 3,
        }
    }

    /// Whether presences and Want-Have travel under this version.
    pub open spec fn spec_supports_have(self) -> bool {
        self == ProtocolId::Bitswap120
    }

    /// Whether presences and Want-Have travel under this version.
    #[verifier::when_used_as_spec(spec_supports_have)]
    pub fn supports_have(self) -> (r: bool)
        ensures
            r == self.spec_supports_have(),
    {
        self == ProtocolId::Bitswap120
    }

    /// The name of the version on the wire.
    pub fn protocol_name(self) -> (name: &'static str)
        ensures
            name@ == spec_protocol_name(self),
    {
        match self {
            ProtocolId::Legacy => "/ipfs/bitswap",
            ProtocolId::Bitswap100 => "/ipfs/bitswap/1.0.0",
            ProtocolId::Bitswap110 => "/ipfs/bitswap/1.1.0",
            ProtocolId::Bitswap120 => "/ipfs/bitswap/1.2.0",
        }
    }
}

/// The version that goes by `name` on the wire, if there is one.
pub fn protocol_from_name(name: &str) -> (found: Option<ProtocolId>)
    ensures
        match found {
            Some(p) => name@ == spec_protocol_name(p),
            None => forall|p: ProtocolId| name@ != spec_protocol_name(p),
        },
{
    let given = name.to_owned();
    if given == ProtocolId::Bitswap120.protocol_name().to_owned() {
        Some(ProtocolId::Bitswap120)
    } else if given == ProtocolId::Bitswap110.protocol_name().to_owned() {
        Some(ProtocolId::Bitswap110)
    } else if given == ProtocolId::Bitswap100.protocol_name().to_owned() {
        Some(ProtocolId::Bitswap100)
    } else if given == ProtocolId::Legacy.protocol_name().to_owned() {
        Some(ProtocolId::Legacy)
    } else {
        None
    }
}

/// The name of each version on the wire.
pub open spec fn spec_protocol_name(p: ProtocolId) -> Seq<char> {
    match p {
        ProtocolId::Legacy => "/ipfs/bitswap"@,
        ProtocolId::Bitswap100 => "/ipfs/bitswap/1.0.0"@,
        ProtocolId::Bitswap110 => "/ipfs/bitswap/1.1.0"@,
        ProtocolId::Bitswap120 => "/ipfs/bitswap/1.2.0"@,
    }
}

/// Whether a peer whose last agreed version is `proto` can honour Want-Have:
/// a peer of unknown version is given the benefit of the doubt.
pub open spec fn spec_may_support_have(proto: Option<ProtocolId>) -> bool {
    match proto {
        None => true,
        Some(p) => p == ProtocolId::Bitswap120,
    }
}

/// Whether a peer whose last agreed version is `proto` can honour Want-Have.
#[verifier::when_used_as_spec(spec_may_support_have)]
pub fn may_support_have(proto: Option<ProtocolId>) -> (r: bool)
    ensures
        r == spec_may_support_have(proto),
{
    match proto {
        None => true,
        Some(p) => p == ProtocolId::Bitswap120,
    }
}

/// The versions that one side supports, in the order in which they were configured.
#[derive(Clone, Debug, PartialEq, Eq)]
pub struct ProtocolConfig {
    pub protocol_ids: Vec<ProtocolId>,
}

impl ProtocolConfig {
    /// The configuration that offers the three numbered versions, newest first.
    pub fn new() -> (config: ProtocolConfig)
        ensures
            config.protocol_ids@ == seq![
                ProtocolId::Bitswap120,
                ProtocolId::Bitswap110,
                ProtocolId::Bitswap100,
            ],
    {
        let mut protocol_ids: Vec<ProtocolId> = Vec::new();
        protocol_ids.push(ProtocolId::Bitswap120);
        protocol_ids.push(ProtocolId::Bitswap110);
        protocol_ids.push(ProtocolId::Bitswap100);
        assert(protocol_ids@ =~= seq![
            ProtocolId::Bitswap120,
            ProtocolId::Bitswap110,
            ProtocolId::Bitswap100,
        ]);
        ProtocolConfig { protocol_ids }
    }

    /// A configuration that offers exactly `protocol_ids`.
    pub fn with_protocols(protocol_ids: Vec<ProtocolId>) -> (config: ProtocolConfig)
        ensures
            config.protocol_ids@ == protocol_ids@,
    {
        ProtocolConfig { protocol_ids }
    }

    /// A copy of the configuration.
    pub fn duplicate(&self) -> (copy: ProtocolConfig)
        ensures
            copy.protocol_ids@ == self.protocol_ids@,
    {
        let mut ids: Vec<ProtocolId> = Vec::with_capacity(self.protocol_ids.len());
        let mut i: usize = 0;
        while i < self.protocol_ids.len()
            invariant
                i <= self.protocol_ids.len(),
                ids@ == self.protocol_ids@.subrange(0, i as int),
            decreases self.protocol_ids.len() - i,
        {
            ids.push(self.protocol_ids[i]);
            assert(ids@ =~= self.protocol_ids@.subrange(0, i + 1));
            i += 1;
        }
        assert(ids@ =~= self.protocol_ids@);
        ProtocolConfig { protocol_ids: ids }
    }
}

/// Whether `p` is a version that both sides support.
pub open spec fn mutual(local: Seq<ProtocolId>, remote: Seq<ProtocolId>, p: ProtocolId) -> bool {
    local.contains(p) && remote.contains(p)
}

/// Whether `list` holds `p`.
pub fn offers(list: &Vec<ProtocolId>, p: ProtocolId) -> (found: bool)
    ensures
        found == list@.contains(p),
{
    let mut i: usize = 0;
    while i < list.len()
        invariant
            i <= list.len(),
            forall|j: int| 0 <= j < i ==> list@[j] != p,
        decreases list.len() - i,
    {
        if list[i] == p {
            return true;
        }
        i += 1;
    }
    false
}

/// Picks the version for a new stream: the most preferred one that both sides
/// support. There is none exactly when the two sides share no version.
pub fn select_protocol(local: &Vec<ProtocolId>, remote: &Vec<ProtocolId>) -> (agreed: Option<
    ProtocolId,
>)
    ensures
        match agreed {
            Some(p) => mutual(local@, remote@, p) && forall|q: ProtocolId|
                mutual(local@, remote@, q) ==> q.spec_rank() <= p.spec_rank(),
            None => forall|q: ProtocolId| !mutual(local@, remote@, q),
        },
{
    let mut best: Option<ProtocolId> = None;
    let mut i: usize = 0;
    while i < local.len()
        invariant
            i <= local.len(),
            match best {
                Some(p) => mutual(local@, remote@, p) && forall|j: int|
                    0 <= j < i && remote@.contains(#[trigger] local@[j]) ==> local@[j].spec_rank()
                        <= p.spec_rank(),
                None => forall|j: int| 0 <= j < i ==> !remote@.contains(#[trigger] local@[j]),
            },
        decreases local.len() - i,
    {
        let candidate = local[i];
        if offers(remote, candidate) {
            let better = match best {
                Some(p) => candidate.rank() > p.rank(),
                None => true,
            };
            if better {
                best = Some(candidate);
            }
        }
        i += 1;
    }
    proof {
        assert forall|q: ProtocolId| mutual(local@, remote@, q) implies best is Some
            && q.spec_rank() <= best->0.spec_rank() by {
            let j = choose|j: int| 0 <= j < local@.len() && local@[j] == q;
            assert(remote@.contains(local@[j]));
        }
    }
    best
}

} // verus!
