//! The one name-to-content resolution path: an ENS name in, the immutable
//! `ipfs://<cid>` werust would load out, following a mutable `ipns-ns`
//! contenthash through its client-verified IPNS record on the way.
//!
//! The ENS read and the IPNS record fetch are the caller's (they are network
//! work); this module decides what each outcome means and keeps the two kinds
//! of answer distinct, so a followed mutable name is never reported as if it
//! were an immutable one.

use vstd::prelude::*;

use crate::chrome::LoadStep;
use crate::text::{push_str, string_of};

verus! {

/// The ENSIP-7 protocol a contenthash names.
#[derive(Debug, Clone, Copy, PartialEq, Eq, Structural)]
pub enum ProtoCode {
    /// `ipfs-ns`: an immutable CID.
    Ipfs,
    /// `ipns-ns`: a mutable IPNS name.
    Ipns,
    /// `swarm-ns`.
    Swarm,
    /// `onion`.
    Onion,
    /// `onion3`.
    Onion3,
    /// `skynet-ns`.
    Skynet,
    /// `arweave-ns`.
    Arweave,
}

/// The ENSIP-7 wire spelling of a protocol.
pub open spec fn proto_wire(p: ProtoCode) -> Seq<char> {
    match p {
        ProtoCode::Ipfs => "ipfs-ns"@,
        ProtoCode::Ipns => "ipns-ns"@,
        ProtoCode::Swarm => "swarm-ns"@,
        ProtoCode::Onion => "onion"@,
        ProtoCode::Onion3 => "onion3"@,
        ProtoCode::Skynet => "skynet-ns"@,
        ProtoCode::Arweave => "arweave-ns"@,
    }
}

/// The human name of a protocol.
pub open spec fn proto_display(p: ProtoCode) -> Seq<char> {
    match p {
        ProtoCode::Ipfs => "IPFS"@,
        ProtoCode::Ipns => "IPNS"@,
        ProtoCode::Swarm => "Swarm"@,
        ProtoCode::Onion => "Onion"@,
        ProtoCode::Onion3 => "Onion v3"@,
        ProtoCode::Skynet => "Skynet"@,
        ProtoCode::Arweave => "Arweave"@,
    }
}

impl ProtoCode {
    /// The shared protocol vocabulary (`ipfs-ns`, `ipns-ns`, ...).
    pub fn wire_name(self) -> (r: &'static str)
        ensures
            r@ == proto_wire(self),
    {
        match self {
            ProtoCode::Ipfs => "ipfs-ns",
            ProtoCode::Ipns => "ipns-ns",
            ProtoCode::Swarm => "swarm-ns",
            ProtoCode::Onion => "onion",
            ProtoCode::Onion3 => "onion3",
            ProtoCode::Skynet => "skynet-ns",
            ProtoCode::Arweave => "arweave-ns",
        }
    }

    /// The human name of the protocol.
    pub fn display_name(self) -> (r: &'static str)
        ensures
            r@ == proto_display(self),
    {
        match self {
            ProtoCode::Ipfs => "IPFS",
            ProtoCode::Ipns => "IPNS",
            ProtoCode::Swarm => "Swarm",
            ProtoCode::Onion => "Onion",
            ProtoCode::Onion3 => "Onion v3",
            ProtoCode::Skynet => "Skynet",
            ProtoCode::Arweave => "Arweave",
        }
    }
}

/// A decoded ENS contenthash.
#[derive(Debug, Clone, PartialEq, Eq)]
pub enum DecodedContenthash {
    /// An `ipfs-ns` contenthash: the `ipfs://<cid>` URI and the CID.
    Ipfs {
        /// The `ipfs://<cid>` URI.
        uri: String,
        /// The canonical CID string.
        cid: String,
    },
    /// An `ipns-ns` contenthash: the IPNS name it points at.
    Ipns {
        /// The IPNS name.
        name: String,
    },
    /// A well-formed contenthash for a protocol werust does not support.
    Unsupported(ProtoCode),
}

/// A failed ENS read.
#[derive(Debug, Clone, PartialEq, Eq)]
pub enum ResolutionError {
    /// The read failed, with the ENS core's own legible reason.
    Failed(String),
    /// The contenthash names a protocol werust does not support.
    UnsupportedContenthash(ProtoCode),
}

/// What an IPNS record currently resolves to.
#[derive(Debug, Clone, PartialEq, Eq)]
pub struct IpnsTarget {
    /// The `ipfs://<cid>` URI.
    pub uri: String,
    /// The canonical CID string.
    pub cid: String,
}

/// What an ENS name resolves to: the immutable `ipfs://<cid>` to load, and
/// whether a mutable name was followed to get there.
#[derive(Debug, Clone, PartialEq, Eq)]
pub enum ResolvedName {
    /// An immutable `ipfs-ns` name: the contenthash is the CID.
    Immutable {
        /// The `ipfs://<cid>` URI.
        uri: String,
        /// The canonical CID string.
        cid: String,
    },
    /// A mutable `ipns-ns` name, followed through its verified record.
    Mutable {
        /// The `ipns://<name>` pointer that was followed.
        pointer: String,
        /// The `ipfs://<cid>` URI the record resolves to.
        uri: String,
        /// The CID the record resolves to.
        cid: String,
    },
}

impl ResolvedName {
    /// The `ipfs://<cid>` URI to load.
    pub open spec fn spec_uri(&self) -> Seq<char> {
        match self {
            ResolvedName::Immutable { uri, .. } => uri@,
            ResolvedName::Mutable { uri, .. } => uri@,
        }
    }

    /// The `ipfs://<cid>` URI to load, whichever case this is.
    pub fn uri(&self) -> (r: &str)
        ensures
            r@ == self.spec_uri(),
    {
        match self {
            ResolvedName::Immutable { uri, .. } => uri.as_str(),
            ResolvedName::Mutable { uri, .. } => uri.as_str(),
        }
    }

    /// The canonical CID string, whichever case this is.
    pub fn cid(&self) -> (r: &str)
        ensures
            r@ == match self {
                ResolvedName::Immutable { cid, .. } => cid@,
                ResolvedName::Mutable { cid, .. } => cid@,
            },
    {
        match self {
            ResolvedName::Immutable { cid, .. } => cid.as_str(),
            ResolvedName::Mutable { cid, .. } => cid.as_str(),
        }
    }

    /// Whether the CID came from a followed mutable pointer.
    pub fn is_mutable(&self) -> (r: bool)
        ensures
            r == self is Mutable,
    {
        match self {
            ResolvedName::Mutable { .. } => true,
            ResolvedName::Immutable { .. } => false,
        }
    }

    /// The `ipns://<name>` pointer that was followed, for a mutable name.
    pub fn mutable_pointer(&self) -> (r: Option<&str>)
        ensures
            match self {
                ResolvedName::Immutable { .. } => r is None,
                ResolvedName::Mutable { pointer, .. } => r matches Some(p) && p@ == pointer@,
            },
    {
        match self {
            ResolvedName::Immutable { .. } => None,
            ResolvedName::Mutable { pointer, .. } => Some(pointer.as_str()),
        }
    }

    /// The ENSIP-7 protocol the name's contenthash used.
    pub fn proto_code(&self) -> (r: ProtoCode)
        ensures
            r == if self is Mutable {
                ProtoCode::Ipns
            } else {
                ProtoCode::Ipfs
            },
    {
        match self {
            ResolvedName::Immutable { .. } => ProtoCode::Ipfs,
            ResolvedName::Mutable { .. } => ProtoCode::Ipns,
        }
    }
}

/// A fail-closed failure of resolving a name all the way to content.
#[derive(Debug, Clone, PartialEq, Eq)]
pub enum NameResolutionError {
    /// The ENS read failed, or named an unsupported protocol.
    Ens(ResolutionError),
    /// The IPNS record could not be fetched, decoded or verified, with the
    /// IPNS core's own reason.
    Ipns(String),
}

/// The sentence a resolution failure reads as.
pub open spec fn resolution_error_text(e: NameResolutionError) -> Seq<char> {
    match e {
        NameResolutionError::Ens(ResolutionError::Failed(reason)) => reason@,
        NameResolutionError::Ens(ResolutionError::UnsupportedContenthash(p)) => "points to "@
            + proto_display(p) + ", not supported"@,
        NameResolutionError::Ipns(reason) => reason@,
    }
}

impl NameResolutionError {
    /// The legible sentence every surface prints for this failure: the
    /// core's own reason, verbatim.
    pub fn message(&self) -> (r: String)
        ensures
            r@ == resolution_error_text(*self),
    {
        match self {
            NameResolutionError::Ens(ResolutionError::Failed(reason)) => reason.clone(),
            NameResolutionError::Ens(ResolutionError::UnsupportedContenthash(p)) => {
                let mut out: Vec<char> = Vec::new();
                push_str(&mut out, "points to ");
                push_str(&mut out, p.display_name());
                push_str(&mut out, ", not supported");
                assert(out@ =~= resolution_error_text(*self));
                string_of(out.as_slice())
            },
            NameResolutionError::Ipns(reason) => reason.clone(),
        }
    }
}

/// What the ENS read leaves to do.
#[derive(Debug, PartialEq, Eq)]
pub enum AfterEns {
    /// The resolution is over.
    Done(Result<ResolvedName, NameResolutionError>),
    /// A mutable name: fetch and verify the record for this IPNS name next.
    FollowIpns(String),
}

/// Decide what an ENS read's outcome means: an `ipfs-ns` contenthash is the
/// answer; an `ipns-ns` one must be followed through its record; an
/// unsupported protocol or a failed read is a named refusal.
pub fn after_ens_read(decoded: Result<DecodedContenthash, ResolutionError>) -> (r: AfterEns)
    ensures
        match decoded {
            Err(e) => r == AfterEns::Done(Err(NameResolutionError::Ens(e))),
            Ok(DecodedContenthash::Ipfs { uri, cid }) => r == AfterEns::Done(
                Ok(ResolvedName::Immutable { uri, cid }),
            ),
            Ok(DecodedContenthash::Ipns { name }) => r == AfterEns::FollowIpns(name),
            Ok(DecodedContenthash::Unsupported(p)) => r == AfterEns::Done(
                Err(NameResolutionError::Ens(ResolutionError::UnsupportedContenthash(p))),
            ),
        },
{
    match decoded {
        Err(e) => AfterEns::Done(Err(NameResolutionError::Ens(e))),
        Ok(DecodedContenthash::Ipfs { uri, cid }) => AfterEns::Done(
            Ok(ResolvedName::Immutable { uri, cid }),
        ),
        Ok(DecodedContenthash::Ipns { name }) => AfterEns::FollowIpns(name),
        Ok(DecodedContenthash::Unsupported(p)) => AfterEns::Done(
            Err(NameResolutionError::Ens(ResolutionError::UnsupportedContenthash(p))),
        ),
    }
}

/// Decide what a followed record's outcome means: the CID it verified to,
/// carried with the `ipns://<name>` pointer that was followed, or the IPNS
/// core's refusal. A record that does not verify never becomes a CID.
pub fn after_ipns_read(ipns_name: &str, record: Result<IpnsTarget, String>) -> (r: Result<
    ResolvedName,
    NameResolutionError,
>)
    ensures
        match record {
            Err(e) => r == Err::<ResolvedName, NameResolutionError>(NameResolutionError::Ipns(e)),
            Ok(t) => r matches Ok(ResolvedName::Mutable { pointer, uri, cid }) && pointer@
                == "ipns://"@ + ipns_name@ && uri == t.uri && cid == t.cid,
        },
{
    match record {
        Err(e) => Err(NameResolutionError::Ipns(e)),
        Ok(t) => {
            let mut out: Vec<char> = Vec::new();
            push_str(&mut out, "ipns://");
            push_str(&mut out, ipns_name);
            Ok(ResolvedName::Mutable { pointer: string_of(out.as_slice()), uri: t.uri, cid: t.cid })
        },
    }
}

/// What resolving `name` with the reads `ens` and `ipns` may give: the answer
/// and the stages entered, for some outcome of each read.
pub open spec fn resolution_outcome<E, I>(
    ens: E,
    ipns: I,
    name: &str,
    r: Result<ResolvedName, NameResolutionError>,
    steps: Seq<LoadStep>,
) -> bool where
    E: Fn(&str) -> Result<DecodedContenthash, ResolutionError>,
    I: Fn(String) -> Result<IpnsTarget, String>,
 {
    exists|d: Result<DecodedContenthash, ResolutionError>|
        #![trigger ens.ensures((name,), d)]
        ens.ensures((name,), d) && match d {
            Ok(DecodedContenthash::Ipns { name: n }) => steps == seq![
                LoadStep::ResolvingName,
                LoadStep::FetchingRecord,
            ] && exists|t: Result<IpnsTarget, String>|
                #![trigger ipns.ensures((n,), t)]
                ipns.ensures((n,), t) && match t {
                    Err(e) => r == Err::<ResolvedName, NameResolutionError>(
                        NameResolutionError::Ipns(e),
                    ),
                    Ok(tt) => r matches Ok(ResolvedName::Mutable { pointer, uri, cid }) && pointer@
                        == "ipns://"@ + n@ && uri == tt.uri && cid == tt.cid,
                },
            Err(e) => steps == seq![LoadStep::ResolvingName] && r == Err::<
                ResolvedName,
                NameResolutionError,
            >(NameResolutionError::Ens(e)),
            Ok(DecodedContenthash::Ipfs { uri, cid }) => steps == seq![LoadStep::ResolvingName]
                && r == Ok::<ResolvedName, NameResolutionError>(
                ResolvedName::Immutable { uri, cid },
            ),
            Ok(DecodedContenthash::Unsupported(p)) => steps == seq![LoadStep::ResolvingName] && r
                == Err::<ResolvedName, NameResolutionError>(
                NameResolutionError::Ens(ResolutionError::UnsupportedContenthash(p)),
            ),
        }
}

/// What the resolution asks of its reads: the ENS read is made of `name`
/// alone, and the record read only of the IPNS name an `ipns-ns` contenthash
/// names, so a read that cannot be made of anything else (`requires`
/// `false` elsewhere) is never made for an immutable name, an unsupported
/// protocol or a failed ENS read.
pub open spec fn reads_record_only_when_mutable<E, I>(ens: E, ipns: I, name: &str) -> bool where
    E: Fn(&str) -> Result<DecodedContenthash, ResolutionError>,
    I: Fn(String) -> Result<IpnsTarget, String>,
 {
    forall|d: Result<DecodedContenthash, ResolutionError>|
        #[trigger] ens.ensures((name,), d) ==> match d {
            Ok(DecodedContenthash::Ipns { name: n }) => ipns.requires((n,)),
            _ => true,
        }
}

/// Resolve `name` to the content werust would load, with `ens` doing the ENS
/// read and `ipns` the record fetch and verification. Returns the answer and
/// the pipeline stages entered, in order: `ResolvingName` (the ENS read),
/// then `FetchingRecord` (the record read) for a mutable name only. The
/// record read is made for an `ipns-ns` contenthash only: `requires` asks of
/// `ipns` nothing in any other case.
pub fn resolve_name_with_progress<E, I>(ens: E, ipns: I, name: &str) -> (r: (
    Result<ResolvedName, NameResolutionError>,
    Vec<LoadStep>,
)) where
    E: Fn(&str) -> Result<DecodedContenthash, ResolutionError>,
    I: Fn(String) -> Result<IpnsTarget, String>,

    requires
        ens.requires((name,)),
        reads_record_only_when_mutable(ens, ipns, name),
    ensures
        resolution_outcome(ens, ipns, name, r.0, r.1@),
{
    let mut steps: Vec<LoadStep> = Vec::new();
    steps.push(LoadStep::ResolvingName);
    let decoded = ens(name);
    let ghost d = decoded;
    match after_ens_read(decoded) {
        AfterEns::Done(result) => {
            assert(steps@ =~= seq![LoadStep::ResolvingName]);
            assert(ens.ensures((name,), d));
            (result, steps)
        },
        AfterEns::FollowIpns(ipns_name) => {
            steps.push(LoadStep::FetchingRecord);
            assert(steps@ =~= seq![LoadStep::ResolvingName, LoadStep::FetchingRecord]);
            let arg = ipns_name.clone();
            let record = ipns(arg);
            let ghost t = record;
            let result = after_ipns_read(ipns_name.as_str(), record);
            assert(ipns.ensures((ipns_name,), t));
            assert(ens.ensures((name,), d));
            (result, steps)
        },
    }
}

/// [`resolve_name_with_progress`] without the stages.
pub fn resolve_name<E, I>(ens: E, ipns: I, name: &str) -> (r: Result<
    ResolvedName,
    NameResolutionError,
>) where
    E: Fn(&str) -> Result<DecodedContenthash, ResolutionError>,
    I: Fn(String) -> Result<IpnsTarget, String>,

    requires
        ens.requires((name,)),
        reads_record_only_when_mutable(ens, ipns, name),
    ensures
        exists|steps: Seq<LoadStep>| #[trigger] resolution_outcome(ens, ipns, name, r, steps),
{
    let (r, steps) = resolve_name_with_progress(ens, ipns, name);
    r
}

/// Resolving a name whose ENS read never gives an `ipns-ns` contenthash (an
/// immutable name, an unsupported protocol, a failed read) makes no record
/// read: the resolution's demand holds of every record read, even one that
/// can never be made.
pub proof fn law_record_read_only_for_mutable_names<E, I>(ens: E, ipns: I, name: &str) where
    E: Fn(&str) -> Result<DecodedContenthash, ResolutionError>,
    I: Fn(String) -> Result<IpnsTarget, String>,

    requires
        forall|d: Result<DecodedContenthash, ResolutionError>|
            #[trigger] ens.ensures((name,), d) ==> !(d matches Ok(DecodedContenthash::Ipns { .. })),
    ensures
        reads_record_only_when_mutable(ens, ipns, name),
{
}

} // verus!
