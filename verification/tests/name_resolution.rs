use std::cell::Cell;

use werust_core::name_resolution::{
    after_ens_read, after_ipns_read, resolve_name, resolve_name_with_progress, AfterEns,
    DecodedContenthash, IpnsTarget, NameResolutionError, ProtoCode, ResolutionError, ResolvedName,
};
use werust_core::LoadStep;

const TARGET_CID: &str = "bafkreigh2akiscaildcqabsyg3dfr6chu3fgpregiymsck7e7aqa4s52zy";
const IMMUTABLE_CID: &str = "bafkreidgvpkjawlxz6sffxzwgooowe5yt7i6wsyg236mfoks77nywkptdq";
const IPNS_NAME: &str = "k51qzi5uqu5dlvj2baxnqndepeb86cbk3ng7n3i46uzyxzyqj2xjonzllnv0v8";

fn ipfs_uri(cid: &str) -> String {
    format!("ipfs://{cid}")
}

fn immutable_ens(_name: &str) -> Result<DecodedContenthash, ResolutionError> {
    Ok(DecodedContenthash::Ipfs { uri: ipfs_uri(IMMUTABLE_CID), cid: IMMUTABLE_CID.to_string() })
}

fn mutable_ens(_name: &str) -> Result<DecodedContenthash, ResolutionError> {
    Ok(DecodedContenthash::Ipns { name: IPNS_NAME.to_string() })
}

#[test]
fn a_mutable_ipns_name_is_followed_through_its_verified_record_to_the_cid() {
    let fetches = Cell::new(0usize);
    let source = |name: String| -> Result<IpnsTarget, String> {
        fetches.set(fetches.get() + 1);
        assert_eq!(name, IPNS_NAME, "the record fetched is the contenthash's own name");
        Ok(IpnsTarget { uri: ipfs_uri(TARGET_CID), cid: TARGET_CID.to_string() })
    };

    let resolved = resolve_name(mutable_ens, source, "ronan.eth").expect("the name follows through");

    assert_eq!(
        resolved,
        ResolvedName::Mutable {
            pointer: format!("ipns://{IPNS_NAME}"),
            uri: ipfs_uri(TARGET_CID),
            cid: TARGET_CID.to_string(),
        }
    );
    assert!(resolved.is_mutable());
    assert_eq!(resolved.mutable_pointer(), Some(format!("ipns://{IPNS_NAME}").as_str()));
    assert_eq!(resolved.cid(), TARGET_CID);
    assert_eq!(resolved.uri(), ipfs_uri(TARGET_CID));
    assert_eq!(resolved.proto_code().wire_name(), "ipns-ns");
    assert_eq!(fetches.get(), 1, "exactly one record fetch");
}

#[test]
fn an_immutable_ipfs_name_resolves_with_no_record_fetch() {
    let fetches = Cell::new(0usize);
    let source = |_name: String| -> Result<IpnsTarget, String> {
        fetches.set(fetches.get() + 1);
        Err("no record pinned".to_string())
    };

    let resolved = resolve_name(immutable_ens, source, "example.eth").expect("an ipfs-ns name");

    assert_eq!(
        resolved,
        ResolvedName::Immutable { uri: ipfs_uri(IMMUTABLE_CID), cid: IMMUTABLE_CID.to_string() }
    );
    assert!(!resolved.is_mutable());
    assert_eq!(resolved.mutable_pointer(), None);
    assert_eq!(resolved.proto_code().wire_name(), "ipfs-ns");
    assert_eq!(fetches.get(), 0, "an immutable name must not touch the IPNS record source");
}

#[test]
fn a_record_that_does_not_verify_fails_closed_with_the_ipns_core_reason() {
    let source = |_name: String| -> Result<IpnsTarget, String> {
        Err("the IPNS record's signature does not verify against the name's key".to_string())
    };

    let err = resolve_name(mutable_ens, source, "ronan.eth")
        .expect_err("an unverifiable record must not resolve");

    assert!(matches!(err, NameResolutionError::Ipns(_)), "the IPNS core's own typed failure: {err:?}");
    assert!(err.message().contains("IPNS record"), "the reason is the core's own sentence");
}

#[test]
fn an_unsupported_contenthash_is_a_named_refusal_not_a_reference() {
    let swarm = |_name: &str| -> Result<DecodedContenthash, ResolutionError> {
        Ok(DecodedContenthash::Unsupported(ProtoCode::Swarm))
    };
    let source = |_name: String| -> Result<IpnsTarget, String> {
        panic!("an unsupported name never reaches the record source")
    };

    let err = resolve_name(swarm, source, "swarmy.eth").expect_err("swarm is refused");

    assert!(matches!(
        err,
        NameResolutionError::Ens(ResolutionError::UnsupportedContenthash(ProtoCode::Swarm))
    ));
    assert!(err.message().contains("Swarm"), "named");
}

#[test]
fn the_reported_steps_are_the_chromes_own_resolution_stages() {
    let source = |_name: String| -> Result<IpnsTarget, String> {
        Ok(IpnsTarget { uri: ipfs_uri(TARGET_CID), cid: TARGET_CID.to_string() })
    };
    let (result, steps) = resolve_name_with_progress(immutable_ens, source, "example.eth");
    result.expect("an ipfs-ns name");
    assert_eq!(steps, vec![LoadStep::ResolvingName]);

    let (result, steps) = resolve_name_with_progress(mutable_ens, source, "ronan.eth");
    result.expect("an ipns-ns name");
    assert_eq!(steps, vec![LoadStep::ResolvingName, LoadStep::FetchingRecord]);
}

#[test]
fn a_failed_ens_read_is_refused_with_its_own_reason_and_only_the_first_stage() {
    let failing = |_name: &str| -> Result<DecodedContenthash, ResolutionError> {
        Err(ResolutionError::Failed("ENS resolution timed out".to_string()))
    };
    let source = |_name: String| -> Result<IpnsTarget, String> {
        panic!("a failed ENS read never reaches the record source")
    };
    let (result, steps) = resolve_name_with_progress(failing, source, "ronan.eth");
    let err = result.expect_err("a failed read is no resolution");
    assert_eq!(
        err,
        NameResolutionError::Ens(ResolutionError::Failed("ENS resolution timed out".to_string()))
    );
    assert_eq!(err.message(), "ENS resolution timed out");
    assert_eq!(steps, vec![LoadStep::ResolvingName]);
}

#[test]
fn the_ens_outcome_decides_what_is_left_to_do() {
    assert_eq!(
        after_ens_read(Ok(DecodedContenthash::Ipns { name: IPNS_NAME.to_string() })),
        AfterEns::FollowIpns(IPNS_NAME.to_string())
    );
    assert_eq!(
        after_ens_read(Ok(DecodedContenthash::Ipfs {
            uri: ipfs_uri(IMMUTABLE_CID),
            cid: IMMUTABLE_CID.to_string()
        })),
        AfterEns::Done(Ok(ResolvedName::Immutable {
            uri: ipfs_uri(IMMUTABLE_CID),
            cid: IMMUTABLE_CID.to_string()
        }))
    );
    assert_eq!(
        after_ens_read(Ok(DecodedContenthash::Unsupported(ProtoCode::Arweave))),
        AfterEns::Done(Err(NameResolutionError::Ens(ResolutionError::UnsupportedContenthash(
            ProtoCode::Arweave
        ))))
    );
}

#[test]
fn a_followed_record_carries_the_pointer_it_came_from() {
    let r = after_ipns_read(
        "k51abc",
        Ok(IpnsTarget { uri: ipfs_uri(TARGET_CID), cid: TARGET_CID.to_string() }),
    )
    .unwrap();
    assert_eq!(r.mutable_pointer(), Some("ipns://k51abc"));
    assert_eq!(
        after_ipns_read("k51abc", Err("record expired".to_string())),
        Err(NameResolutionError::Ipns("record expired".to_string()))
    );
}

#[test]
fn the_protocol_vocabulary_is_the_ensip7_spelling() {
    assert_eq!(ProtoCode::Ipfs.wire_name(), "ipfs-ns");
    assert_eq!(ProtoCode::Ipns.wire_name(), "ipns-ns");
    assert_eq!(ProtoCode::Swarm.wire_name(), "swarm-ns");
    assert_eq!(ProtoCode::Swarm.display_name(), "Swarm");
    assert_eq!(
        NameResolutionError::Ens(ResolutionError::UnsupportedContenthash(ProtoCode::Onion)).message(),
        "points to Onion, not supported"
    );
}
