//! What makes a checkpoint acceptable, stated on its payload.
use vstd::prelude::*;

use super::{
    checkpoint_authentication, checkpoint_problem, checkpoint_verification, first_missing,
    json_outline, outline_member, outline_names, outline_problem, AuditCheckpointPayloadModel,
    AuthenticatedAuditCheckpointModel, CheckpointRejectionModel, DeviceReportedChainStatusModel,
    OutlineModel, SignedAuditCheckpointModel, AUDIT_CHECKPOINT_SIGNING_DOMAIN, CHAIN_STATUS_KEYS,
    PAYLOAD_KEYS, SUPPORTED_CHECKPOINT_SCHEMA_VERSIONS,
};
use crate::policy::bundle::{envelope_verdict, TrustedKeyModel};
use crate::text::is_blank;
use crate::time::{rfc3339, Timestamp};

verus! {

/// Whether a text is a digest as entries have them: the prefix and sixty-four
/// lower-case hexadecimal digits.
pub open spec fn entry_digest(value: Seq<char>) -> bool {
    &&& value.len() == 71
    &&& value[0] == 's' && value[1] == 'h' && value[2] == 'a' && value[3] == '2' && value[4] == '5'
        && value[5] == '6' && value[6] == ':'
    &&& forall|i: int|
        7 <= i < 71 ==> {
            let c = #[trigger] value[i] as int;
            48 <= c <= 57 || 97 <= c <= 102
        }
}

proof fn lemma_entry_digest(value: Seq<char>)
    ensures
        super::is_entry_hash(value) <==> entry_digest(value),
{
    reveal_strlit("sha256:");
    if value.len() == 71 {
        let head = value.take(7);
        assert(head.len() == 7);
        if entry_digest(value) {
            assert(head =~= "sha256:"@);
        }
        if head == "sha256:"@ {
            assert(head[0] == value[0] && head[1] == value[1] && head[2] == value[2] && head[3]
                == value[3] && head[4] == value[4] && head[5] == value[5] && head[6] == value[6]);
        }
    }
}

/// Whether a reported chain status holds together: a valid chain names no
/// divergence, and a diverged one names where and how.
pub open spec fn status_coherent(s: DeviceReportedChainStatusModel) -> bool {
    ||| s.status == "valid"@ && s.first_bad_ledger_seq is None && s.divergence_kind is None
    ||| s.status == "diverged"@ && s.first_bad_ledger_seq is Some && s.divergence_kind is Some
}

/// Whether everything about a payload holds, whatever the envelope's version.
pub open spec fn payload_sound(p: AuditCheckpointPayloadModel) -> bool {
    &&& rfc3339(p.issued_at) is Some
    &&& rfc3339(p.observed_at) is Some
    &&& !is_blank(p.issuer)
    &&& !is_blank(p.device_id)
    &&& entry_digest(p.head.entry_hash)
    &&& p.head.ledger_seq >= 1
    &&& p.checkpoint_seq >= 1
    &&& p.checkpoint_seq == 1 <==> p.prev_checkpoint is None
    &&& status_coherent(p.device_reported_chain_status)
}

proof fn lemma_statuses_differ()
    ensures
        "valid"@ != "diverged"@,
{
    reveal_strlit("valid");
    reveal_strlit("diverged");
    assert("valid"@.len() == 5 && "diverged"@.len() == 8);
}

/// A checkpoint is accepted exactly if its payload has the version of its
/// envelope and is sound, and is handed on as it is, with the key that signed.
pub proof fn law_sound_checkpoints_are_accepted(
    checkpoint: AuthenticatedAuditCheckpointModel,
    payload: AuditCheckpointPayloadModel,
)
    ensures
        match checkpoint_verification(checkpoint, payload) {
            Ok(v) => payload.checkpoint_schema_version == checkpoint.checkpoint_schema_version
                && payload_sound(payload) && v.payload == payload && v.verified_by
                == checkpoint.verified_by,
            Err(_) => payload.checkpoint_schema_version != checkpoint.checkpoint_schema_version
                || !payload_sound(payload),
        },
{
    lemma_entry_digest(payload.head.entry_hash);
    lemma_statuses_differ();
}

/// Why a checkpoint is refused: each reason comes only where it holds and all
/// that is looked at before it is in order.
pub proof fn law_refused_checkpoints_tell_why(version: u32, p: AuditCheckpointPayloadModel)
    ensures
        checkpoint_problem(version, p) matches Some(e) ==> {
            let same = p.checkpoint_schema_version == version;
            let dated = same && rfc3339(p.issued_at) is Some && rfc3339(p.observed_at) is Some;
            let named = dated && !is_blank(p.issuer) && !is_blank(p.device_id);
            let hashed = named && entry_digest(p.head.entry_hash);
            let counted = hashed && p.head.ledger_seq >= 1 && p.checkpoint_seq >= 1;
            let linked = counted && (p.checkpoint_seq == 1 <==> p.prev_checkpoint is None);
            let status = p.device_reported_chain_status.status;
            &&& e is SchemaVersionMismatch <==> !same
            &&& e is MalformedTimestamp <==> same && !dated
            &&& e matches CheckpointRejectionModel::MalformedTimestamp { value, .. } ==> value == (
            if rfc3339(p.issued_at) is None {
                p.issued_at
            } else {
                p.observed_at
            })
            &&& e is EmptyIssuer <==> dated && is_blank(p.issuer)
            &&& e is EmptyDeviceId <==> dated && !is_blank(p.issuer) && is_blank(p.device_id)
            &&& e is MalformedEntryHash <==> named && !hashed
            &&& e is LedgerSeqBelowOne <==> hashed && p.head.ledger_seq < 1
            &&& e is CheckpointSeqBelowOne <==> hashed && p.head.ledger_seq >= 1 && p.checkpoint_seq
                < 1
            &&& e is PrevCheckpointPresenceInconsistent <==> counted && !linked
            &&& e is UnrecognizedChainStatus <==> linked && status != "valid"@ && status
                != "diverged"@
            &&& e is ChainStatusInconsistent <==> linked && (status == "valid"@ || status
                == "diverged"@) && !status_coherent(p.device_reported_chain_status)
        },
{
    lemma_entry_digest(p.head.entry_hash);
    lemma_statuses_differ();
}

proof fn lemma_first_missing(names: Seq<Seq<char>>, keys: Seq<&'static str>, n: int)
    requires
        0 <= n <= keys.len(),
    ensures
        match first_missing(names, keys, n) {
            None => forall|i: int| n <= i < keys.len() ==> names.contains((#[trigger] keys[i])@),
            Some(key) => exists|i: int|
                n <= i < keys.len() && (#[trigger] keys[i])@ == key && !names.contains(key),
        },
    decreases keys.len() - n,
{
    if n < keys.len() {
        lemma_first_missing(names, keys, n + 1);
        if !names.contains(keys[n]@) {
            assert(keys[n]@ == first_missing(names, keys, n).unwrap());
        }
    }
}

/// Whether a document has a member.
pub open spec fn has_member(outline: OutlineModel, name: Seq<char>) -> bool {
    exists|i: int| 0 <= i < outline.len() && (#[trigger] outline[i]).0 == name
}

/// Whether the member at `i` is the first of its name, and an object with all
/// three members of a chain status.
pub open spec fn status_member(outline: OutlineModel, i: int) -> bool {
    &&& 0 <= i < outline.len()
    &&& outline[i].0 == "device_reported_chain_status"@
    &&& forall|j: int| 0 <= j < i ==> (#[trigger] outline[j]).0 != "device_reported_chain_status"@
    &&& outline[i].1 matches Some(names) && names.contains("status"@) && names.contains(
        "first_bad_ledger_seq"@,
    ) && names.contains("divergence_kind"@)
}

proof fn lemma_member_found(outline: OutlineModel, name: Seq<char>)
    ensures
        match outline_member(outline, name) {
            Some(names) => exists|i: int|
                0 <= i < outline.len() && (#[trigger] outline[i]).0 == name && outline[i].1 == Some(
                    names,
                ) && forall|j: int| 0 <= j < i ==> (#[trigger] outline[j]).0 != name,
            None => forall|i: int|
                0 <= i < outline.len() && (#[trigger] outline[i]).0 == name && (forall|j: int|
                    0 <= j < i ==> (#[trigger] outline[j]).0 != name) ==> outline[i].1 is None,
        },
    decreases outline.len(),
{
    if outline.len() > 0 {
        if outline[0].0 == name {
            if outline[0].1 is Some {
                assert(outline[0].0 == name);
            } else {
                assert forall|i: int|
                    0 <= i < outline.len() && (#[trigger] outline[i]).0 == name && (forall|j: int|
                        0 <= j < i ==> (#[trigger] outline[j]).0
                            != name) implies outline[i].1 is None by {
                    if i > 0 {
                        assert(outline[0].0 != name);
                    }
                }
            }
        } else {
            let rest = outline.drop_first();
            lemma_member_found(rest, name);
            match outline_member(rest, name) {
                Some(names) => {
                    let i = choose|i: int|
                        0 <= i < rest.len() && (#[trigger] rest[i]).0 == name && rest[i].1 == Some(
                            names,
                        ) && forall|j: int| 0 <= j < i ==> (#[trigger] rest[j]).0 != name;
                    assert(outline[i + 1] == rest[i]);
                    assert forall|j: int| 0 <= j < i + 1 implies (#[trigger] outline[j]).0
                        != name by {
                        if j > 0 {
                            assert(rest[j - 1] == outline[j]);
                        }
                    }
                },
                None => {
                    assert forall|i: int|
                        0 <= i < outline.len() && (#[trigger] outline[i]).0 == name && (forall|
                            j: int,
                        |
                            0 <= j < i ==> (#[trigger] outline[j]).0
                                != name) implies outline[i].1 is None by {
                        if i > 0 {
                            assert(rest[i - 1] == outline[i]);
                            assert forall|j: int| 0 <= j < i - 1 implies (#[trigger] rest[j]).0
                                != name by {
                                assert(outline[j + 1] == rest[j]);
                            }
                        }
                    }
                },
            }
        }
    }
}

/// A payload has the shape of a checkpoint exactly if it is an object with all
/// of the nine members, optional ones too, and its chain status is one with all
/// three of its own.
pub proof fn law_checkpoints_have_every_member(outline: OutlineModel)
    ensures
        outline_problem(None) is Some,
        outline_problem(Some(outline)) is None <==> {
            &&& has_member(outline, "checkpoint_schema_version"@)
            &&& has_member(outline, "issuer"@)
            &&& has_member(outline, "device_id"@)
            &&& has_member(outline, "checkpoint_seq"@)
            &&& has_member(outline, "issued_at"@)
            &&& has_member(outline, "observed_at"@)
            &&& has_member(outline, "head"@)
            &&& has_member(outline, "prev_checkpoint"@)
            &&& exists|i: int| #[trigger] status_member(outline, i)
        },
{
    let names = outline_names(outline);
    let keys = PAYLOAD_KEYS@;
    let chain = CHAIN_STATUS_KEYS@;
    let status = "device_reported_chain_status"@;
    lemma_first_missing(names, keys, 0);
    lemma_member_found(outline, status);
    assert forall|name: Seq<char>| names.contains(name) == #[trigger] has_member(outline, name) by {
        if names.contains(name) {
            let i = choose|i: int| 0 <= i < names.len() && names[i] == name;
            assert(outline[i].0 == name);
        }
        if has_member(outline, name) {
            let i = choose|i: int| 0 <= i < outline.len() && (#[trigger] outline[i]).0 == name;
            assert(names[i] == name);
        }
    }
    assert(keys.len() == 9 && keys[0]@ == "checkpoint_schema_version"@ && keys[1]@ == "issuer"@
        && keys[2]@ == "device_id"@ && keys[3]@ == "checkpoint_seq"@ && keys[4]@ == "issued_at"@
        && keys[5]@ == "observed_at"@ && keys[6]@ == "head"@ && keys[7]@ == status && keys[8]@
        == "prev_checkpoint"@);
    assert(chain.len() == 3 && chain[0]@ == "status"@ && chain[1]@ == "first_bad_ledger_seq"@
        && chain[2]@ == "divergence_kind"@);
    match outline_member(outline, status) {
        Some(inner) => {
            lemma_first_missing(inner, chain, 0);
            let i = choose|i: int|
                0 <= i < outline.len() && (#[trigger] outline[i]).0 == status && outline[i].1
                    == Some(inner) && forall|j: int|
                    0 <= j < i ==> (#[trigger] outline[j]).0 != status;
            if inner.contains("status"@) && inner.contains("first_bad_ledger_seq"@)
                && inner.contains("divergence_kind"@) {
                assert(status_member(outline, i));
            }
            if exists|k: int| #[trigger] status_member(outline, k) {
                let k = choose|k: int| #[trigger] status_member(outline, k);
                if k < i {
                    assert(outline[k].0 != status);
                }
                if i < k {
                    assert(outline[i].0 != status);
                }
            }
        },
        None => {
            assert forall|i: int| !#[trigger] status_member(outline, i) by {
                if status_member(outline, i) {
                    assert(outline[i].0 == status);
                }
            }
        },
    }
    if exists|k: int| #[trigger] status_member(outline, k) {
        let k = choose|k: int| #[trigger] status_member(outline, k);
        assert(outline[k].0 == status);
        assert(has_member(outline, status));
    }
}

/// A checkpoint is authenticated exactly if its version is the one read here,
/// its envelope is accepted for its own signing domain, and its payload is JSON
/// of the right shape. What comes out carries the version, the payload and the
/// key.
pub proof fn law_checkpoints_are_authenticated_by_their_envelope(
    envelope: SignedAuditCheckpointModel,
    trusted: Seq<TrustedKeyModel>,
    now: Timestamp,
)
    ensures
        ({
            let verdict = envelope_verdict(
                envelope.payload_b64,
                envelope.signatures,
                AUDIT_CHECKPOINT_SIGNING_DOMAIN@,
                1_048_576,
                trusted,
                now,
            );
            let bytes = (verdict->Ok_0).0;
            match checkpoint_authentication(envelope, trusted, now) {
                Ok(c) => envelope.checkpoint_schema_version == 1 && verdict is Ok && (
                json_outline(bytes) matches Ok(outline) && outline_problem(outline) is None)
                    && c.checkpoint_schema_version == 1 && c.payload_bytes == bytes && c.verified_by
                    == (verdict->Ok_0).1,
                Err(e) => {
                    &&& e is UnsupportedCheckpointSchemaVersion
                        <==> envelope.checkpoint_schema_version != 1
                    &&& envelope.checkpoint_schema_version == 1 && verdict is Ok ==> (json_outline(
                        bytes,
                    ) matches Ok(outline) ==> outline_problem(outline) is Some)
                },
            }
        }),
{
    let supported = SUPPORTED_CHECKPOINT_SCHEMA_VERSIONS@;
    assert(supported.len() == 1 && supported[0] == 1);
    assert(supported.contains(envelope.checkpoint_schema_version)
        ==> envelope.checkpoint_schema_version == 1);
    assert(envelope.checkpoint_schema_version == 1 ==> supported.contains(supported[0]));
}

} // verus!
