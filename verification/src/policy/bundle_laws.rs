//! What makes a signed envelope genuine and its payload acceptable, stated on
//! the envelope, the trusted keys and the payload themselves.
use vstd::prelude::*;

use super::bundle::{
    bundle_authentication, bundle_verification, envelope_verdict, failed_keys, first_mismatch,
    first_unusable, judged, payload_problem, store_problem, trusted_key, verifying_key,
    window_problem, AuthenticatedBundleModel, Bench, BundlePayloadModel, BundleRejectionModel,
    BundleSignatureModel, EnvelopeVerificationErrorModel, Judgement, SignedPolicyBundleModel,
    TrustedKeyModel,
};
use super::revocation::{
    first_bad_time, first_blank_reason, revocation_authentication, revocation_problem,
    AuthenticatedRevocationListModel, RevocationEntryModel, RevocationPayloadModel,
    RevocationRejectionModel, SignedRevocationListModel,
};
use super::target::PolicyBindingModel;
use crate::crypto::{
    base64_decoded, digest_text, ed25519_key, ed25519_signed, public_key, signature_bytes,
};
use crate::model::known_tag;
use crate::text::is_blank;
use crate::time::{rfc3339, Timestamp};

verus! {

/// Whether an instant is no later than another one.
pub open spec fn no_later(a: Timestamp, b: Timestamp) -> bool {
    a.parts().0 < b.parts().0 || (a.parts().0 == b.parts().0 && a.parts().1 <= b.parts().1)
}

/// Whether the key at `i` is the one a signature names: the first of that name.
pub open spec fn named_key(
    trusted: Seq<TrustedKeyModel>,
    i: int,
    signature: BundleSignatureModel,
) -> bool {
    &&& 0 <= i < trusted.len()
    &&& trusted[i].key_id == signature.key_id
    &&& forall|j: int| 0 <= j < i ==> (#[trigger] trusted[j]).key_id != signature.key_id
}

/// Whether a key is current: not before its start nor after its end, where it
/// has them.
pub open spec fn current(key: TrustedKeyModel, now: Timestamp) -> bool {
    &&& key.not_before matches Some(text) ==> (rfc3339(text) matches Some(start) && no_later(
        start,
        now,
    ))
    &&& key.not_after matches Some(text) ==> (rfc3339(text) matches Some(end) && no_later(now, end))
}

/// Whether the signature named by a key of the store can be checked: the key is
/// current, both are of the algorithm known here, and both can be decoded.
pub open spec fn checkable(
    key: TrustedKeyModel,
    signature: BundleSignatureModel,
    now: Timestamp,
) -> bool {
    &&& current(key, now)
    &&& signature.algorithm == known_tag(0)
    &&& key.algorithm == known_tag(0)
    &&& public_key(key.public_key_b64) is Some
    &&& signature_bytes(signature.signature_b64) is Some
}

/// Whether a signature is genuine for a message: the trusted key it names is
/// current and made it.
pub open spec fn genuine(
    trusted: Seq<TrustedKeyModel>,
    message: Seq<u8>,
    now: Timestamp,
    signature: BundleSignatureModel,
) -> bool {
    exists|i: int| #[trigger]
        named_key(trusted, i, signature) && checkable(trusted[i], signature, now) && ed25519_signed(
            public_key(trusted[i].public_key_b64).unwrap(),
            message,
            signature_bytes(signature.signature_b64).unwrap(),
        )
}

/// Whether a signature can be checked and is not one of the key it names.
pub open spec fn forged(
    trusted: Seq<TrustedKeyModel>,
    message: Seq<u8>,
    now: Timestamp,
    signature: BundleSignatureModel,
) -> bool {
    exists|i: int| #[trigger]
        named_key(trusted, i, signature) && checkable(trusted[i], signature, now)
            && !ed25519_signed(
            public_key(trusted[i].public_key_b64).unwrap(),
            message,
            signature_bytes(signature.signature_b64).unwrap(),
        )
}

proof fn lemma_named_key(trusted: Seq<TrustedKeyModel>, signature: BundleSignatureModel)
    ensures
        match trusted_key(trusted, signature.key_id) {
            Some(key) => exists|i: int| #[trigger]
                named_key(trusted, i, signature) && trusted[i] == key,
            None => forall|i: int|
                0 <= i < trusted.len() ==> (#[trigger] trusted[i]).key_id != signature.key_id,
        },
    decreases trusted.len(),
{
    if trusted.len() > 0 {
        if trusted[0].key_id == signature.key_id {
            assert(named_key(trusted, 0, signature));
        } else {
            let rest = trusted.drop_first();
            lemma_named_key(rest, signature);
            match trusted_key(rest, signature.key_id) {
                Some(key) => {
                    let i = choose|i: int| #[trigger]
                        named_key(rest, i, signature) && rest[i] == key;
                    assert forall|j: int| 0 <= j < i + 1 implies (#[trigger] trusted[j]).key_id
                        != signature.key_id by {
                        if j > 0 {
                            assert(rest[j - 1] == trusted[j]);
                        }
                    }
                    assert(trusted[i + 1] == rest[i]);
                    assert(named_key(trusted, i + 1, signature));
                },
                None => {
                    assert forall|i: int| 0 <= i < trusted.len() implies (
                    #[trigger] trusted[i]).key_id != signature.key_id by {
                        if i > 0 {
                            assert(rest[i - 1] == trusted[i]);
                        }
                    }
                },
            }
        }
    }
}

proof fn lemma_judged(bench: Bench, signature: BundleSignatureModel)
    ensures
        judged(bench, signature) is Verified <==> genuine(
            bench.trusted,
            bench.message,
            bench.now,
            signature,
        ),
        judged(bench, signature) is Failed <==> forged(
            bench.trusted,
            bench.message,
            bench.now,
            signature,
        ),
        judged(bench, signature) is Unknown <==> forall|i: int|
            0 <= i < bench.trusted.len() ==> (#[trigger] bench.trusted[i]).key_id
                != signature.key_id,
{
    lemma_named_key(bench.trusted, signature);
    match trusted_key(bench.trusted, signature.key_id) {
        Some(key) => {
            let i = choose|i: int| #[trigger]
                named_key(bench.trusted, i, signature) && bench.trusted[i] == key;
            assert forall|j: int| #[trigger] named_key(bench.trusted, j, signature) implies j
                == i by {
                if j < i {
                    assert(bench.trusted[j].key_id != signature.key_id);
                }
                if i < j {
                    assert(bench.trusted[i].key_id != signature.key_id);
                }
            }
            assert(window_problem(key, signature.key_id, bench.now) is None <==> current(
                key,
                bench.now,
            ));
            assert(bench.trusted[i].key_id == signature.key_id);
        },
        None => {
            assert forall|j: int| !#[trigger] named_key(bench.trusted, j, signature) by {}
        },
    }
}

/// Whether the signature at `i` is the first genuine one.
pub open spec fn first_genuine(
    trusted: Seq<TrustedKeyModel>,
    message: Seq<u8>,
    now: Timestamp,
    signatures: Seq<BundleSignatureModel>,
    i: int,
) -> bool {
    &&& 0 <= i < signatures.len()
    &&& genuine(trusted, message, now, signatures[i])
    &&& forall|j: int| 0 <= j < i ==> !genuine(trusted, message, now, #[trigger] signatures[j])
}

proof fn lemma_verifying_key(bench: Bench, signatures: Seq<BundleSignatureModel>)
    ensures
        match verifying_key(bench, signatures) {
            Some(key_id) => exists|i: int| #[trigger]
                first_genuine(bench.trusted, bench.message, bench.now, signatures, i)
                    && signatures[i].key_id == key_id,
            None => forall|i: int|
                0 <= i < signatures.len() ==> !genuine(
                    bench.trusted,
                    bench.message,
                    bench.now,
                    #[trigger] signatures[i],
                ),
        },
    decreases signatures.len(),
{
    if signatures.len() > 0 {
        let front = signatures.drop_last();
        let n = signatures.len() - 1;
        lemma_verifying_key(bench, front);
        lemma_judged(bench, signatures[n]);
        assert(signatures.last() == signatures[n]);
        assert forall|i: int| 0 <= i < n implies front[i] == #[trigger] signatures[i] by {}
        match verifying_key(bench, front) {
            Some(key_id) => {
                let i = choose|i: int| #[trigger]
                    first_genuine(bench.trusted, bench.message, bench.now, front, i)
                        && front[i].key_id == key_id;
                assert forall|j: int| 0 <= j < i implies !genuine(
                    bench.trusted,
                    bench.message,
                    bench.now,
                    #[trigger] signatures[j],
                ) by {
                    assert(front[j] == signatures[j]);
                }
                assert(front[i] == signatures[i]);
                assert(first_genuine(bench.trusted, bench.message, bench.now, signatures, i));
            },
            None => {
                assert forall|j: int| 0 <= j < n implies !genuine(
                    bench.trusted,
                    bench.message,
                    bench.now,
                    #[trigger] signatures[j],
                ) by {
                    assert(front[j] == signatures[j]);
                }
                if judged(bench, signatures[n]) is Verified {
                    assert(first_genuine(bench.trusted, bench.message, bench.now, signatures, n));
                }
            },
        }
    }
}

/// Whether what an envelope carries may be looked at: it has one to eight
/// signatures, and its payload can be decoded and is not too large.
pub open spec fn presentable(
    payload_b64: Seq<char>,
    signatures: Seq<BundleSignatureModel>,
    max_payload_bytes: usize,
) -> bool {
    &&& 1 <= signatures.len() <= 8
    &&& base64_decoded(payload_b64) matches Ok(payload) && payload.len() <= max_payload_bytes
}

/// An envelope is accepted exactly if it is presentable and one of its
/// signatures is genuine for the domain and the payload. Its payload is then
/// handed on, with the name of the key of the first genuine signature.
pub proof fn law_envelopes_need_one_genuine_signature(
    payload_b64: Seq<char>,
    signatures: Seq<BundleSignatureModel>,
    domain: Seq<u8>,
    max_payload_bytes: usize,
    trusted: Seq<TrustedKeyModel>,
    now: Timestamp,
)
    ensures
        ({
            let verdict = envelope_verdict(
                payload_b64,
                signatures,
                domain,
                max_payload_bytes,
                trusted,
                now,
            );
            let payload = base64_decoded(payload_b64)->Ok_0;
            &&& verdict is Ok <==> presentable(payload_b64, signatures, max_payload_bytes)
                && exists|i: int|
                0 <= i < signatures.len() && genuine(
                    trusted,
                    domain + payload,
                    now,
                    #[trigger] signatures[i],
                )
            &&& verdict matches Ok(accepted) ==> accepted.0 == payload && exists|i: int| #[trigger]
                first_genuine(trusted, domain + payload, now, signatures, i) && accepted.1
                    == signatures[i].key_id
        }),
{
    if presentable(payload_b64, signatures, max_payload_bytes) {
        let payload = base64_decoded(payload_b64)->Ok_0;
        let bench = Bench { message: domain + payload, trusted, now };
        lemma_verifying_key(bench, signatures);
        if verifying_key(bench, signatures) is Some {
            let i = choose|i: int| #[trigger]
                first_genuine(trusted, domain + payload, now, signatures, i)
                    && signatures[i].key_id == verifying_key(bench, signatures).unwrap();
            assert(genuine(trusted, domain + payload, now, signatures[i]));
        }
    }
}

proof fn lemma_failed_keys(bench: Bench, signatures: Seq<BundleSignatureModel>)
    ensures
        failed_keys(bench, signatures) == signatures.filter(
            |s: BundleSignatureModel| forged(bench.trusted, bench.message, bench.now, s),
        ).map_values(|s: BundleSignatureModel| s.key_id),
    decreases signatures.len(),
{
    reveal(Seq::filter);
    let pick = |s: BundleSignatureModel| forged(bench.trusted, bench.message, bench.now, s);
    let name = |s: BundleSignatureModel| s.key_id;
    if signatures.len() > 0 {
        let front = signatures.drop_last();
        lemma_failed_keys(bench, front);
        lemma_judged(bench, signatures.last());
        assert(failed_keys(bench, front) == front.filter(pick).map_values(name));
        assert(signatures.filter(pick).map_values(name) =~= if pick(signatures.last()) {
            front.filter(pick).map_values(name).push(signatures.last().key_id)
        } else {
            front.filter(pick).map_values(name)
        });
    } else {
        assert(failed_keys(bench, signatures) =~= signatures.filter(pick).map_values(name));
    }
}

proof fn lemma_first_unusable(bench: Bench, signatures: Seq<BundleSignatureModel>)
    ensures
        first_unusable(bench, signatures) is None <==> forall|i: int|
            0 <= i < signatures.len() ==> !(judged(bench, #[trigger] signatures[i]) is Unusable),
    decreases signatures.len(),
{
    if signatures.len() > 0 {
        let front = signatures.drop_last();
        let n = signatures.len() - 1;
        lemma_first_unusable(bench, front);
        assert(signatures.last() == signatures[n]);
        assert forall|i: int| 0 <= i < n implies front[i] == #[trigger] signatures[i] by {}
        if first_unusable(bench, front) is Some {
            let i = choose|i: int|
                0 <= i < front.len() && judged(bench, #[trigger] front[i]) is Unusable;
            assert(judged(bench, signatures[i]) is Unusable);
        } else {
            assert forall|i: int| 0 <= i < n implies !(judged(
                bench,
                #[trigger] signatures[i],
            ) is Unusable) by {
                assert(!(judged(bench, front[i]) is Unusable));
            }
        }
    }
}

/// Why an envelope is refused. The count of signatures comes first, then the
/// decoding, then the size. Where none is genuine, forged signatures are named
/// in order; where there are none of those either, the keys offered are all
/// unknown, or one that is known cannot be used.
pub proof fn law_refused_envelopes_tell_why(
    payload_b64: Seq<char>,
    signatures: Seq<BundleSignatureModel>,
    domain: Seq<u8>,
    max_payload_bytes: usize,
    trusted: Seq<TrustedKeyModel>,
    now: Timestamp,
)
    requires
        signatures.len() <= usize::MAX,
    ensures
        envelope_verdict(
            payload_b64,
            signatures,
            domain,
            max_payload_bytes,
            trusted,
            now,
        ) matches Err(e) ==> {
            let payload = base64_decoded(payload_b64)->Ok_0;
            let forgeries = signatures.filter(
                |s: BundleSignatureModel| forged(trusted, domain + payload, now, s),
            );
            &&& e is NoSignatures <==> signatures.len() == 0
            &&& e is TooManySignatures <==> signatures.len() > 8
            &&& e is MalformedPayloadEncoding <==> 1 <= signatures.len() <= 8 && base64_decoded(
                payload_b64,
            ) is Err
            &&& e is PayloadTooLarge <==> 1 <= signatures.len() <= 8 && base64_decoded(
                payload_b64,
            ) is Ok && payload.len() > max_payload_bytes
            &&& presentable(payload_b64, signatures, max_payload_bytes) ==> {
                &&& e is SignatureInvalid <==> forgeries.len() > 0
                &&& e matches EnvelopeVerificationErrorModel::SignatureInvalid { key_ids }
                    ==> key_ids == forgeries.map_values(|s: BundleSignatureModel| s.key_id)
                &&& e is UnknownKeyId <==> forall|i: int, k: int|
                    #![trigger signatures[i], trusted[k]]
                    0 <= i < signatures.len() && 0 <= k < trusted.len() ==> trusted[k].key_id
                        != signatures[i].key_id
            }
        },
{
    if presentable(payload_b64, signatures, max_payload_bytes) && envelope_verdict(
        payload_b64,
        signatures,
        domain,
        max_payload_bytes,
        trusted,
        now,
    ) is Err {
        let payload = base64_decoded(payload_b64)->Ok_0;
        let bench = Bench { message: domain + payload, trusted, now };
        let pick = |s: BundleSignatureModel| forged(trusted, domain + payload, now, s);
        lemma_verifying_key(bench, signatures);
        lemma_failed_keys(bench, signatures);
        lemma_first_unusable(bench, signatures);
        assert(signatures.filter(pick) =~= signatures.filter(
            |s: BundleSignatureModel| forged(bench.trusted, bench.message, bench.now, s),
        ));
        assert forall|i: int| 0 <= i < signatures.len() implies (judged(
            bench,
            #[trigger] signatures[i],
        ) is Unknown <==> forall|k: int|
            0 <= k < trusted.len() ==> (#[trigger] trusted[k]).key_id != signatures[i].key_id) by {
            lemma_judged(bench, signatures[i]);
        }
        if failed_keys(bench, signatures).len() == 0 {
            assert forall|i: int| 0 <= i < signatures.len() implies !(judged(
                bench,
                #[trigger] signatures[i],
            ) is Failed) && !(judged(bench, signatures[i]) is Verified) by {
                lemma_judged(bench, signatures[i]);
                if judged(bench, signatures[i]) is Failed {
                    lemma_filter_keeps(signatures, pick, i);
                }
            }
            if first_unusable(bench, signatures) is Some {
                let i = choose|i: int|
                    0 <= i < signatures.len() && judged(
                        bench,
                        #[trigger] signatures[i],
                    ) is Unusable;
                let k = choose|k: int|
                    0 <= k < trusted.len() && (#[trigger] trusted[k]).key_id
                        == signatures[i].key_id;
                assert(trusted[k].key_id == signatures[i].key_id);
                lemma_unusable_not_unknown(bench, signatures, i);
            } else {
                assert forall|i: int, k: int|
                    #![trigger signatures[i], trusted[k]]
                    0 <= i < signatures.len() && 0 <= k < trusted.len() implies trusted[k].key_id
                    != signatures[i].key_id by {
                    assert(judged(bench, signatures[i]) is Unknown);
                }
            }
        } else {
            lemma_filter_some(signatures, pick);
            let i = choose|i: int| 0 <= i < signatures.len() && pick(#[trigger] signatures[i]);
            lemma_judged(bench, signatures[i]);
            let k = choose|k: int| #[trigger] named_key(trusted, k, signatures[i]);
            assert(trusted[k].key_id == signatures[i].key_id);
        }
    }
}

proof fn lemma_unusable_not_unknown(bench: Bench, signatures: Seq<BundleSignatureModel>, i: int)
    requires
        0 <= i < signatures.len(),
        first_unusable(bench, signatures) is Some,
    ensures
        first_unusable(bench, signatures).unwrap() is MalformedKeyTimestamp || first_unusable(
            bench,
            signatures,
        ).unwrap() is KeyNotYetValid || first_unusable(bench, signatures).unwrap() is KeyRetired
            || first_unusable(bench, signatures).unwrap() is UnsupportedAlgorithm
            || first_unusable(bench, signatures).unwrap() is MalformedSignature,
    decreases signatures.len(),
{
    let front = signatures.drop_last();
    if first_unusable(bench, front) is Some {
        lemma_unusable_not_unknown(bench, front, 0);
    }
}

proof fn lemma_filter_keeps<T>(s: Seq<T>, pick: spec_fn(T) -> bool, i: int)
    requires
        0 <= i < s.len(),
        pick(s[i]),
    ensures
        s.filter(pick).len() > 0,
    decreases s.len(),
{
    reveal(Seq::filter);
    if i < s.len() - 1 {
        assert(s.drop_last()[i] == s[i]);
        lemma_filter_keeps(s.drop_last(), pick, i);
    }
}

proof fn lemma_filter_some<T>(s: Seq<T>, pick: spec_fn(T) -> bool)
    requires
        s.filter(pick).len() > 0,
    ensures
        exists|i: int| 0 <= i < s.len() && pick(#[trigger] s[i]),
    decreases s.len(),
{
    reveal(Seq::filter);
    if s.len() > 0 {
        if pick(s.last()) {
            assert(pick(s[s.len() - 1]));
        } else {
            lemma_filter_some(s.drop_last(), pick);
            let i = choose|i: int|
                0 <= i < s.drop_last().len() && pick(#[trigger] s.drop_last()[i]);
            assert(s[i] == s.drop_last()[i]);
        }
    }
}

/// A bundle is authenticated exactly if its version is the one read here and its
/// envelope is accepted, for its own signing domain and up to one mebibyte. What
/// comes out carries the version, the payload and the key.
pub proof fn law_bundles_are_authenticated_by_their_envelope(
    envelope: SignedPolicyBundleModel,
    trusted: Seq<TrustedKeyModel>,
    now: Timestamp,
)
    ensures
        ({
            let verdict = envelope_verdict(
                envelope.payload_b64,
                envelope.signatures,
                super::bundle::BUNDLE_SIGNING_DOMAIN@,
                1_048_576,
                trusted,
                now,
            );
            match bundle_authentication(envelope, trusted, now) {
                Ok(bundle) => envelope.bundle_schema_version == 1 && verdict == Ok::<
                    _,
                    EnvelopeVerificationErrorModel,
                >((bundle.payload_bytes, bundle.verified_by)) && bundle.bundle_schema_version == 1,
                Err(e) => (envelope.bundle_schema_version != 1 || verdict is Err) && (
                e is UnsupportedBundleSchemaVersion <==> envelope.bundle_schema_version != 1),
            }
        }),
{
    let supported = super::bundle::SUPPORTED_BUNDLE_SCHEMA_VERSIONS@;
    assert(supported.len() == 1 && supported[0] == 1);
    assert(supported.contains(envelope.bundle_schema_version) ==> envelope.bundle_schema_version
        == 1);
    assert(envelope.bundle_schema_version == 1 ==> supported.contains(supported[0]));
}

/// The same of revocation lists, with a signing domain of their own.
pub proof fn law_revocation_lists_are_authenticated_by_their_envelope(
    envelope: SignedRevocationListModel,
    trusted: Seq<TrustedKeyModel>,
    now: Timestamp,
)
    ensures
        ({
            let verdict = envelope_verdict(
                envelope.payload_b64,
                envelope.signatures,
                super::revocation::REVOCATION_SIGNING_DOMAIN@,
                1_048_576,
                trusted,
                now,
            );
            match revocation_authentication(envelope, trusted, now) {
                Ok(list) => envelope.revocation_schema_version == 1 && verdict == Ok::<
                    _,
                    EnvelopeVerificationErrorModel,
                >((list.payload_bytes, list.verified_by)) && list.revocation_schema_version == 1,
                Err(e) => (envelope.revocation_schema_version != 1 || verdict is Err) && (
                e is UnsupportedRevocationSchemaVersion <==> envelope.revocation_schema_version
                    != 1),
            }
        }),
{
    let supported = super::revocation::SUPPORTED_REVOCATION_SCHEMA_VERSIONS@;
    assert(supported.len() == 1 && supported[0] == 1);
    assert(supported.contains(envelope.revocation_schema_version)
        ==> envelope.revocation_schema_version == 1);
    assert(envelope.revocation_schema_version == 1 ==> supported.contains(supported[0]));
}

/// The instant a text stands for, with the fraction of a leap second carried
/// into the next second.
pub open spec fn carried(t: Timestamp) -> (int, int) {
    if t.parts().1 >= 1_000_000_000 {
        (t.parts().0 + 1, t.parts().1 - 1_000_000_000)
    } else {
        t.parts()
    }
}

/// Whether a bundle starts more than five minutes after an instant.
pub open spec fn not_begun(start: Timestamp, now: Timestamp) -> bool {
    now.parts().0 + 300 < carried(start).0 || (now.parts().0 + 300 == carried(start).0
        && now.parts().1 < carried(start).1)
}

/// Whether the binding at `i` is the first that references another digest than
/// the bundle's revision has.
pub open spec fn first_stray(payload: BundlePayloadModel, i: int) -> bool {
    &&& 0 <= i < payload.bindings.len()
    &&& payload.bindings[i].revision_ref.digest != payload.revision.digest
    &&& forall|j: int|
        0 <= j < i ==> (#[trigger] payload.bindings[j]).revision_ref.digest
            == payload.revision.digest
}

proof fn lemma_first_mismatch(bindings: Seq<PolicyBindingModel>, digest: Seq<char>)
    ensures
        match first_mismatch(bindings, digest) {
            None => forall|i: int|
                0 <= i < bindings.len() ==> (#[trigger] bindings[i]).revision_ref.digest == digest,
            Some(b) => exists|i: int|
                0 <= i < bindings.len() && #[trigger] bindings[i] == b && b.revision_ref.digest
                    != digest && forall|j: int|
                    0 <= j < i ==> (#[trigger] bindings[j]).revision_ref.digest == digest,
        },
    decreases bindings.len(),
{
    if bindings.len() > 0 {
        let rest = bindings.drop_first();
        lemma_first_mismatch(rest, digest);
        if bindings[0].revision_ref.digest == digest {
            match first_mismatch(rest, digest) {
                None => {
                    assert forall|i: int| 0 <= i < bindings.len() implies (
                    #[trigger] bindings[i]).revision_ref.digest == digest by {
                        if i > 0 {
                            assert(rest[i - 1] == bindings[i]);
                        }
                    }
                },
                Some(b) => {
                    let i = choose|i: int|
                        0 <= i < rest.len() && #[trigger] rest[i] == b && b.revision_ref.digest
                            != digest && forall|j: int|
                            0 <= j < i ==> (#[trigger] rest[j]).revision_ref.digest == digest;
                    assert(bindings[i + 1] == b);
                    assert forall|j: int| 0 <= j < i + 1 implies (
                    #[trigger] bindings[j]).revision_ref.digest == digest by {
                        if j > 0 {
                            assert(rest[j - 1] == bindings[j]);
                        }
                    }
                },
            }
        } else {
            assert(bindings[0] == bindings[0]);
        }
    }
}

/// The payload of an authenticated bundle is accepted exactly if it has the
/// version of its envelope, its three times can be read, it starts at most five
/// minutes from now and has not ended, and each binding references its
/// revision. It is handed on as it is, with the key and the digest of the bytes.
pub proof fn law_payloads_are_accepted_in_their_window(
    bundle: AuthenticatedBundleModel,
    payload: BundlePayloadModel,
    now: Timestamp,
)
    ensures
        bundle_verification(bundle, payload, now) is Ok <==> {
            &&& payload.bundle_schema_version == bundle.bundle_schema_version
            &&& rfc3339(payload.issued_at) is Some
            &&& rfc3339(payload.not_before) matches Some(start) && !not_begun(start, now)
            &&& rfc3339(payload.expires_at) matches Some(end) && no_later(now, end)
            &&& forall|i: int|
                0 <= i < payload.bindings.len() ==> (
                #[trigger] payload.bindings[i]).revision_ref.digest == payload.revision.digest
        },
        bundle_verification(bundle, payload, now) matches Ok(v) ==> v.payload == payload
            && v.verified_by == bundle.verified_by && v.payload_digest == digest_text(
            bundle.payload_bytes,
        ),
{
    lemma_first_mismatch(payload.bindings, payload.revision.digest);
}

/// Why a payload is refused: the version first, then the times in the order
/// start, end and issue, then the window, and last the first stray binding.
pub proof fn law_refused_payloads_tell_why(
    bundle: AuthenticatedBundleModel,
    payload: BundlePayloadModel,
    now: Timestamp,
)
    ensures
        payload_problem(bundle, payload, now) matches Some(e) ==> {
            let same = payload.bundle_schema_version == bundle.bundle_schema_version;
            let start = rfc3339(payload.not_before);
            let end = rfc3339(payload.expires_at);
            let issued = rfc3339(payload.issued_at);
            let readable = start is Some && end is Some && issued is Some;
            &&& e is SchemaVersionMismatch <==> !same
            &&& e is MalformedTimestamp <==> same && !readable
            &&& e matches BundleRejectionModel::MalformedTimestamp { value, .. } ==> value == (
            if start is None {
                payload.not_before
            } else if end is None {
                payload.expires_at
            } else {
                payload.issued_at
            })
            &&& e is BundleNotYetValid <==> same && readable && not_begun(start.unwrap(), now)
            &&& e is BundleExpired <==> same && readable && !not_begun(start.unwrap(), now)
                && !no_later(now, end.unwrap())
            &&& e matches BundleRejectionModel::BindingRevisionMismatch {
                binding_id,
                expected,
                actual,
            } ==> exists|i: int| #[trigger]
                first_stray(payload, i) && binding_id == payload.bindings[i].binding_id && expected
                    == payload.bindings[i].revision_ref.digest && actual == payload.revision.digest
        },
{
    lemma_first_mismatch(payload.bindings, payload.revision.digest);
    if payload_problem(bundle, payload, now) matches Some(BundleRejectionModel::BindingRevisionMismatch {
        ..
    }) {
        let b = first_mismatch(payload.bindings, payload.revision.digest).unwrap();
        let i = choose|i: int|
            0 <= i < payload.bindings.len() && #[trigger] payload.bindings[i] == b
                && b.revision_ref.digest != payload.revision.digest && forall|j: int|
                0 <= j < i ==> (#[trigger] payload.bindings[j]).revision_ref.digest
                    == payload.revision.digest;
        assert(first_stray(payload, i));
    }
}

proof fn lemma_bad_time(entries: Seq<RevocationEntryModel>, n: int)
    requires
        0 <= n <= entries.len(),
    ensures
        match first_bad_time(entries, n) {
            None => forall|i: int|
                n <= i < entries.len() ==> rfc3339((#[trigger] entries[i]).revoked_at) is Some,
            Some(i) => n <= i < entries.len() && rfc3339(entries[i].revoked_at) is None && forall|
                j: int,
            |
                n <= j < i ==> rfc3339((#[trigger] entries[j]).revoked_at) is Some,
        },
        match first_blank_reason(entries, n) {
            None => forall|i: int|
                n <= i < entries.len() ==> !is_blank((#[trigger] entries[i]).reason),
            Some(i) => n <= i < entries.len() && is_blank(entries[i].reason) && forall|j: int|
                n <= j < i ==> !is_blank((#[trigger] entries[j]).reason),
        },
    decreases entries.len() - n,
{
    if n < entries.len() {
        lemma_bad_time(entries, n + 1);
    }
}

/// The payload of an authenticated revocation list is accepted exactly if it
/// has the version of its envelope, its times can be read, it has at most 4096
/// entries, and its issuer and every reason say something. A refusal names the
/// first entry at fault.
pub proof fn law_revocation_payloads_are_checked_entry_by_entry(
    list: AuthenticatedRevocationListModel,
    payload: RevocationPayloadModel,
)
    requires
        payload.entries.len() <= usize::MAX,
    ensures
        revocation_problem(list, payload) is None <==> {
            &&& payload.revocation_schema_version == list.revocation_schema_version
            &&& rfc3339(payload.issued_at) is Some
            &&& payload.entries.len() <= 4096
            &&& !is_blank(payload.issuer)
            &&& forall|i: int|
                0 <= i < payload.entries.len() ==> rfc3339(
                    (#[trigger] payload.entries[i]).revoked_at,
                ) is Some && !is_blank(payload.entries[i].reason)
        },
        revocation_problem(list, payload) matches Some(e) ==> {
            &&& e is SchemaVersionMismatch <==> payload.revocation_schema_version
                != list.revocation_schema_version
            &&& e matches RevocationRejectionModel::EntryTimestampMalformed { index, value } ==> {
                &&& index < payload.entries.len()
                &&& value == payload.entries[index as int].revoked_at
                &&& rfc3339(value) is None
                &&& forall|j: int|
                    0 <= j < index ==> rfc3339((#[trigger] payload.entries[j]).revoked_at) is Some
            }
            &&& e matches RevocationRejectionModel::EmptyReason { index } ==> {
                &&& index < payload.entries.len()
                &&& is_blank(payload.entries[index as int].reason)
                &&& forall|j: int|
                    0 <= j < index ==> !is_blank((#[trigger] payload.entries[j]).reason)
            }
            &&& e is TooManyEntries ==> payload.entries.len() > 4096
            &&& e is EmptyIssuer ==> is_blank(payload.issuer)
        },
{
    lemma_bad_time(payload.entries, 0);
}

/// Whether the key at `i` spoils a trust store: an earlier one of its name
/// differs, it cannot be decoded, or one of its times cannot be read.
pub open spec fn spoils(keys: Seq<TrustedKeyModel>, i: int) -> bool {
    ||| exists|j: int|
        0 <= j < i && (#[trigger] keys[j]).key_id == keys[i].key_id && keys[j] != keys[i] && (
        forall|k: int| 0 <= k < j ==> (#[trigger] keys[k]).key_id != keys[i].key_id)
    ||| public_key(keys[i].public_key_b64) is None
    ||| keys[i].not_before matches Some(text) && rfc3339(text) is None
    ||| keys[i].not_after matches Some(text) && rfc3339(text) is None
}

proof fn lemma_first_of_name(keys: Seq<TrustedKeyModel>, key_id: Seq<char>)
    ensures
        match trusted_key(keys, key_id) {
            Some(key) => exists|i: int|
                0 <= i < keys.len() && #[trigger] keys[i] == key && key.key_id == key_id && forall|
                    j: int,
                |
                    0 <= j < i ==> (#[trigger] keys[j]).key_id != key_id,
            None => forall|i: int| 0 <= i < keys.len() ==> (#[trigger] keys[i]).key_id != key_id,
        },
    decreases keys.len(),
{
    if keys.len() > 0 {
        if keys[0].key_id == key_id {
            assert(keys[0] == keys[0]);
        } else {
            let rest = keys.drop_first();
            lemma_first_of_name(rest, key_id);
            match trusted_key(rest, key_id) {
                Some(key) => {
                    let i = choose|i: int|
                        0 <= i < rest.len() && #[trigger] rest[i] == key && key.key_id == key_id
                            && forall|j: int|
                            0 <= j < i ==> (#[trigger] rest[j]).key_id != key_id;
                    assert(keys[i + 1] == key);
                    assert forall|j: int| 0 <= j < i + 1 implies (#[trigger] keys[j]).key_id
                        != key_id by {
                        if j > 0 {
                            assert(rest[j - 1] == keys[j]);
                        }
                    }
                },
                None => {
                    assert forall|i: int| 0 <= i < keys.len() implies (#[trigger] keys[i]).key_id
                        != key_id by {
                        if i > 0 {
                            assert(rest[i - 1] == keys[i]);
                        }
                    }
                },
            }
        }
    }
}

proof fn lemma_spoils(keys: Seq<TrustedKeyModel>, i: int)
    requires
        0 <= i < keys.len(),
    ensures
        super::bundle::key_problem(keys, i) is Some <==> spoils(keys, i),
{
    let before = keys.take(i);
    lemma_first_of_name(before, keys[i].key_id);
    assert forall|j: int| 0 <= j < i implies before[j] == #[trigger] keys[j] by {}
    match trusted_key(before, keys[i].key_id) {
        Some(key) => {
            let j = choose|j: int|
                0 <= j < before.len() && #[trigger] before[j] == key && key.key_id == keys[i].key_id
                    && forall|k: int|
                    0 <= k < j ==> (#[trigger] before[k]).key_id != keys[i].key_id;
            assert(keys[j] == key);
            assert forall|k: int| 0 <= k < j implies (#[trigger] keys[k]).key_id
                != keys[i].key_id by {
                assert(before[k] == keys[k]);
            }
            if exists|j: int|
                0 <= j < i && (#[trigger] keys[j]).key_id == keys[i].key_id && keys[j] != keys[i]
                    && (forall|k: int| 0 <= k < j ==> (#[trigger] keys[k]).key_id != keys[i].key_id) {
                let m = choose|j: int|
                    0 <= j < i && (#[trigger] keys[j]).key_id == keys[i].key_id && keys[j]
                        != keys[i] && (forall|k: int|
                        0 <= k < j ==> (#[trigger] keys[k]).key_id != keys[i].key_id);
                if m < j {
                    assert(keys[m].key_id != keys[i].key_id);
                }
                if j < m {
                    assert(keys[j].key_id != keys[i].key_id);
                }
            }
        },
        None => {
            assert forall|j: int| 0 <= j < i implies (#[trigger] keys[j]).key_id != keys[i].key_id by {
                assert(before[j] == keys[j]);
            }
        },
    }
}

proof fn lemma_store(keys: Seq<TrustedKeyModel>, n: int)
    requires
        0 <= n <= keys.len(),
    ensures
        store_problem(keys, n) is None <==> forall|i: int|
            n <= i < keys.len() ==> !#[trigger] spoils(keys, i),
    decreases keys.len() - n,
{
    if n < keys.len() {
        lemma_store(keys, n + 1);
        lemma_spoils(keys, n);
    }
}

/// A trust store is sound exactly if no key spoils it.
pub proof fn law_sound_stores_have_only_sound_keys(keys: Seq<TrustedKeyModel>)
    ensures
        store_problem(keys, 0) is None <==> forall|i: int|
            0 <= i < keys.len() ==> !#[trigger] spoils(keys, i),
{
    lemma_store(keys, 0);
}

/// A public key is thirty-two bytes that are a key, and a signature is
/// sixty-four bytes, as decoded from their text.
pub proof fn law_keys_and_signatures_have_their_length(text: Seq<char>)
    ensures
        public_key(text) is Some <==> (base64_decoded(text) matches Ok(bytes) && bytes.len() == 32
            && ed25519_key(bytes)),
        public_key(text) matches Some(key) ==> base64_decoded(text) == Ok::<_, Seq<char>>(key),
        signature_bytes(text) is Some <==> (base64_decoded(text) matches Ok(bytes) && bytes.len()
            == 64),
        signature_bytes(text) matches Some(s) ==> base64_decoded(text) == Ok::<_, Seq<char>>(s),
{
}

/// Why a signature whose key is known cannot be checked. The key's start is
/// looked at before its end, its times before the algorithms, and those before
/// what cannot be decoded.
pub proof fn law_unusable_signatures_tell_why(
    bench: Bench,
    signature: BundleSignatureModel,
    i: int,
)
    requires
        named_key(bench.trusted, i, signature),
    ensures
        judged(bench, signature) matches Judgement::Unusable(e) ==> {
            let key = bench.trusted[i];
            let start_read = key.not_before matches Some(text) ==> rfc3339(text) is Some;
            let begun = start_read && (key.not_before matches Some(text) ==> no_later(
                rfc3339(text).unwrap(),
                bench.now,
            ));
            let end_read = key.not_after matches Some(text) ==> rfc3339(text) is Some;
            let over = end_read && (key.not_after matches Some(text) && !no_later(
                bench.now,
                rfc3339(text).unwrap(),
            ));
            let known = signature.algorithm == known_tag(0) && key.algorithm == known_tag(0);
            &&& e is MalformedKeyTimestamp <==> !start_read || (begun && !end_read)
            &&& e is KeyNotYetValid <==> start_read && !begun
            &&& e is KeyRetired <==> begun && over
            &&& e is UnsupportedAlgorithm <==> current(key, bench.now) && !known
            &&& e is MalformedSignature <==> current(key, bench.now) && known && (public_key(
                key.public_key_b64,
            ) is None || signature_bytes(signature.signature_b64) is None)
        },
{
    lemma_named_key(bench.trusted, signature);
    let key = trusted_key(bench.trusted, signature.key_id);
    assert(bench.trusted[i].key_id == signature.key_id);
    let k = choose|k: int| #[trigger]
        named_key(bench.trusted, k, signature) && bench.trusted[k] == key.unwrap();
    if k < i {
        assert(bench.trusted[k].key_id != signature.key_id);
    }
    if i < k {
        assert(bench.trusted[i].key_id != signature.key_id);
    }
}

proof fn lemma_first_unusable_found(bench: Bench, signatures: Seq<BundleSignatureModel>)
    requires
        first_unusable(bench, signatures) is Some,
    ensures
        exists|i: int|
            0 <= i < signatures.len() && judged(bench, #[trigger] signatures[i])
                == Judgement::Unusable(first_unusable(bench, signatures).unwrap()) && forall|j: int|
                0 <= j < i ==> !(judged(bench, #[trigger] signatures[j]) is Unusable),
    decreases signatures.len(),
{
    let front = signatures.drop_last();
    let n = signatures.len() - 1;
    assert(signatures.last() == signatures[n]);
    assert forall|i: int| 0 <= i < n implies front[i] == #[trigger] signatures[i] by {}
    lemma_first_unusable(bench, front);
    if first_unusable(bench, front) is Some {
        lemma_first_unusable_found(bench, front);
        let i = choose|i: int|
            0 <= i < front.len() && judged(bench, #[trigger] front[i]) == Judgement::Unusable(
                first_unusable(bench, front).unwrap(),
            ) && forall|j: int|
                0 <= j < i ==> !(judged(bench, #[trigger] front[j]) is Unusable);
        assert(signatures[i] == front[i]);
        assert forall|j: int| 0 <= j < i implies !(judged(
            bench,
            #[trigger] signatures[j],
        ) is Unusable) by {
            assert(front[j] == signatures[j]);
        }
    } else {
        assert forall|j: int| 0 <= j < n implies !(judged(
            bench,
            #[trigger] signatures[j],
        ) is Unusable) by {
            assert(front[j] == signatures[j]);
        }
        assert(judged(bench, signatures[n]) is Unusable);
    }
}

/// What a refusal carries: the counts and limits, the decoder's words, the keys
/// offered in order, or what is wrong with the first signature whose known key
/// cannot be used.
pub proof fn law_refused_envelopes_carry_the_facts(
    payload_b64: Seq<char>,
    signatures: Seq<BundleSignatureModel>,
    domain: Seq<u8>,
    max_payload_bytes: usize,
    trusted: Seq<TrustedKeyModel>,
    now: Timestamp,
)
    requires
        signatures.len() <= usize::MAX,
        base64_decoded(payload_b64) matches Ok(payload) ==> payload.len() <= usize::MAX,
    ensures
        envelope_verdict(
            payload_b64,
            signatures,
            domain,
            max_payload_bytes,
            trusted,
            now,
        ) matches Err(e) ==> match e {
            EnvelopeVerificationErrorModel::NoSignatures => true,
            EnvelopeVerificationErrorModel::TooManySignatures { found, max } => found
                == signatures.len() && max == 8,
            EnvelopeVerificationErrorModel::MalformedPayloadEncoding { detail } => base64_decoded(
                payload_b64,
            ) == Err::<Seq<u8>, _>(detail),
            EnvelopeVerificationErrorModel::PayloadTooLarge { found, max } => found
                == base64_decoded(payload_b64)->Ok_0.len() && max == max_payload_bytes,
            EnvelopeVerificationErrorModel::SignatureInvalid { .. } => true,
            EnvelopeVerificationErrorModel::UnknownKeyId { offered } => offered.len()
                == signatures.len() && forall|i: int|
                0 <= i < offered.len() ==> #[trigger] offered[i] == signatures[i].key_id,
            _ => {
                let bench = Bench {
                    message: domain + base64_decoded(payload_b64)->Ok_0,
                    trusted,
                    now,
                };
                exists|i: int|
                    0 <= i < signatures.len() && judged(bench, #[trigger] signatures[i])
                        == Judgement::Unusable(e) && forall|j: int|
                        0 <= j < i ==> !(judged(bench, #[trigger] signatures[j]) is Unusable)
            },
        },
{
    if presentable(payload_b64, signatures, max_payload_bytes) {
        let bench = Bench {
            message: domain + base64_decoded(payload_b64)->Ok_0,
            trusted,
            now,
        };
        if first_unusable(bench, signatures) is Some {
            lemma_first_unusable_found(bench, signatures);
        }
    }
}

} // verus!
