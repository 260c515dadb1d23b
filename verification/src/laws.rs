//! The cross-component guarantees of the library, stated and proved over
//! the contracts of the issuer and the verifier.

use vstd::prelude::*;
use crate::cefr::{level_from_course, rank, CefrLevel};
use crate::certificate::Certificate;
use crate::issuer::{
    circuit_id_of, issue_error, issue_outcome, issued_claim_ok, vk_hash_of, CertificateIssuer,
    IssueOutcome, IssuerErrorModel,
};
use crate::text::{contains_string, eq_ignore_ascii_case_seq};
use crate::issuer::{certificate_acceptable, certificate_language, combined_pass};
use crate::verification::{default_registry, verify_error, ZkProofVerifier};
use crate::zk_proof::ClaimTypeModel;

verus! {

/// The verifier's default registry holds every circuit the issuer can
/// name, and expects exactly the verification-key hash the issuer
/// computes for it: both sides use one formula, so the hashes agree for
/// every claim.
pub proof fn lemma_vk_hash_agreement(claim: ClaimTypeModel)
    ensures
        default_registry().contains_key(circuit_id_of(claim)),
        default_registry()[circuit_id_of(claim)].vk_hash == vk_hash_of(circuit_id_of(claim)),
{
    reveal_strlit("language_proficiency_v1");
    reveal_strlit("performance_threshold_v1");
    reveal_strlit("completion_date_v1");
    reveal_strlit("combined_criteria_v1");
    assert("language_proficiency_v1"@.len() == 23);
    assert("performance_threshold_v1"@.len() == 24);
    assert("completion_date_v1"@.len() == 18);
    assert("combined_criteria_v1"@.len() == 20);
}

/// A certificate in the requested language at or above the requested
/// level yields an envelope that the default verifier accepts with the
/// requirements reported met: no check of the verifier's pipeline can
/// refuse it, and the reported result is true.
pub proof fn lemma_matching_language_claim_verifies(
    issuer: CertificateIssuer,
    verifier: ZkProofVerifier,
    certificate: Certificate,
    language: Seq<char>,
    min_level: CefrLevel,
    platform: Seq<char>,
    custom: Seq<(Seq<char>, Seq<char>)>,
    claim: crate::zk_proof::ZkProofClaim,
)
    requires
        certificate_acceptable(certificate),
        contains_string(issuer.supported_platforms@, platform),
        contains_string(verifier.supported_platforms@, platform),
        verifier.trusted_circuits.to_map() == default_registry(),
        eq_ignore_ascii_case_seq(certificate_language(certificate), language),
        level_from_course(certificate.game_path_name@) is Some,
        rank(level_from_course(certificate.game_path_name@)->0) >= rank(min_level),
        issued_claim_ok(
            issuer,
            certificate,
            ClaimTypeModel::LanguageProficiency { language, min_level },
            platform,
            custom,
            claim,
        ),
    ensures
        issue_error(
            issuer,
            certificate,
            ClaimTypeModel::LanguageProficiency { language, min_level },
            platform,
        ) is None,
        claim.public_inputs.verification_result,
        verify_error(verifier, claim.deep_view()) is None,
{
    let claim_type = ClaimTypeModel::LanguageProficiency { language, min_level };
    lemma_vk_hash_agreement(claim_type);
    reveal_strlit("language_proficiency_v1");
    assert(circuit_id_of(claim_type).len() == 23);
    assert(crate::zk_proof::integrity_ok(claim.deep_view()));
}

/// A performance threshold above the certificate's percentage is a hard
/// refusal: the issuer reports insufficient performance, carrying the
/// demanded and the actual percentage.
pub proof fn lemma_insufficient_performance_refused(
    issuer: CertificateIssuer,
    certificate: Certificate,
    min_percentage: u8,
    platform: Seq<char>,
)
    requires
        certificate_acceptable(certificate),
        contains_string(issuer.supported_platforms@, platform),
        min_percentage > certificate.performance_percentage,
    ensures
        issue_error(
            issuer,
            certificate,
            ClaimTypeModel::PerformanceThreshold { min_percentage },
            platform,
        ) == Some(
            IssuerErrorModel::InsufficientPerformance {
                required: min_percentage,
                actual: certificate.performance_percentage,
            },
        ),
{
}

/// One criterion passes when its evaluation grants the claim with a true
/// reported result.
pub open spec fn criterion_passes(certificate: Certificate, criterion: ClaimTypeModel) -> bool {
    issue_outcome(certificate, criterion) matches IssueOutcome::Granted { meets: true, .. }
}

/// A combined claim over an acceptable certificate and supported
/// platform is always granted — a failing criterion never surfaces as an
/// error — and its reported result is the conjunction over the criteria:
/// true exactly when every criterion is granted with a true result.
pub proof fn lemma_combined_always_granted(
    issuer: CertificateIssuer,
    certificate: Certificate,
    criteria: Seq<ClaimTypeModel>,
    platform: Seq<char>,
)
    requires
        certificate_acceptable(certificate),
        contains_string(issuer.supported_platforms@, platform),
    ensures
        issue_error(issuer, certificate, ClaimTypeModel::Combined { criteria }, platform)
            is None,
        issue_outcome(certificate, ClaimTypeModel::Combined { criteria })
            matches IssueOutcome::Granted { meets, .. } && meets == (forall|j: int|
            0 <= j < criteria.len() ==> criterion_passes(certificate, #[trigger] criteria[j])),
{
    lemma_combined_pass_characterization(certificate, criteria, criteria.len() as int);
}

/// The running conjunction over a prefix of the criteria is true exactly
/// when each criterion in the prefix passes.
pub proof fn lemma_combined_pass_characterization(
    certificate: Certificate,
    criteria: Seq<ClaimTypeModel>,
    upto: int,
)
    requires
        0 <= upto <= criteria.len(),
    ensures
        combined_pass(certificate, criteria, upto) <==> (forall|j: int|
            0 <= j < upto ==> criterion_passes(certificate, #[trigger] criteria[j])),
    decreases upto,
{
    if upto > 0 {
        lemma_combined_pass_characterization(certificate, criteria, upto - 1);
    }
}

/// Tampering with an issued envelope's verification-key hash, or
/// pointing it at an unregistered circuit, makes the default verifier
/// refuse it with a circuit failure: the hash must be byte-identical to
/// the registry's expectation.
pub proof fn lemma_tampered_circuit_refused(
    verifier: ZkProofVerifier,
    claim: crate::zk_proof::ZkProofClaimModel,
)
    requires
        verifier.trusted_circuits.to_map() == default_registry(),
        crate::zk_proof::integrity_ok(claim),
        contains_string(verifier.supported_platforms@, claim.metadata.platform),
        !(default_registry().contains_key(claim.proof_data.circuit_id)
            && default_registry()[claim.proof_data.circuit_id].vk_hash
            == claim.proof_data.vk_hash),
    ensures
        verify_error(verifier, claim) matches Some(error)
            && error is CircuitVerificationFailed,
{
}

} // verus!
