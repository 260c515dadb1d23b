//! Issuing and verifying simulated zero-knowledge claims about
//! language-learning certificates.
//!
//! An issuer turns a certificate and a requested claim into a proof
//! envelope; a verifier checks the envelope's integrity, platform, and
//! circuit trust and reports whether the claimed requirement was met.
//! The proof payload is a simulated placeholder, not a cryptographic
//! argument; the envelope carries the issuer's reported outcome, which
//! the verifier echoes rather than recomputes.

pub mod aleo;
pub mod cefr;
pub mod certificate;
pub mod codec;
pub mod course;
pub mod crypto;
pub mod dict;
pub mod issuer;
pub mod laws;
pub mod text;
pub mod verification;
pub mod zk_proof;

pub use certificate::Certificate;
pub use issuer::{CertificateIssuer, IssuerError, ProofOptions, ProofRequest};
pub use verification::{VerificationResult, VerifierError, ZkProofVerifier};
pub use cefr::CefrLevel;
pub use zk_proof::{ClaimType, ProofData, ProofMetadata, PublicInputs, ZkProofClaim};

use vstd::prelude::*;

verus! {

/// A certificate for demonstrations: a completed upper-intermediate
/// German course with 47 of 50 challenges solved.
pub fn create_sample_certificate() -> (r: Certificate)
    ensures
        r.game_path_name@ == "German_B2_Complete"@,
        r.total_challenges == 50,
        r.solved_challenges == 47,
        r.performance_percentage == 94,
        r.profile_name@ == "Test Student"@,
        r.signature_ok,
{
    Certificate::new(
        String::from_str("German_B2_Complete"),
        50,
        47,
        String::from_str("Test Student"),
        crypto::now_timestamp(),
    )
}

/// An issued claim for demonstrations: proficiency in German at B2 or
/// above, attested from the sample certificate. The sample certificate
/// meets the claim, so issuing always succeeds and the reported result
/// is true.
pub fn create_sample_proof() -> (r: Result<ZkProofClaim, IssuerError>)
    ensures
        r matches Ok(claim),
        r matches Ok(claim) ==> {
            &&& claim.wf()
            &&& zk_proof::integrity_ok(claim.deep_view())
            &&& claim.public_inputs.verification_result
        },
{
    let issuer = CertificateIssuer::new(
        String::from_str("demo_issuer"),
        String::from_str("Web5 Claims Demo"),
    );
    let certificate = create_sample_certificate();
    proof {
        lemma_sample_course_reads_as_german_b2(certificate);
        reveal_strlit("Test Student");
        reveal_strlit("German_B2_Complete");
        assert(issuer.supported_platforms@[0]@ == "aleo"@);
        assert(crate::text::contains_string(issuer.supported_platforms@, "aleo"@));
    }
    let request = ProofRequest {
        certificate,
        claim_type: ClaimType::LanguageProficiency {
            language: String::from_str("German"),
            min_level: CefrLevel::B2,
        },
        target_platform: String::from_str("aleo"),
        options: Default::default(),
    };
    let outcome = issuer.generate_proof(request);
    proof {
        reveal_strlit("language_proficiency_v1");
        if outcome is Ok {
            assert("language_proficiency_v1"@.len() == 23);
        }
    }
    outcome
}

/// The sample course identifier carries the language German and the
/// level B2, and no lower level.
proof fn lemma_sample_course_reads_as_german_b2(certificate: Certificate)
    requires
        certificate.game_path_name@ == "German_B2_Complete"@,
    ensures
        crate::text::eq_ignore_ascii_case_seq(
            issuer::certificate_language(certificate),
            "German"@,
        ),
        cefr::level_from_course(certificate.game_path_name@) == Some(CefrLevel::B2),
{
    let course = certificate.game_path_name@;
    reveal_strlit("German_B2_Complete");
    reveal_strlit("German");
    reveal_strlit("A1");
    reveal_strlit("A2");
    reveal_strlit("B1");
    reveal_strlit("B2");
    assert(course.len() == 18);
    crate::text::lemma_first_index_of(course, '_');
    assert(crate::text::first_index_of(course, '_') == 6) by {
        let f = crate::text::first_index_of(course, '_');
        if f < 6 {
            assert(course[f] == '_');
        }
        if f > 6 {
            assert(course[6] != '_');
        }
    }
    assert(issuer::certificate_language(certificate) =~= "German"@);
    assert forall|i: int| !crate::text::occurs_at(course, "A1"@, i) by {
        if crate::text::occurs_at(course, "A1"@, i) {
            assert(course.subrange(i, i + 2)[0] == 'A');
        }
    }
    assert forall|i: int| !crate::text::occurs_at(course, "A2"@, i) by {
        if crate::text::occurs_at(course, "A2"@, i) {
            assert(course.subrange(i, i + 2)[0] == 'A');
        }
    }
    assert forall|i: int| !crate::text::occurs_at(course, "B1"@, i) by {
        if crate::text::occurs_at(course, "B1"@, i) {
            assert(course.subrange(i, i + 2)[0] == 'B');
            assert(course.subrange(i, i + 2)[1] == '1');
            assert(i == 7);
        }
    }
    assert(course.subrange(7, 9) =~= "B2"@);
    assert(crate::text::occurs_at(course, "B2"@, 7));
}

} // verus!
