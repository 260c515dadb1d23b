//! The verifier: a registry of trusted circuits with their expected
//! verification-key hashes, and the validation pipeline that checks an
//! envelope's integrity, platform, and circuit trust before reporting
//! the claimed outcome.

use vstd::prelude::*;
use crate::dict::{pairs_map, Dict};
use crate::issuer::vk_hash_of;
use crate::text::{contains_string, contains_string_exec, str_eq};
use crate::zk_proof::{
    integrity_ok, ClaimType, ClaimTypeModel, ClaimValue, ZkProofClaim, ZkProofClaimModel,
};

verus! {

/// Why the verifier refused an envelope.
#[derive(Debug)]
pub enum VerifierError {
    /// Reserved for malformed envelopes; no path returns it.
    InvalidProof(String),
    /// Reserved for failed cryptographic checks; no path returns it.
    VerificationFailed(String),
    /// The envelope names a platform the verifier does not support.
    UnsupportedPlatform(String),
    /// One of the envelope's integrity invariants is broken.
    IntegrityCheckFailed,
    /// The circuit is unknown, or its verification-key hash is not the
    /// expected one.
    CircuitVerificationFailed(String),
}

/// The mathematical form of a verifier error.
pub enum VerifierErrorModel {
    InvalidProof(Seq<char>),
    VerificationFailed(Seq<char>),
    UnsupportedPlatform(Seq<char>),
    IntegrityCheckFailed,
    CircuitVerificationFailed(Seq<char>),
}

impl DeepView for VerifierError {
    type V = VerifierErrorModel;

    open spec fn deep_view(&self) -> VerifierErrorModel {
        match self {
            VerifierError::InvalidProof(reason) => VerifierErrorModel::InvalidProof(reason@),
            VerifierError::VerificationFailed(reason) => {
                VerifierErrorModel::VerificationFailed(reason@)
            },
            VerifierError::UnsupportedPlatform(platform) => {
                VerifierErrorModel::UnsupportedPlatform(platform@)
            },
            VerifierError::IntegrityCheckFailed => VerifierErrorModel::IntegrityCheckFailed,
            VerifierError::CircuitVerificationFailed(reason) => {
                VerifierErrorModel::CircuitVerificationFailed(reason@)
            },
        }
    }
}

/// A circuit the verifier trusts: name, version, the verification-key
/// hash it must present, and a description.
#[derive(Debug)]
pub struct CircuitInfo {
    pub circuit_id: String,
    pub version: String,
    pub vk_hash: String,
    pub description: String,
}

/// The mathematical form of a trusted circuit entry.
pub struct CircuitInfoModel {
    pub circuit_id: Seq<char>,
    pub version: Seq<char>,
    pub vk_hash: Seq<char>,
    pub description: Seq<char>,
}

impl DeepView for CircuitInfo {
    type V = CircuitInfoModel;

    open spec fn deep_view(&self) -> CircuitInfoModel {
        CircuitInfoModel {
            circuit_id: self.circuit_id@,
            version: self.version@,
            vk_hash: self.vk_hash@,
            description: self.description@,
        }
    }
}

/// What was checked, echoed back to the caller.
#[derive(Debug)]
pub struct VerificationDetails {
    pub platform: String,
    pub circuit_id: String,
    pub verified_at: i64,
    pub verified_inputs: Dict<ClaimValue>,
    pub metadata: Dict<String>,
}

/// The outcome of verification: envelope plausibility, the claimed
/// result as the issuer reported it, details, and warnings.
#[derive(Debug)]
pub struct VerificationResult {
    pub is_valid: bool,
    pub requirements_met: bool,
    pub details: VerificationDetails,
    pub warnings: Vec<String>,
}

/// A summary of the verifier's capabilities.
#[derive(Debug)]
pub struct VerificationStats {
    pub supported_platforms: usize,
    pub trusted_circuits: usize,
    pub verifier_id: String,
}

/// A verifier with its trust registry.
#[derive(Debug)]
pub struct ZkProofVerifier {
    pub verifier_id: String,
    pub supported_platforms: Vec<String>,
    pub trusted_circuits: Dict<CircuitInfo>,
}

/// The registry a fresh verifier trusts: the four canonical circuits,
/// each under the shared verification-key-hash formula.
pub open spec fn default_registry() -> Map<Seq<char>, CircuitInfoModel> {
    Map::empty().insert(
        "language_proficiency_v1"@,
        CircuitInfoModel {
            circuit_id: "language_proficiency_v1"@,
            version: "1.0.0"@,
            vk_hash: vk_hash_of("language_proficiency_v1"@),
            description: "Verifies language proficiency level claims"@,
        },
    ).insert(
        "performance_threshold_v1"@,
        CircuitInfoModel {
            circuit_id: "performance_threshold_v1"@,
            version: "1.0.0"@,
            vk_hash: vk_hash_of("performance_threshold_v1"@),
            description: "Verifies performance threshold claims"@,
        },
    ).insert(
        "completion_date_v1"@,
        CircuitInfoModel {
            circuit_id: "completion_date_v1"@,
            version: "1.0.0"@,
            vk_hash: vk_hash_of("completion_date_v1"@),
            description: "Verifies completion date claims"@,
        },
    ).insert(
        "combined_criteria_v1"@,
        CircuitInfoModel {
            circuit_id: "combined_criteria_v1"@,
            version: "1.0.0"@,
            vk_hash: vk_hash_of("combined_criteria_v1"@),
            description: "Verifies combined criteria claims"@,
        },
    )
}

/// The simulated shape check on proof bytes: present and at least 32
/// bytes long.
pub open spec fn proof_shape_ok(proof_bytes: Seq<u8>) -> bool {
    proof_bytes.len() > 0 && proof_bytes.len() >= 32
}

/// The message for an unknown circuit.
pub open spec fn unknown_circuit_message(circuit_id: Seq<char>) -> Seq<char> {
    "Unknown circuit: "@ + circuit_id
}

/// The message for a verification-key hash that differs from the
/// registry's.
pub open spec fn vk_mismatch_message(
    circuit_id: Seq<char>,
    expected: Seq<char>,
    provided: Seq<char>,
) -> Seq<char> {
    "Verification key hash mismatch for circuit '"@ + circuit_id + "': expected '"@ + expected
        + "', got '"@ + provided + "'"@
}

/// The warning reported when an envelope's claimed requirements were not
/// met, worded by claim variant.
pub open spec fn unmet_warning(claim: ClaimTypeModel) -> Seq<char> {
    match claim {
        ClaimTypeModel::LanguageProficiency { .. } => {
            "Language proficiency requirements not met"@
        },
        ClaimTypeModel::PerformanceThreshold { .. } => "Performance threshold not met"@,
        ClaimTypeModel::CompletionDate { .. } => "Completion date requirements not met"@,
        ClaimTypeModel::Combined { .. } => "Combined criteria requirements not met"@,
    }
}

/// The error, if any, that stops verification of an envelope, in the
/// order the verifier checks: integrity, platform, circuit presence,
/// verification-key hash.
pub open spec fn verify_error(
    verifier: ZkProofVerifier,
    claim: ZkProofClaimModel,
) -> Option<VerifierErrorModel> {
    if !integrity_ok(claim) {
        Some(VerifierErrorModel::IntegrityCheckFailed)
    } else if !contains_string(verifier.supported_platforms@, claim.metadata.platform) {
        Some(VerifierErrorModel::UnsupportedPlatform(claim.metadata.platform))
    } else if !verifier.trusted_circuits.to_map().contains_key(claim.proof_data.circuit_id) {
        Some(
            VerifierErrorModel::CircuitVerificationFailed(
                unknown_circuit_message(claim.proof_data.circuit_id),
            ),
        )
    } else if verifier.trusted_circuits.to_map()[claim.proof_data.circuit_id].vk_hash
        != claim.proof_data.vk_hash {
        Some(
            VerifierErrorModel::CircuitVerificationFailed(
                vk_mismatch_message(
                    claim.proof_data.circuit_id,
                    verifier.trusted_circuits.to_map()[claim.proof_data.circuit_id].vk_hash,
                    claim.proof_data.vk_hash,
                ),
            ),
        )
    } else {
        None
    }
}

/// Copies a requirements table entry by entry.
fn copy_values(src: &Dict<ClaimValue>) -> (r: Dict<ClaimValue>)
    ensures
        r.wf(),
        r.to_map() == src.to_map(),
{
    let n = src.entry_count();
    let ghost pairs = src.entries_seq();
    let mut r: Dict<ClaimValue> = Dict::new();
    let mut i: usize = 0;
    while i < n
        invariant
            n == pairs.len(),
            pairs == src.entries_seq(),
            0 <= i <= n,
            r.wf(),
            r.to_map() == pairs_map(pairs.subrange(0, i as int)),
        decreases n - i,
    {
        let entry = src.entry_at(i);
        let key = entry.0.clone();
        let value = entry.1.clone();
        proof {
            assert(pairs.subrange(0, i + 1).drop_last() =~= pairs.subrange(0, i as int));
            assert(pairs.subrange(0, i + 1).last() == pairs[i as int]);
        }
        r.insert(key, value);
        i += 1;
    }
    proof {
        assert(pairs.subrange(0, n as int) =~= pairs);
        src.lemma_to_map_entries();
    }
    r
}

/// Copies a properties table entry by entry.
fn copy_properties(src: &Dict<String>) -> (r: Dict<String>)
    ensures
        r.wf(),
        r.to_map() == src.to_map(),
{
    let n = src.entry_count();
    let ghost pairs = src.entries_seq();
    let mut r: Dict<String> = Dict::new();
    let mut i: usize = 0;
    while i < n
        invariant
            n == pairs.len(),
            pairs == src.entries_seq(),
            0 <= i <= n,
            r.wf(),
            r.to_map() == pairs_map(pairs.subrange(0, i as int)),
        decreases n - i,
    {
        let entry = src.entry_at(i);
        let key = entry.0.clone();
        let value = entry.1.clone();
        proof {
            assert(pairs.subrange(0, i + 1).drop_last() =~= pairs.subrange(0, i as int));
            assert(pairs.subrange(0, i + 1).last() == pairs[i as int]);
        }
        r.insert(key, value);
        i += 1;
    }
    proof {
        assert(pairs.subrange(0, n as int) =~= pairs);
        src.lemma_to_map_entries();
    }
    r
}

impl ZkProofVerifier {
    /// A fresh verifier trusting the four canonical circuits, with the
    /// default platform set.
    pub fn new(verifier_id: String) -> (r: ZkProofVerifier)
        ensures
            r.verifier_id == verifier_id,
            r.supported_platforms@.len() == 3,
            r.supported_platforms@[0]@ == "aleo"@,
            r.supported_platforms@[1]@ == "stylus"@,
            r.supported_platforms@[2]@ == "test"@,
            r.trusted_circuits.wf(),
            r.trusted_circuits.to_map() == default_registry(),
    {
        let mut trusted_circuits: Dict<CircuitInfo> = Dict::new();
        trusted_circuits.insert(
            String::from_str("language_proficiency_v1"),
            CircuitInfo {
                circuit_id: String::from_str("language_proficiency_v1"),
                version: String::from_str("1.0.0"),
                vk_hash: crate::issuer::CertificateIssuer::compute_verification_key_hash(
                    "language_proficiency_v1",
                ),
                description: String::from_str("Verifies language proficiency level claims"),
            },
        );
        trusted_circuits.insert(
            String::from_str("performance_threshold_v1"),
            CircuitInfo {
                circuit_id: String::from_str("performance_threshold_v1"),
                version: String::from_str("1.0.0"),
                vk_hash: crate::issuer::CertificateIssuer::compute_verification_key_hash(
                    "performance_threshold_v1",
                ),
                description: String::from_str("Verifies performance threshold claims"),
            },
        );
        trusted_circuits.insert(
            String::from_str("completion_date_v1"),
            CircuitInfo {
                circuit_id: String::from_str("completion_date_v1"),
                version: String::from_str("1.0.0"),
                vk_hash: crate::issuer::CertificateIssuer::compute_verification_key_hash(
                    "completion_date_v1",
                ),
                description: String::from_str("Verifies completion date claims"),
            },
        );
        trusted_circuits.insert(
            String::from_str("combined_criteria_v1"),
            CircuitInfo {
                circuit_id: String::from_str("combined_criteria_v1"),
                version: String::from_str("1.0.0"),
                vk_hash: crate::issuer::CertificateIssuer::compute_verification_key_hash(
                    "combined_criteria_v1",
                ),
                description: String::from_str("Verifies combined criteria claims"),
            },
        );
        let mut supported_platforms: Vec<String> = Vec::new();
        supported_platforms.push(String::from_str("aleo"));
        supported_platforms.push(String::from_str("stylus"));
        supported_platforms.push(String::from_str("test"));
        ZkProofVerifier { verifier_id, supported_platforms, trusted_circuits }
    }

    /// Verifies an envelope: integrity, platform support, and circuit
    /// trust must pass; the claimed outcome is then echoed, never
    /// recomputed. An envelope whose requirements were not met still
    /// verifies, with the outcome reported false and a warning.
    pub fn verify_proof(&self, proof: &ZkProofClaim) -> (r: Result<
        VerificationResult,
        VerifierError,
    >)
        requires
            self.trusted_circuits.wf(),
        ensures
            r is Ok <==> verify_error(*self, proof.deep_view()) is None,
            r matches Err(e) ==> Some(e.deep_view()) == verify_error(*self, proof.deep_view()),
            r matches Ok(outcome) ==> {
                &&& outcome.is_valid == proof_shape_ok(proof.proof_data.proof_bytes@)
                &&& outcome.requirements_met == proof.public_inputs.verification_result
                &&& outcome.details.platform@ == proof.metadata.platform@
                &&& outcome.details.circuit_id@ == proof.proof_data.circuit_id@
                &&& outcome.details.verified_inputs.to_map()
                    == proof.public_inputs.requirements.to_map()
                &&& outcome.details.metadata.to_map() == proof.metadata.properties.to_map()
                &&& outcome.warnings.deep_view() == if proof.public_inputs.verification_result {
                    Seq::<Seq<char>>::empty()
                } else {
                    seq![unmet_warning(proof.claim_type.deep_view())]
                }
            },
    {
        if !proof.verify_integrity() {
            return Err(VerifierError::IntegrityCheckFailed);
        }
        if !contains_string_exec(&self.supported_platforms, proof.metadata.platform.as_str()) {
            return Err(VerifierError::UnsupportedPlatform(proof.metadata.platform.clone()));
        }
        if let Err(e) = self.verify_circuit(
            proof.proof_data.circuit_id.as_str(),
            proof.proof_data.vk_hash.as_str(),
        ) {
            return Err(e);
        }
        let warning_text: &'static str = match &proof.claim_type {
            ClaimType::LanguageProficiency { .. } => "Language proficiency requirements not met",
            ClaimType::PerformanceThreshold { .. } => "Performance threshold not met",
            ClaimType::CompletionDate { .. } => "Completion date requirements not met",
            ClaimType::Combined { .. } => "Combined criteria requirements not met",
        };
        let is_valid = self.simulate_proof_verification(proof.proof_data.proof_bytes.as_slice());
        let requirements_met = proof.public_inputs.verification_result;
        let details = VerificationDetails {
            platform: proof.metadata.platform.clone(),
            circuit_id: proof.proof_data.circuit_id.clone(),
            verified_at: crate::crypto::now_timestamp(),
            verified_inputs: copy_values(&proof.public_inputs.requirements),
            metadata: copy_properties(&proof.metadata.properties),
        };
        let mut warnings: Vec<String> = Vec::new();
        if !requirements_met {
            warnings.push(String::from_str(warning_text));
        }
        proof {
            if requirements_met {
                assert(warnings.deep_view() =~= Seq::<Seq<char>>::empty());
            } else {
                assert(warnings.deep_view() =~= seq![unmet_warning(proof.claim_type.deep_view())]);
            }
        }
        Ok(VerificationResult { is_valid, requirements_met, details, warnings })
    }

    /// Checks that a circuit is registered and presents the expected
    /// verification-key hash.
    fn verify_circuit(&self, circuit_id: &str, provided_vk_hash: &str) -> (r: Result<
        (),
        VerifierError,
    >)
        requires
            self.trusted_circuits.wf(),
        ensures
            r is Ok <==> self.trusted_circuits.to_map().contains_key(circuit_id@)
                && self.trusted_circuits.to_map()[circuit_id@].vk_hash == provided_vk_hash@,
            r matches Err(e) ==> {
                &&& !self.trusted_circuits.to_map().contains_key(circuit_id@) ==> e.deep_view()
                    == VerifierErrorModel::CircuitVerificationFailed(
                    unknown_circuit_message(circuit_id@),
                )
                &&& self.trusted_circuits.to_map().contains_key(circuit_id@)
                    && self.trusted_circuits.to_map()[circuit_id@].vk_hash != provided_vk_hash@
                    ==> e.deep_view() == VerifierErrorModel::CircuitVerificationFailed(
                    vk_mismatch_message(
                        circuit_id@,
                        self.trusted_circuits.to_map()[circuit_id@].vk_hash,
                        provided_vk_hash@,
                    ),
                )
            },
    {
        let looked_up = self.trusted_circuits.get(circuit_id);
        match looked_up {
            None => {
                let mut message = String::from_str("Unknown circuit: ");
                message.append(circuit_id);
                proof {
                    assert(message@ =~= unknown_circuit_message(circuit_id@));
                }
                Err(VerifierError::CircuitVerificationFailed(message))
            },
            Some(circuit_info) => {
                if !str_eq(circuit_info.vk_hash.as_str(), provided_vk_hash) {
                    let mut message = String::from_str(
                        "Verification key hash mismatch for circuit '",
                    );
                    message.append(circuit_id);
                    message.append("': expected '");
                    message.append(circuit_info.vk_hash.as_str());
                    message.append("', got '");
                    message.append(provided_vk_hash);
                    message.append("'");
                    proof {
                        assert(message@ =~= vk_mismatch_message(
                            circuit_id@,
                            self.trusted_circuits.to_map()[circuit_id@].vk_hash,
                            provided_vk_hash@,
                        ));
                    }
                    Err(VerifierError::CircuitVerificationFailed(message))
                } else {
                    Ok(())
                }
            },
        }
    }

    /// The simulated shape check on proof bytes.
    fn simulate_proof_verification(&self, proof_bytes: &[u8]) -> (r: bool)
        ensures
            r == proof_shape_ok(proof_bytes@),
    {
        proof_bytes.len() > 0 && proof_bytes.len() >= 32
    }

    /// Registers a circuit, under its own name, overwriting any previous
    /// entry.
    pub fn add_trusted_circuit(&mut self, circuit_info: CircuitInfo)
        requires
            old(self).trusted_circuits.wf(),
        ensures
            final(self).trusted_circuits.wf(),
            final(self).trusted_circuits.to_map() == old(self).trusted_circuits.to_map().insert(
                circuit_info.circuit_id@,
                circuit_info.deep_view(),
            ),
            final(self).verifier_id == old(self).verifier_id,
            final(self).supported_platforms == old(self).supported_platforms,
    {
        let key = circuit_info.circuit_id.clone();
        self.trusted_circuits.insert(key, circuit_info);
    }

    /// Whether a circuit is registered.
    pub fn is_circuit_trusted(&self, circuit_id: &str) -> (r: bool)
        requires
            self.trusted_circuits.wf(),
        ensures
            r == self.trusted_circuits.to_map().contains_key(circuit_id@),
    {
        self.trusted_circuits.contains_key(circuit_id)
    }

    /// The registry entry of a circuit, if present.
    pub fn get_circuit_info(&self, circuit_id: &str) -> (r: Option<&CircuitInfo>)
        requires
            self.trusted_circuits.wf(),
        ensures
            match r {
                Some(info) => self.trusted_circuits.to_map().contains_key(circuit_id@)
                    && info.deep_view() == self.trusted_circuits.to_map().index(circuit_id@),
                None => !self.trusted_circuits.to_map().contains_key(circuit_id@),
            },
    {
        self.trusted_circuits.get(circuit_id)
    }

    /// The registered circuit names.
    pub fn list_trusted_circuits(&self) -> (r: Vec<String>)
        requires
            self.trusted_circuits.wf(),
        ensures
            forall|k: Seq<char>|
                self.trusted_circuits.to_map().contains_key(k) <==> r.deep_view().contains(k),
    {
        self.trusted_circuits.keys()
    }

    /// Counts of platforms and circuits, and the verifier's identity.
    pub fn get_verification_stats(&self) -> (r: VerificationStats)
        requires
            self.trusted_circuits.wf(),
        ensures
            r.supported_platforms == self.supported_platforms@.len(),
            r.trusted_circuits == self.trusted_circuits.to_map().dom().len(),
            r.verifier_id == self.verifier_id,
    {
        VerificationStats {
            supported_platforms: self.supported_platforms.len(),
            trusted_circuits: self.trusted_circuits.len(),
            verifier_id: self.verifier_id.clone(),
        }
    }
}

} // verus!
