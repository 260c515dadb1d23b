//! The proof envelope: claim variants, public inputs, proof data,
//! metadata, and the issued claim object itself.

use vstd::prelude::*;
use crate::cefr::CefrLevel;
use crate::crypto::{fresh_identifier, now_timestamp};
use crate::dict::Dict;

verus! {

/// A JSON-like value held under a requirement key.
#[derive(Debug, PartialEq)]
pub enum ClaimValue {
    Text(String),
    Number(u64),
}

impl Clone for ClaimValue {
    /// A structural copy whose mathematical form is unchanged.
    fn clone(&self) -> (r: Self)
        ensures
            r.deep_view() == self.deep_view(),
    {
        match self {
            ClaimValue::Text(s) => ClaimValue::Text(s.clone()),
            ClaimValue::Number(n) => ClaimValue::Number(*n),
        }
    }
}

/// The mathematical form of a requirement value.
pub enum ClaimValueModel {
    Text(Seq<char>),
    Number(int),
}

impl DeepView for ClaimValue {
    type V = ClaimValueModel;

    open spec fn deep_view(&self) -> ClaimValueModel {
        match self {
            ClaimValue::Text(s) => ClaimValueModel::Text(s@),
            ClaimValue::Number(n) => ClaimValueModel::Number(*n as int),
        }
    }
}

/// What a proof attests. Combined claims nest arbitrarily; their criteria
/// are evaluated one after the other, in order.
#[derive(Debug, PartialEq)]
pub enum ClaimType {
    /// Proficiency in a language at or above a minimum level.
    LanguageProficiency { language: String, min_level: CefrLevel },
    /// A performance percentage at or above a threshold.
    PerformanceThreshold { min_percentage: u8 },
    /// Completion on or after a date, as a Unix timestamp.
    CompletionDate { after_date: i64 },
    /// Several criteria at once.
    Combined { criteria: Vec<ClaimType> },
}

/// The mathematical form of a claim.
pub enum ClaimTypeModel {
    LanguageProficiency { language: Seq<char>, min_level: CefrLevel },
    PerformanceThreshold { min_percentage: u8 },
    CompletionDate { after_date: i64 },
    Combined { criteria: Seq<ClaimTypeModel> },
}

/// The mathematical form of a claim value.
pub open spec fn claim_model(claim: ClaimType) -> ClaimTypeModel
    decreases claim, 1int,
{
    match claim {
        ClaimType::LanguageProficiency { language, min_level } => {
            ClaimTypeModel::LanguageProficiency { language: language@, min_level }
        },
        ClaimType::PerformanceThreshold { min_percentage } => {
            ClaimTypeModel::PerformanceThreshold { min_percentage }
        },
        ClaimType::CompletionDate { after_date } => {
            ClaimTypeModel::CompletionDate { after_date }
        },
        ClaimType::Combined { criteria } => {
            ClaimTypeModel::Combined { criteria: claim_list_model(criteria@) }
        },
    }
}

/// The mathematical forms of a list of claims, in order.
pub open spec fn claim_list_model(claims: Seq<ClaimType>) -> Seq<ClaimTypeModel>
    decreases claims, 0int,
{
    if claims.len() == 0 {
        Seq::empty()
    } else {
        claim_list_model(claims.drop_last()).push(claim_model(claims.last()))
    }
}

impl DeepView for ClaimType {
    type V = ClaimTypeModel;

    open spec fn deep_view(&self) -> ClaimTypeModel {
        claim_model(*self)
    }
}

/// Element-wise reading of a claim list's mathematical form.
pub proof fn lemma_claim_list_model(claims: Seq<ClaimType>)
    ensures
        claim_list_model(claims).len() == claims.len(),
        forall|i: int|
            0 <= i < claims.len() ==> claim_list_model(claims)[i] == claim_model(
                #[trigger] claims[i],
            ),
    decreases claims.len(),
{
    if claims.len() > 0 {
        lemma_claim_list_model(claims.drop_last());
        assert forall|i: int|
            0 <= i < claims.len() implies claim_list_model(claims)[i] == claim_model(
            claims[i],
        ) by {
            if i < claims.len() - 1 {
                assert(claims.drop_last()[i] == claims[i]);
            } else {
                assert(claims[i] == claims.last());
            }
        }
    }
}

impl Clone for ClaimType {
    /// A structural copy whose mathematical form is unchanged.
    fn clone(&self) -> (r: Self)
        ensures
            r.deep_view() == self.deep_view(),
    {
        clone_claim(self)
    }
}

/// Copies a claim, preserving its mathematical form.
fn clone_claim(claim: &ClaimType) -> (r: ClaimType)
    ensures
        r.deep_view() == claim.deep_view(),
    decreases *claim, 1int,
{
    match claim {
        ClaimType::LanguageProficiency { language, min_level } => {
            ClaimType::LanguageProficiency { language: language.clone(), min_level: *min_level }
        },
        ClaimType::PerformanceThreshold { min_percentage } => {
            ClaimType::PerformanceThreshold { min_percentage: *min_percentage }
        },
        ClaimType::CompletionDate { after_date } => {
            ClaimType::CompletionDate { after_date: *after_date }
        },
        ClaimType::Combined { criteria } => {
            let copies = clone_claim_list(criteria);
            proof {
                lemma_claim_list_model(copies@);
                lemma_claim_list_model(criteria@);
                assert forall|j: int| 0 <= j < criteria@.len() implies claim_list_model(
                    copies@,
                )[j] == claim_list_model(criteria@)[j] by {
                    assert(copies@[j].deep_view() == criteria@[j].deep_view());
                }
                assert(claim_list_model(copies@) =~= claim_list_model(criteria@));
            }
            ClaimType::Combined { criteria: copies }
        },
    }
}

/// Copies a list of claims, preserving each one's mathematical form.
fn clone_claim_list(claims: &Vec<ClaimType>) -> (r: Vec<ClaimType>)
    ensures
        r@.len() == claims@.len(),
        forall|j: int| 0 <= j < claims@.len() ==> r@[j].deep_view() == claims@[j].deep_view(),
    decreases claims@, 0int,
{
    let n = claims.len();
    let mut copies: Vec<ClaimType> = Vec::new();
    let mut i: usize = 0;
    while i < n
        invariant
            n == claims@.len(),
            0 <= i <= n,
            copies@.len() == i,
            forall|j: int| 0 <= j < i ==> copies@[j].deep_view() == claims@[j].deep_view(),
        decreases n - i,
    {
        copies.push(clone_claim(&claims[i]));
        i += 1;
    }
    copies
}

/// The inputs a proof reveals: the requirements that were checked, the
/// issuer's reported outcome, and a hash binding the certificate.
#[derive(Debug)]
pub struct PublicInputs {
    pub requirements: Dict<ClaimValue>,
    pub verification_result: bool,
    pub certificate_hash: String,
}

/// The mathematical form of the public inputs.
pub struct PublicInputsModel {
    pub requirements: Map<Seq<char>, ClaimValueModel>,
    pub verification_result: bool,
    pub certificate_hash: Seq<char>,
}

impl DeepView for PublicInputs {
    type V = PublicInputsModel;

    open spec fn deep_view(&self) -> PublicInputsModel {
        PublicInputsModel {
            requirements: self.requirements.to_map(),
            verification_result: self.verification_result,
            certificate_hash: self.certificate_hash@,
        }
    }
}

impl PublicInputs {
    /// The requirement table's keys are unique.
    pub open spec fn wf(self) -> bool {
        self.requirements.wf()
    }
}

/// The simulated proof payload, the circuit it names, and the
/// verification-key hash the circuit is trusted under.
#[derive(Debug)]
pub struct ProofData {
    pub proof_bytes: Vec<u8>,
    pub circuit_id: String,
    pub vk_hash: String,
}

/// The mathematical form of the proof data.
pub struct ProofDataModel {
    pub proof_bytes: Seq<u8>,
    pub circuit_id: Seq<char>,
    pub vk_hash: Seq<char>,
}

impl DeepView for ProofData {
    type V = ProofDataModel;

    open spec fn deep_view(&self) -> ProofDataModel {
        ProofDataModel {
            proof_bytes: self.proof_bytes@,
            circuit_id: self.circuit_id@,
            vk_hash: self.vk_hash@,
        }
    }
}

/// Free-form information a proof carries along.
#[derive(Debug)]
pub struct ProofMetadata {
    pub version: String,
    pub platform: String,
    pub properties: Dict<String>,
}

/// The mathematical form of the metadata.
pub struct ProofMetadataModel {
    pub version: Seq<char>,
    pub platform: Seq<char>,
    pub properties: Map<Seq<char>, Seq<char>>,
}

impl DeepView for ProofMetadata {
    type V = ProofMetadataModel;

    open spec fn deep_view(&self) -> ProofMetadataModel {
        ProofMetadataModel {
            version: self.version@,
            platform: self.platform@,
            properties: self.properties.to_map(),
        }
    }
}

impl ProofMetadata {
    /// The property table's keys are unique.
    pub open spec fn wf(self) -> bool {
        self.properties.wf()
    }
}

/// An issued claim: a fresh identifier, the claim, its public inputs,
/// the simulated proof, a generation timestamp, and metadata. Created
/// once per successful issuance and not mutated afterwards.
#[derive(Debug)]
pub struct ZkProofClaim {
    pub proof_id: String,
    pub claim_type: ClaimType,
    pub public_inputs: PublicInputs,
    pub proof_data: ProofData,
    pub generated_at: i64,
    pub metadata: ProofMetadata,
}

/// The mathematical form of an issued claim.
pub struct ZkProofClaimModel {
    pub proof_id: Seq<char>,
    pub claim_type: ClaimTypeModel,
    pub public_inputs: PublicInputsModel,
    pub proof_data: ProofDataModel,
    pub generated_at: i64,
    pub metadata: ProofMetadataModel,
}

impl DeepView for ZkProofClaim {
    type V = ZkProofClaimModel;

    open spec fn deep_view(&self) -> ZkProofClaimModel {
        ZkProofClaimModel {
            proof_id: self.proof_id@,
            claim_type: self.claim_type.deep_view(),
            public_inputs: self.public_inputs.deep_view(),
            proof_data: self.proof_data.deep_view(),
            generated_at: self.generated_at,
            metadata: self.metadata.deep_view(),
        }
    }
}

/// The four integrity invariants of an issued claim: identifier,
/// certificate hash, proof bytes and circuit name are all non-empty.
pub open spec fn integrity_ok(claim: ZkProofClaimModel) -> bool {
    &&& claim.proof_id.len() > 0
    &&& claim.public_inputs.certificate_hash.len() > 0
    &&& claim.proof_data.proof_bytes.len() > 0
    &&& claim.proof_data.circuit_id.len() > 0
}

impl ZkProofClaim {
    /// The key tables inside the claim are well formed.
    pub open spec fn wf(self) -> bool {
        self.public_inputs.wf() && self.metadata.wf()
    }

    /// Assembles a claim around a freshly drawn identifier and the
    /// current time.
    pub fn new(
        claim_type: ClaimType,
        public_inputs: PublicInputs,
        proof_data: ProofData,
        metadata: ProofMetadata,
    ) -> (r: ZkProofClaim)
        ensures
            r.proof_id@.len() == 36,
            r.claim_type == claim_type,
            r.public_inputs == public_inputs,
            r.proof_data == proof_data,
            r.metadata == metadata,
    {
        ZkProofClaim {
            proof_id: fresh_identifier(),
            claim_type,
            public_inputs,
            proof_data,
            generated_at: now_timestamp(),
            metadata,
        }
    }

    /// Checks the four integrity invariants.
    pub fn verify_integrity(&self) -> (r: bool)
        ensures
            r == integrity_ok(self.deep_view()),
    {
        !self.proof_id.as_str().is_empty() && !self.public_inputs.certificate_hash.as_str().is_empty()
            && self.proof_data.proof_bytes.len() > 0 && !self.proof_data.circuit_id.as_str().is_empty()
    }
}

} // verus!
