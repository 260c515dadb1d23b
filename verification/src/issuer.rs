//! The issuer: validates a certificate and a claim request, evaluates the
//! claim against the certificate, and wraps the result in a proof
//! envelope. Combined claims are evaluated criterion by criterion; a
//! failing criterion is folded into the reported result instead of
//! aborting the whole proof.

use vstd::prelude::*;
use crate::cefr::{level_from_course, rank, CefrLevel};
use crate::certificate::{certificate_hash, certificate_hash_of, Certificate};
use crate::crypto::{hex_encode, hex_of, sha256, sha256_of, timestamp_in_range};
use crate::dict::{pairs_map, prefix_map, Dict};
use crate::dict::lemma_prefix_map_insert;
use crate::text::{
    contains_string, contains_string_exec, dec_str, dec_str_exec, eq_ignore_ascii_case_seq,
    first_index_of, int_str_exec, leading_token, str_eq_ignore_ascii_case,
};
use crate::zk_proof::{
    claim_list_model, claim_model, lemma_claim_list_model, ClaimType, ClaimTypeModel, ClaimValue,
    ClaimValueModel, ProofData, ProofMetadata, PublicInputs, ZkProofClaim,
};

verus! {

/// Why the issuer refused a request.
#[derive(Debug)]
pub enum IssuerError {
    /// The certificate itself is unusable, or does not cover the claim.
    InvalidCertificate(String),
    /// A performance threshold claim asked for more than the certificate
    /// shows; carries the demanded and the actual percentage.
    InsufficientPerformance { required: u8, actual: u8 },
    /// No proficiency level could be read out of the course identifier.
    InvalidCefrLevel(String),
    /// Reserved for failures of proof construction; no path returns it.
    ProofGenerationFailed(String),
    /// The requested target platform is not supported.
    InvalidClaimType,
}

/// The mathematical form of an issuer error.
pub enum IssuerErrorModel {
    InvalidCertificate(Seq<char>),
    InsufficientPerformance { required: u8, actual: u8 },
    InvalidCefrLevel(Seq<char>),
    ProofGenerationFailed(Seq<char>),
    InvalidClaimType,
}

impl DeepView for IssuerError {
    type V = IssuerErrorModel;

    open spec fn deep_view(&self) -> IssuerErrorModel {
        match self {
            IssuerError::InvalidCertificate(reason) => {
                IssuerErrorModel::InvalidCertificate(reason@)
            },
            IssuerError::InsufficientPerformance { required, actual } => {
                IssuerErrorModel::InsufficientPerformance {
                    required: *required,
                    actual: *actual,
                }
            },
            IssuerError::InvalidCefrLevel(course) => IssuerErrorModel::InvalidCefrLevel(course@),
            IssuerError::ProofGenerationFailed(reason) => {
                IssuerErrorModel::ProofGenerationFailed(reason@)
            },
            IssuerError::InvalidClaimType => IssuerErrorModel::InvalidClaimType,
        }
    }
}

/// An issuer of proof envelopes.
#[derive(Debug, Clone)]
pub struct CertificateIssuer {
    pub issuer_id: String,
    pub issuer_name: String,
    pub supported_platforms: Vec<String>,
}

/// A request for a proof: the certificate, the claim to attest, the
/// target platform, and extra options.
#[derive(Debug)]
pub struct ProofRequest {
    pub certificate: Certificate,
    pub claim_type: ClaimType,
    pub target_platform: String,
    pub options: ProofOptions,
}

/// Options for proof generation.
#[derive(Debug)]
pub struct ProofOptions {
    pub include_performance_range: bool,
    pub include_completion_date: bool,
    pub custom_properties: Dict<String>,
}

impl Default for ProofOptions {
    /// No extras: both flags off and no custom properties.
    fn default() -> (r: Self)
        ensures
            !r.include_performance_range,
            !r.include_completion_date,
            r.custom_properties.wf(),
            r.custom_properties.to_map() == Map::<Seq<char>, Seq<char>>::empty(),
            r.custom_properties.entries_seq() == Seq::<(Seq<char>, Seq<char>)>::empty(),
    {
        ProofOptions {
            include_performance_range: false,
            include_completion_date: false,
            custom_properties: Dict::new(),
        }
    }
}

/// The platforms issuer and verifier support out of the box.
pub open spec fn default_platforms() -> Seq<Seq<char>> {
    seq!["aleo"@, "stylus"@, "test"@]
}

/// The structural part of certificate validation: names present, at
/// least one challenge, and a passing signature check.
pub open spec fn certificate_acceptable(cert: Certificate) -> bool {
    &&& cert.profile_name@.len() > 0
    &&& cert.game_path_name@.len() > 0
    &&& cert.total_challenges > 0
    &&& cert.signature_ok
}

/// The leading underscore-separated token of the course identifier: the
/// certificate's language.
pub open spec fn certificate_language(cert: Certificate) -> Seq<char> {
    cert.game_path_name@.subrange(0, first_index_of(cert.game_path_name@, '_'))
}

/// The refusal message for a certificate in another language.
pub open spec fn language_mismatch_message(
    cert_language: Seq<char>,
    requested: Seq<char>,
) -> Seq<char> {
    "Certificate language "@ + cert_language + " does not match requested language "@ + requested
}

/// The canonical circuit name of a claim variant.
pub open spec fn circuit_id_of(claim: ClaimTypeModel) -> Seq<char> {
    match claim {
        ClaimTypeModel::LanguageProficiency { .. } => "language_proficiency_v1"@,
        ClaimTypeModel::PerformanceThreshold { .. } => "performance_threshold_v1"@,
        ClaimTypeModel::CompletionDate { .. } => "completion_date_v1"@,
        ClaimTypeModel::Combined { .. } => "combined_criteria_v1"@,
    }
}

/// The bytes hashed into a circuit's verification-key hash. The fixed
/// closing tag keeps issuer and verifier in step without
/// platform-specific keys.
pub open spec fn vk_preimage(circuit_id: Seq<char>) -> Seq<char> {
    "vk_"@ + circuit_id + "test"@
}

/// The verification-key hash of a circuit: lowercase hex of the SHA-256
/// digest of the preimage's bytes. One formula, shared by issuer and
/// verifier.
pub open spec fn vk_hash_of(circuit_id: Seq<char>) -> Seq<char> {
    hex_of(sha256_of(vstd::utf8::encode_utf8(vk_preimage(circuit_id))))
}

/// The requirements a language proficiency proof reveals.
pub open spec fn language_requirements(
    language: Seq<char>,
    min_level: CefrLevel,
) -> Map<Seq<char>, ClaimValueModel> {
    Map::empty().insert(
        "min_level"@,
        ClaimValueModel::Text(crate::cefr::level_code(min_level)),
    ).insert("language"@, ClaimValueModel::Text(language))
}

/// The requirements a performance threshold proof reveals.
pub open spec fn performance_requirements(min_percentage: u8) -> Map<Seq<char>, ClaimValueModel> {
    Map::empty().insert("min_percentage"@, ClaimValueModel::Number(min_percentage as int))
}

/// The requirements a completion date proof reveals.
pub open spec fn date_requirements(after_date: i64) -> Map<Seq<char>, ClaimValueModel> {
    Map::empty().insert(
        "after_date"@,
        ClaimValueModel::Text(crate::crypto::rfc3339_of(after_date as int)),
    )
}

/// The key prefix a combined proof puts in front of a criterion's
/// requirement keys.
pub open spec fn criterion_prefix(index: int) -> Seq<char> {
    "criterion_"@ + dec_str(index as nat) + "_"@
}

/// How claim evaluation ends: a granted claim with the reported outcome
/// and the revealed requirements, or a refusal.
pub enum IssueOutcome {
    Granted { meets: bool, requirements: Map<Seq<char>, ClaimValueModel> },
    Refused { error: IssuerErrorModel },
}

/// Evaluates a claim against a certificate, assuming the certificate
/// itself and the platform were already accepted. Mirrors the issuer's
/// dispatch exactly, including the asymmetry that only performance
/// threshold claims refuse when unmet.
pub open spec fn issue_outcome(cert: Certificate, claim: ClaimTypeModel) -> IssueOutcome
    decreases claim, 1int, 0int,
{
    match claim {
        ClaimTypeModel::LanguageProficiency { language, min_level } => {
            if !eq_ignore_ascii_case_seq(certificate_language(cert), language) {
                IssueOutcome::Refused {
                    error: IssuerErrorModel::InvalidCertificate(
                        language_mismatch_message(certificate_language(cert), language),
                    ),
                }
            } else {
                match level_from_course(cert.game_path_name@) {
                    Option::None => IssueOutcome::Refused {
                        error: IssuerErrorModel::InvalidCefrLevel(cert.game_path_name@),
                    },
                    Option::Some(level) => IssueOutcome::Granted {
                        meets: rank(level) >= rank(min_level),
                        requirements: language_requirements(language, min_level),
                    },
                }
            }
        },
        ClaimTypeModel::PerformanceThreshold { min_percentage } => {
            if cert.performance_percentage >= min_percentage {
                IssueOutcome::Granted {
                    meets: true,
                    requirements: performance_requirements(min_percentage),
                }
            } else {
                IssueOutcome::Refused {
                    error: IssuerErrorModel::InsufficientPerformance {
                        required: min_percentage,
                        actual: cert.performance_percentage,
                    },
                }
            }
        },
        ClaimTypeModel::CompletionDate { after_date } => IssueOutcome::Granted {
            meets: cert.date >= after_date,
            requirements: date_requirements(after_date),
        },
        ClaimTypeModel::Combined { criteria } => IssueOutcome::Granted {
            meets: combined_pass(cert, criteria, criteria.len() as int),
            requirements: combined_requirements(cert, criteria, criteria.len() as int),
        },
    }
}

/// Whether the first `upto` criteria all evaluate to a granted claim
/// whose reported result is true; a refused criterion counts as false
/// but evaluation continues.
pub open spec fn combined_pass(
    cert: Certificate,
    criteria: Seq<ClaimTypeModel>,
    upto: int,
) -> bool
    decreases criteria, 0int, upto,
{
    if upto <= 0 || upto > criteria.len() {
        true
    } else {
        let here = match issue_outcome(cert, criteria[upto - 1]) {
            IssueOutcome::Granted { meets, .. } => meets,
            IssueOutcome::Refused { .. } => false,
        };
        combined_pass(cert, criteria, upto - 1) && here
    }
}

/// The merged requirements of the first `upto` criteria, each criterion's
/// keys renamed with its index prefix; refused criteria contribute
/// nothing.
pub open spec fn combined_requirements(
    cert: Certificate,
    criteria: Seq<ClaimTypeModel>,
    upto: int,
) -> Map<Seq<char>, ClaimValueModel>
    decreases criteria, 0int, upto,
{
    if upto <= 0 || upto > criteria.len() {
        Map::empty()
    } else {
        let prev = combined_requirements(cert, criteria, upto - 1);
        match issue_outcome(cert, criteria[upto - 1]) {
            IssueOutcome::Granted { requirements, .. } => prev.union_prefer_right(
                prefix_map(criterion_prefix(upto - 1), requirements),
            ),
            IssueOutcome::Refused { .. } => prev,
        }
    }
}

/// Every completion date mentioned in the claim lies in the range the
/// date formatter accepts.
pub open spec fn claim_dates_in_range(claim: ClaimTypeModel) -> bool
    decreases claim, 1int, 0int,
{
    match claim {
        ClaimTypeModel::CompletionDate { after_date } => timestamp_in_range(after_date as int),
        ClaimTypeModel::Combined { criteria } => {
            claim_list_dates_in_range(criteria, criteria.len() as int)
        },
        _ => true,
    }
}

/// Range check over the first `upto` criteria.
pub open spec fn claim_list_dates_in_range(criteria: Seq<ClaimTypeModel>, upto: int) -> bool
    decreases criteria, 0int, upto,
{
    if upto <= 0 || upto > criteria.len() {
        true
    } else {
        claim_list_dates_in_range(criteria, upto - 1) && claim_dates_in_range(criteria[upto - 1])
    }
}

/// The error, if any, that a proof request runs into, in the order the
/// issuer checks: certificate structure and signature, then platform,
/// then the claim itself.
pub open spec fn issue_error(
    issuer: CertificateIssuer,
    cert: Certificate,
    claim: ClaimTypeModel,
    platform: Seq<char>,
) -> Option<IssuerErrorModel> {
    if cert.profile_name@.len() == 0 {
        Some(IssuerErrorModel::InvalidCertificate("Profile name cannot be empty"@))
    } else if cert.game_path_name@.len() == 0 {
        Some(IssuerErrorModel::InvalidCertificate("Game path name cannot be empty"@))
    } else if cert.total_challenges == 0 {
        Some(IssuerErrorModel::InvalidCertificate("Total challenges must be greater than 0"@))
    } else if !cert.signature_ok {
        Some(
            IssuerErrorModel::InvalidCertificate("Certificate signature verification failed"@),
        )
    } else if !contains_string(issuer.supported_platforms@, platform) {
        Some(IssuerErrorModel::InvalidClaimType)
    } else {
        match issue_outcome(cert, claim) {
            IssueOutcome::Granted { .. } => None,
            IssueOutcome::Refused { error } => Some(error),
        }
    }
}

/// The metadata properties: issuer identity first, then the caller's
/// custom properties in order, later entries overwriting earlier keys.
pub open spec fn seeded_properties(
    issuer: CertificateIssuer,
    custom: Seq<(Seq<char>, Seq<char>)>,
) -> Map<Seq<char>, Seq<char>>
    decreases custom.len(),
{
    if custom.len() == 0 {
        Map::empty().insert("issuer_id"@, issuer.issuer_id@).insert(
            "issuer_name"@,
            issuer.issuer_name@,
        )
    } else {
        seeded_properties(issuer, custom.drop_last()).insert(custom.last().0, custom.last().1)
    }
}

/// What a successfully issued envelope looks like: the claim is granted,
/// and every field of the envelope is pinned to the request, up to the
/// fresh identifier (only its length is fixed) and the timestamps.
pub open spec fn issued_claim_ok(
    issuer: CertificateIssuer,
    certificate: Certificate,
    claim_type: ClaimTypeModel,
    platform: Seq<char>,
    custom: Seq<(Seq<char>, Seq<char>)>,
    claim: ZkProofClaim,
) -> bool {
    match issue_outcome(certificate, claim_type) {
        IssueOutcome::Granted { meets, requirements } => {
            &&& claim.wf()
            &&& claim.proof_id@.len() == 36
            &&& claim.claim_type.deep_view() == claim_type
            &&& claim.public_inputs.verification_result == meets
            &&& claim.public_inputs.requirements.to_map() == requirements
            &&& claim.public_inputs.certificate_hash@ == certificate_hash_of(certificate)
            &&& claim.public_inputs.certificate_hash@.len() == 64
            &&& claim.proof_data.circuit_id@ == circuit_id_of(claim_type)
            &&& claim.proof_data.vk_hash@ == vk_hash_of(circuit_id_of(claim_type))
            &&& claim.proof_data.proof_bytes@.len() == 32
            &&& claim.metadata.version@ == "1.0.0"@
            &&& claim.metadata.platform@ == platform
            &&& claim.metadata.properties.to_map() == seeded_properties(issuer, custom)
        },
        IssueOutcome::Refused { .. } => false,
    }
}

/// A date-range check holds of every listed criterion.
pub proof fn lemma_claim_list_dates_element(criteria: Seq<ClaimTypeModel>, upto: int, j: int)
    requires
        claim_list_dates_in_range(criteria, upto),
        0 <= j < upto,
        upto <= criteria.len(),
    ensures
        claim_dates_in_range(criteria[j]),
    decreases upto,
{
    if j < upto - 1 {
        lemma_claim_list_dates_element(criteria, upto - 1, j);
    }
}

/// Copies every entry of `sub` into `merged` under a key prefix.
fn merge_prefixed(merged: &mut Dict<ClaimValue>, prefix: &String, sub: &Dict<ClaimValue>)
    requires
        old(merged).wf(),
    ensures
        final(merged).wf(),
        final(merged).to_map() == old(merged).to_map().union_prefer_right(
            prefix_map(prefix@, sub.to_map()),
        ),
{
    let n = sub.entry_count();
    let ghost pairs = sub.entries_seq();
    let mut i: usize = 0;
    while i < n
        invariant
            n == pairs.len(),
            pairs == sub.entries_seq(),
            0 <= i <= n,
            merged.wf(),
            merged.to_map() == old(merged).to_map().union_prefer_right(
                prefix_map(prefix@, pairs_map(pairs.subrange(0, i as int))),
            ),
        decreases n - i,
    {
        let entry = sub.entry_at(i);
        let mut renamed = prefix.clone();
        renamed.append(entry.0.as_str());
        let value = entry.1.clone();
        proof {
            let prev = pairs_map(pairs.subrange(0, i as int));
            assert(pairs.subrange(0, i + 1).drop_last() =~= pairs.subrange(0, i as int));
            assert(pairs.subrange(0, i + 1).last() == pairs[i as int]);
            lemma_prefix_map_insert(prefix@, prev, pairs[i as int].0, pairs[i as int].1);
            crate::dict::lemma_union_insert(
                old(merged).to_map(),
                prefix_map(prefix@, prev),
                prefix@ + pairs[i as int].0,
                pairs[i as int].1,
            );
            assert(renamed@ == prefix@ + pairs[i as int].0);
        }
        merged.insert(renamed, value);
        i += 1;
    }
    proof {
        assert(pairs.subrange(0, n as int) =~= pairs);
        sub.lemma_to_map_entries();
    }
}

/// Names the canonical circuit of a claim variant.
fn circuit_id_for(claim_type: &ClaimType) -> (r: &'static str)
    ensures
        r@ == circuit_id_of(claim_model(*claim_type)),
{
    match claim_type {
        ClaimType::LanguageProficiency { .. } => "language_proficiency_v1",
        ClaimType::PerformanceThreshold { .. } => "performance_threshold_v1",
        ClaimType::CompletionDate { .. } => "completion_date_v1",
        ClaimType::Combined { .. } => "combined_criteria_v1",
    }
}

impl CertificateIssuer {
    /// Evaluates one claim against the certificate: the reported
    /// outcome and the revealed requirements, or the refusal.
    fn evaluate_claim(&self, certificate: &Certificate, claim_type: &ClaimType) -> (r: Result<
        (bool, Dict<ClaimValue>),
        IssuerError,
    >)
        requires
            claim_dates_in_range(claim_model(*claim_type)),
        ensures
            match r {
                Ok(granted) => {
                    &&& issue_outcome(*certificate, claim_model(*claim_type))
                        matches IssueOutcome::Granted { meets, requirements }
                    &&& granted.0 == meets
                    &&& granted.1.wf()
                    &&& granted.1.to_map() == requirements
                },
                Err(e) => issue_outcome(*certificate, claim_model(*claim_type))
                    matches IssueOutcome::Refused { error } && error == e.deep_view(),
            },
        decreases *claim_type, 1int, 0int,
    {
        match claim_type {
            ClaimType::LanguageProficiency { language, min_level } => {
                let cert_language = leading_token(certificate.game_path_name.as_str(), '_');
                if !str_eq_ignore_ascii_case(cert_language.as_str(), language.as_str()) {
                    let mut message = String::from_str("Certificate language ");
                    message.append(cert_language.as_str());
                    message.append(" does not match requested language ");
                    message.append(language.as_str());
                    proof {
                        assert(message@ =~= language_mismatch_message(
                            certificate_language(*certificate),
                            language@,
                        ));
                    }
                    return Err(IssuerError::InvalidCertificate(message));
                }
                match CefrLevel::from_course_name(certificate.game_path_name.as_str()) {
                    None => Err(
                        IssuerError::InvalidCefrLevel(certificate.game_path_name.clone()),
                    ),
                    Some(cert_level) => {
                        let meets = cert_level.at_least(min_level);
                        let mut requirements: Dict<ClaimValue> = Dict::new();
                        requirements.insert(
                            String::from_str("min_level"),
                            ClaimValue::Text(String::from_str(min_level.code())),
                        );
                        requirements.insert(
                            String::from_str("language"),
                            ClaimValue::Text(language.clone()),
                        );
                        Ok((meets, requirements))
                    },
                }
            },
            ClaimType::PerformanceThreshold { min_percentage } => {
                if certificate.performance_percentage >= *min_percentage {
                    let mut requirements: Dict<ClaimValue> = Dict::new();
                    requirements.insert(
                        String::from_str("min_percentage"),
                        ClaimValue::Number(*min_percentage as u64),
                    );
                    Ok((true, requirements))
                } else {
                    Err(
                        IssuerError::InsufficientPerformance {
                            required: *min_percentage,
                            actual: certificate.performance_percentage,
                        },
                    )
                }
            },
            ClaimType::CompletionDate { after_date } => {
                let meets = certificate.date >= *after_date;
                let mut requirements: Dict<ClaimValue> = Dict::new();
                requirements.insert(
                    String::from_str("after_date"),
                    ClaimValue::Text(crate::crypto::rfc3339_utc(*after_date)),
                );
                Ok((meets, requirements))
            },
            ClaimType::Combined { criteria } => {
                proof {
                    lemma_claim_list_model(criteria@);
                }
                let granted = self.evaluate_criteria(certificate, criteria);
                Ok(granted)
            },
        }
    }

    /// Evaluates a combined claim's criteria one after the other,
    /// folding each reported result into the conjunction and merging
    /// each granted criterion's requirements under its index prefix. A
    /// refused criterion makes the conjunction false and contributes no
    /// requirements, and evaluation continues.
    fn evaluate_criteria(&self, certificate: &Certificate, criteria: &Vec<ClaimType>) -> (r: (
        bool,
        Dict<ClaimValue>,
    ))
        requires
            claim_list_dates_in_range(
                claim_list_model(criteria@),
                claim_list_model(criteria@).len() as int,
            ),
        ensures
            r.0 == combined_pass(
                *certificate,
                claim_list_model(criteria@),
                criteria@.len() as int,
            ),
            r.1.wf(),
            r.1.to_map() == combined_requirements(
                *certificate,
                claim_list_model(criteria@),
                criteria@.len() as int,
            ),
        decreases criteria@, 0int, 0int,
    {
        let ghost models = claim_list_model(criteria@);
        proof {
            lemma_claim_list_model(criteria@);
        }
        let n = criteria.len();
        let mut all_pass = true;
        let mut merged: Dict<ClaimValue> = Dict::new();
        let mut i: usize = 0;
        while i < n
            invariant
                n == criteria@.len(),
                models == claim_list_model(criteria@),
                models.len() == n,
                forall|j: int| 0 <= j < n ==> models[j] == claim_model(#[trigger] criteria@[j]),
                claim_list_dates_in_range(models, n as int),
                0 <= i <= n,
                merged.wf(),
                all_pass == combined_pass(*certificate, models, i as int),
                merged.to_map() == combined_requirements(*certificate, models, i as int),
            decreases n - i,
        {
            proof {
                lemma_claim_list_dates_element(models, n as int, i as int);
            }
            match self.evaluate_claim(certificate, &criteria[i]) {
                Ok(granted) => {
                    let meets = granted.0;
                    let sub_requirements = granted.1;
                    all_pass = all_pass && meets;
                    let mut prefix = String::from_str("criterion_");
                    prefix.append(dec_str_exec(i as u64).as_str());
                    prefix.append("_");
                    proof {
                        assert(prefix@ =~= criterion_prefix(i as int));
                    }
                    merge_prefixed(&mut merged, &prefix, &sub_requirements);
                },
                Err(_) => {
                    all_pass = false;
                },
            }
            i += 1;
        }
        (all_pass, merged)
    }

    /// Generates a proof envelope for a request: the certificate is
    /// validated, the platform checked, the claim evaluated, and the
    /// envelope assembled around a fresh identifier. The contract pins
    /// the error returned for every refused input and every field of the
    /// envelope on success, up to the identifier and the timestamps.
    pub fn generate_proof(&self, request: ProofRequest) -> (r: Result<ZkProofClaim, IssuerError>)
        requires
            request.options.custom_properties.wf(),
            claim_dates_in_range(claim_model(request.claim_type)),
        ensures
            r is Ok <==> issue_error(
                *self,
                request.certificate,
                claim_model(request.claim_type),
                request.target_platform@,
            ) is None,
            r matches Err(e) ==> Some(e.deep_view()) == issue_error(
                *self,
                request.certificate,
                claim_model(request.claim_type),
                request.target_platform@,
            ),
            r matches Ok(claim) ==> issued_claim_ok(
                *self,
                request.certificate,
                claim_model(request.claim_type),
                request.target_platform@,
                request.options.custom_properties.entries_seq(),
                claim,
            ),
    {
        if let Err(e) = self.validate_certificate(&request.certificate) {
            return Err(e);
        }
        if let Err(e) = self.validate_request(&request) {
            return Err(e);
        }
        let circuit_id = circuit_id_for(&request.claim_type);
        match self.evaluate_claim(&request.certificate, &request.claim_type) {
            Err(e) => Err(e),
            Ok(granted) => {
                let public_inputs = PublicInputs {
                    requirements: granted.1,
                    verification_result: granted.0,
                    certificate_hash: certificate_hash(&request.certificate),
                };
                let proof_data = match self.generate_proof_data(circuit_id) {
                    Ok(data) => data,
                    Err(e) => {
                        return Err(e);
                    },
                };
                let metadata = self.create_metadata(
                    request.target_platform.as_str(),
                    &request.options,
                );
                Ok(ZkProofClaim::new(request.claim_type, public_inputs, proof_data, metadata))
            },
        }
    }

    /// A fresh issuer with the default platform set.
    pub fn new(issuer_id: String, issuer_name: String) -> (r: CertificateIssuer)
        ensures
            r.issuer_id == issuer_id,
            r.issuer_name == issuer_name,
            r.supported_platforms@.len() == 3,
            r.supported_platforms@[0]@ == "aleo"@,
            r.supported_platforms@[1]@ == "stylus"@,
            r.supported_platforms@[2]@ == "test"@,
    {
        let mut supported_platforms: Vec<String> = Vec::new();
        supported_platforms.push(String::from_str("aleo"));
        supported_platforms.push(String::from_str("stylus"));
        supported_platforms.push(String::from_str("test"));
        CertificateIssuer { issuer_id, issuer_name, supported_platforms }
    }

    /// Checks the certificate: names present, at least one challenge,
    /// and a passing signature check, in that order.
    pub fn validate_certificate(&self, certificate: &Certificate) -> (r: Result<
        (),
        IssuerError,
    >)
        ensures
            r is Ok <==> certificate_acceptable(*certificate),
            r matches Err(e) ==> {
                &&& certificate.profile_name@.len() == 0 ==> e.deep_view()
                    == IssuerErrorModel::InvalidCertificate("Profile name cannot be empty"@)
                &&& certificate.profile_name@.len() > 0 && certificate.game_path_name@.len() == 0
                    ==> e.deep_view() == IssuerErrorModel::InvalidCertificate(
                    "Game path name cannot be empty"@,
                )
                &&& certificate.profile_name@.len() > 0 && certificate.game_path_name@.len() > 0
                    && certificate.total_challenges == 0 ==> e.deep_view()
                    == IssuerErrorModel::InvalidCertificate(
                    "Total challenges must be greater than 0"@,
                )
                &&& certificate.profile_name@.len() > 0 && certificate.game_path_name@.len() > 0
                    && certificate.total_challenges > 0 && !certificate.signature_ok
                    ==> e.deep_view() == IssuerErrorModel::InvalidCertificate(
                    "Certificate signature verification failed"@,
                )
            },
    {
        if certificate.profile_name.as_str().is_empty() {
            return Err(
                IssuerError::InvalidCertificate(
                    String::from_str("Profile name cannot be empty"),
                ),
            );
        }
        if certificate.game_path_name.as_str().is_empty() {
            return Err(
                IssuerError::InvalidCertificate(
                    String::from_str("Game path name cannot be empty"),
                ),
            );
        }
        if certificate.total_challenges == 0 {
            return Err(
                IssuerError::InvalidCertificate(
                    String::from_str("Total challenges must be greater than 0"),
                ),
            );
        }
        if !certificate.signature_ok {
            return Err(
                IssuerError::InvalidCertificate(
                    String::from_str("Certificate signature verification failed"),
                ),
            );
        }
        Ok(())
    }

    /// Checks that the requested platform is supported.
    pub fn validate_request(&self, request: &ProofRequest) -> (r: Result<(), IssuerError>)
        ensures
            r is Ok <==> contains_string(
                self.supported_platforms@,
                request.target_platform@,
            ),
            r matches Err(e) ==> e.deep_view() == IssuerErrorModel::InvalidClaimType,
    {
        if !contains_string_exec(&self.supported_platforms, request.target_platform.as_str()) {
            return Err(IssuerError::InvalidClaimType);
        }
        Ok(())
    }

    /// The certificate's language: the leading underscore-separated
    /// token of the course identifier.
    pub fn extract_language_from_certificate(&self, certificate: &Certificate) -> (r: Result<
        String,
        IssuerError,
    >)
        ensures
            r matches Ok(language) && language@ == certificate_language(*certificate),
    {
        Ok(leading_token(certificate.game_path_name.as_str(), '_'))
    }

    /// Computes the verification-key hash for a circuit. The verifier's
    /// registry uses the very same formula, which is what circuit trust
    /// rests on.
    pub fn compute_verification_key_hash(circuit_id: &str) -> (r: String)
        ensures
            r@ == vk_hash_of(circuit_id@),
            r@.len() == 64,
    {
        let mut preimage = String::from_str("vk_");
        preimage.append(circuit_id);
        preimage.append("test");
        proof {
            assert(preimage@ =~= vk_preimage(circuit_id@));
        }
        let digest = sha256(preimage.as_str().as_bytes());
        proof {
            crate::crypto::lemma_hex_of_len(digest@);
        }
        hex_encode(&digest)
    }

    /// The simulated proof payload: a digest over the circuit, the
    /// issuer, and the moment of generation. Length-stable, nothing
    /// more.
    fn simulate_proof_generation(&self, circuit_id: &str) -> (r: Vec<u8>)
        ensures
            r@.len() == 32,
    {
        let now = crate::crypto::now_timestamp();
        let mut preimage = String::from_str(circuit_id);
        preimage.append(self.issuer_id.as_str());
        preimage.append(int_str_exec(now).as_str());
        sha256(preimage.as_str().as_bytes())
    }

    /// Assembles the proof data for a circuit: simulated proof bytes,
    /// the circuit name, and its verification-key hash.
    fn generate_proof_data(&self, circuit_id: &str) -> (r: Result<ProofData, IssuerError>)
        ensures
            r matches Ok(data) && data.proof_bytes@.len() == 32 && data.circuit_id@ == circuit_id@
                && data.vk_hash@ == vk_hash_of(circuit_id@),
    {
        let proof_bytes = self.simulate_proof_generation(circuit_id);
        Ok(
            ProofData {
                proof_bytes,
                circuit_id: String::from_str(circuit_id),
                vk_hash: Self::compute_verification_key_hash(circuit_id),
            },
        )
    }

    /// Builds the proof metadata: version tag, target platform, and the
    /// seeded properties merged with the caller's custom ones.
    fn create_metadata(&self, platform: &str, options: &ProofOptions) -> (r: ProofMetadata)
        requires
            options.custom_properties.wf(),
        ensures
            r.wf(),
            r.version@ == "1.0.0"@,
            r.platform@ == platform@,
            r.properties.to_map() == seeded_properties(
                *self,
                options.custom_properties.entries_seq(),
            ),
    {
        let mut properties: Dict<String> = Dict::new();
        properties.insert(String::from_str("issuer_id"), self.issuer_id.clone());
        properties.insert(String::from_str("issuer_name"), self.issuer_name.clone());
        let n = options.custom_properties.entry_count();
        let ghost custom = options.custom_properties.entries_seq();
        let mut i: usize = 0;
        while i < n
            invariant
                options.custom_properties.wf(),
                n == custom.len(),
                custom == options.custom_properties.entries_seq(),
                0 <= i <= n,
                properties.wf(),
                properties.to_map() == seeded_properties(*self, custom.subrange(0, i as int)),
            decreases n - i,
        {
            let entry = options.custom_properties.entry_at(i);
            let key = entry.0.clone();
            let value = entry.1.clone();
            properties.insert(key, value);
            proof {
                assert(custom.subrange(0, i + 1).drop_last() =~= custom.subrange(0, i as int));
                assert(custom.subrange(0, i + 1).last() == custom[i as int]);
            }
            i += 1;
        }
        proof {
            assert(custom.subrange(0, n as int) =~= custom);
        }
        ProofMetadata {
            version: String::from_str("1.0.0"),
            platform: String::from_str(platform),
            properties,
        }
    }
}

} // verus!
