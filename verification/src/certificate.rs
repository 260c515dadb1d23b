//! The certificate a proof is issued from: an already-validated input
//! from an outside collaborator, held here as plain values. The
//! collaborator's signature check is carried along as a field, and the
//! canonical export used for hashing is computed here.

use vstd::prelude::*;
use crate::crypto::{hex_encode, hex_of, sha256, sha256_of};
use crate::text::{dec_str, dec_str_exec, int_str, int_str_exec};

verus! {

/// A language-learning certificate: profile, course identifier (which
/// encodes language and level as underscore-separated tokens), challenge
/// counts, derived performance percentage, completion timestamp, and the
/// outcome of the collaborator's signature check.
#[derive(Debug, Clone, PartialEq)]
pub struct Certificate {
    pub game_path_name: String,
    pub total_challenges: u32,
    pub solved_challenges: u32,
    pub performance_percentage: u8,
    pub profile_name: String,
    pub date: i64,
    pub signature_ok: bool,
}

impl Certificate {
    /// Builds a certificate, deriving the performance percentage from the
    /// challenge counts. A freshly built certificate counts as carrying a
    /// passing signature check.
    pub fn new(
        game_path_name: String,
        total_challenges: u32,
        solved_challenges: u32,
        profile_name: String,
        date: i64,
    ) -> (r: Certificate)
        requires
            total_challenges > 0,
            solved_challenges <= total_challenges,
        ensures
            r.game_path_name == game_path_name,
            r.total_challenges == total_challenges,
            r.solved_challenges == solved_challenges,
            r.performance_percentage == solved_challenges * 100 / total_challenges as int,
            r.profile_name == profile_name,
            r.date == date,
            r.signature_ok,
    {
        let performance: u64 = (solved_challenges as u64) * 100 / (total_challenges as u64);
        proof {
            assert(performance <= 100) by (nonlinear_arith)
                requires
                    performance == solved_challenges as int * 100 / total_challenges as int,
                    0 < total_challenges as int,
                    solved_challenges as int <= total_challenges as int,
            ;
        }
        Certificate {
            game_path_name,
            total_challenges,
            solved_challenges,
            performance_percentage: performance as u8,
            profile_name,
            date,
            signature_ok: true,
        }
    }
}

/// The canonical text export of a certificate, the input of its hash.
pub open spec fn canonical_of(cert: Certificate) -> Seq<char> {
    cert.profile_name@ + "|"@ + cert.game_path_name@ + "|"@ + dec_str(
        cert.total_challenges as nat,
    ) + "|"@ + dec_str(cert.solved_challenges as nat) + "|"@ + dec_str(
        cert.performance_percentage as nat,
    ) + "|"@ + int_str(cert.date as int)
}

/// The certificate hash: lowercase hex of the SHA-256 digest of the
/// canonical export's bytes.
pub open spec fn certificate_hash_of(cert: Certificate) -> Seq<char> {
    hex_of(sha256_of(vstd::utf8::encode_utf8(canonical_of(cert))))
}

/// Renders the canonical export.
pub fn canonical_export(cert: &Certificate) -> (r: String)
    ensures
        r@ == canonical_of(*cert),
{
    let mut r = cert.profile_name.clone();
    r.append("|");
    r.append(cert.game_path_name.as_str());
    r.append("|");
    r.append(dec_str_exec(cert.total_challenges as u64).as_str());
    r.append("|");
    r.append(dec_str_exec(cert.solved_challenges as u64).as_str());
    r.append("|");
    r.append(dec_str_exec(cert.performance_percentage as u64).as_str());
    r.append("|");
    r.append(int_str_exec(cert.date).as_str());
    proof {
        assert(r@ =~= canonical_of(*cert));
    }
    r
}

/// Computes the certificate hash from the canonical export.
pub fn certificate_hash(cert: &Certificate) -> (r: String)
    ensures
        r@ == certificate_hash_of(*cert),
        r@.len() == 64,
{
    let canonical = canonical_export(cert);
    let digest = sha256(canonical.as_str().as_bytes());
    proof {
        crate::crypto::lemma_hex_of_len(digest@);
    }
    hex_encode(&digest)
}

} // verus!
