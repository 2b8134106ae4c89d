//! Records exchanged with the leaderboard service, and the signature that
//! authenticates a submitted proof.

use vstd::prelude::*;
use vstd::string::{StrSliceExecFns, StringSliceAdditionalSpecFns};
use crate::verification::ExportedProof;

verus! {

/// A proof together with its signature.
#[derive(Debug, Clone)]
pub struct ProofSubmission {
    pub proof: ExportedProof,
    pub signature: String,
}

/// The service's answer to a submission.
#[derive(Debug, Clone)]
pub struct ServerResponse {
    pub accepted: bool,
    pub points_awarded: u32,
    pub global_rank: Option<u32>,
    pub message: Option<String>,
}

/// One line of the leaderboard.
#[derive(Debug, Clone)]
pub struct LeaderboardEntry {
    pub player_name: String,
    pub steam_id: Option<String>,
    pub proofs_completed: u32,
    pub total_points: u32,
    pub rank: u32,
}

/// A player's totals as the service reports them.
#[derive(Debug, Clone, Copy)]
pub struct PlayerStatsResponse {
    pub total_proofs: u32,
    pub total_points: u32,
    pub global_rank: u32,
    pub levels_completed: u32,
}

/// The SHA-256 digest of `data`.
pub uninterp spec fn sha256_of(data: Seq<u8>) -> Seq<u8>;

/// Relies on sha2's `Sha256::digest`: the 32-byte SHA-256 digest of `data`,
/// which depends on `data` alone.
#[verifier::external_body]
fn sha256(data: &[u8]) -> (r: Vec<u8>)
    ensures
        r@ == sha256_of(data@),
        r@.len() == 32,
{
    <sha2::Sha256 as sha2::Digest>::digest(data).to_vec()
}

/// The lower-case hexadecimal digit for `d` below 16.
pub open spec fn hex_digit(d: int) -> Seq<char> {
    "0123456789abcdef"@.subrange(d, d + 1)
}

/// `b` in lower-case hexadecimal, two digits per byte, high nibble first.
pub open spec fn hex_text(b: Seq<u8>) -> Seq<char>
    decreases b.len(),
{
    if b.len() == 0 {
        Seq::empty()
    } else {
        hex_text(b.drop_last()) + hex_digit(b.last() as int / 16) + hex_digit(
            b.last() as int % 16,
        )
    }
}

/// Writes `bytes` in lower-case hexadecimal.
pub fn hex_lower(bytes: &[u8]) -> (r: String)
    ensures
        r@ == hex_text(bytes@),
{
    let digits = "0123456789abcdef";
    proof {
        reveal_strlit("0123456789abcdef");
    }
    let mut out = String::new();
    let mut i: usize = 0;
    while i < bytes.len()
        invariant
            i <= bytes@.len(),
            digits@ == "0123456789abcdef"@,
            digits@.len() == 16,
            out@ == hex_text(bytes@.subrange(0, i as int)),
        decreases bytes@.len() - i,
    {
        let b = bytes[i];
        let hi = (b / 16) as usize;
        let lo = (b % 16) as usize;
        out.append(digits.substring_char(hi, hi + 1));
        out.append(digits.substring_char(lo, lo + 1));
        proof {
            let t = bytes@.subrange(0, i as int + 1);
            assert(t.drop_last() =~= bytes@.subrange(0, i as int));
            assert(t.last() == b);
        }
        i = i + 1;
    }
    assert(bytes@.subrange(0, bytes@.len() as int) =~= bytes@);
    out
}

/// The signature of a proof: the SHA-256 digest of the proof's JSON text
/// followed by the API key, in lower-case hexadecimal.
pub fn sign_proof_json(proof_json: &str, api_key: &str) -> (r: String)
    ensures
        r@ == hex_text(sha256_of(proof_json.spec_bytes() + api_key.spec_bytes())),
        r@.len() == 64,
{
    let mut data = proof_json.as_bytes_vec();
    let mut key = api_key.as_bytes_vec();
    data.append(&mut key);
    let digest = sha256(data.as_slice());
    let r = hex_lower(digest.as_slice());
    proof {
        lemma_hex_len(digest@);
    }
    r
}

proof fn lemma_hex_len(b: Seq<u8>)
    ensures
        hex_text(b).len() == 2 * b.len(),
    decreases b.len(),
{
    reveal_strlit("0123456789abcdef");
    if b.len() > 0 {
        lemma_hex_len(b.drop_last());
    }
}

} // verus!
