//! Local ledger snapshot and the consistency-proof check.
//!
//! A [`LedgerSnapshot`] is what the decision core knows of the locally
//! committed transaction log: its size (number of committed entries) and its
//! root hash. A claim that a larger tree with another root extends this
//! snapshot may come with a proof-hash sequence; [`check_cons_proofs`]
//! verifies it.
//!
//! The proof scheme is a rolling-hash extension: a claim of size
//! `target_size > size` must carry exactly `target_size - size` proof hashes
//! (base58 text), and folding the local root through them with SHA-256 —
//! `r_0 = root`, `r_{i+1} = SHA-256(r_i ++ h_i)` — must end at the claimed
//! target root.

use vstd::prelude::*;

use crate::codec::{b58_bytes_of, b58_decode, sha256, sha256_of};

verus! {

/// Snapshot of the local Merkle tree: entry count and root hash.
pub struct LedgerSnapshot {
    /// Number of committed entries.
    pub size: usize,
    /// Root hash over the committed entries.
    pub root: Vec<u8>,
}

/// Why a consistency proof was rejected.
#[derive(Debug, PartialEq, Eq)]
pub enum ProofError {
    /// A proof hash is not valid base58 text.
    BadProofHash,
    /// The proof hashes do not extend the local snapshot to the claimed head.
    InvalidProof,
}

/// The root that a proof-hash sequence extends `root` to: each hash is folded
/// in with SHA-256.
pub open spec fn chain_root(root: Seq<u8>, hashes: Seq<Seq<u8>>) -> Seq<u8>
    decreases hashes.len(),
{
    if hashes.len() == 0 {
        root
    } else {
        chain_root(sha256_of(root + hashes[0]), hashes.drop_first())
    }
}

/// The byte strings that a sequence of base58 texts decodes to, or `None`
/// where any of them is malformed.
pub open spec fn decode_all(texts: Seq<Seq<char>>) -> Option<Seq<Seq<u8>>>
    decreases texts.len(),
{
    if texts.len() == 0 {
        Some(Seq::empty())
    } else {
        match b58_bytes_of(texts[0]) {
            Option::None => Option::None,
            Option::Some(bytes) => match decode_all(texts.drop_first()) {
                Option::None => Option::None,
                Option::Some(rest) => Option::Some(seq![bytes] + rest),
            },
        }
    }
}

/// What [`check_cons_proofs`] decides, as a function of the snapshot, the
/// claim and the proof hashes: a malformed hash is a parse failure; otherwise
/// the proof must have exactly one hash per claimed new entry and fold to the
/// claimed target root.
pub open spec fn spec_check_cons_proofs(
    root: Seq<u8>,
    size: int,
    hashes: Seq<Seq<char>>,
    target_root: Seq<u8>,
    target_size: int,
) -> Result<(), ProofError> {
    match decode_all(hashes) {
        Option::None => Result::Err(ProofError::BadProofHash),
        Option::Some(decoded) => if decoded.len() == target_size - size && chain_root(
            root,
            decoded,
        ) == target_root {
            Result::Ok(())
        } else {
            Result::Err(ProofError::InvalidProof)
        },
    }
}

/// `a ++ b`.
fn concat_bytes(a: &Vec<u8>, b: &Vec<u8>) -> (r: Vec<u8>)
    ensures
        r@ == a@ + b@,
{
    let mut r: Vec<u8> = Vec::new();
    let mut i: usize = 0;
    while i < a.len()
        invariant
            i <= a.len(),
            r@ == a@.take(i as int),
        decreases a.len() - i,
    {
        r.push(a[i]);
        i = i + 1;
        proof {
            assert(a@.take(i as int) =~= a@.take(i - 1).push(a@[i - 1]));
        }
    }
    proof {
        assert(a@.take(a@.len() as int) =~= a@);
    }
    let mut j: usize = 0;
    while j < b.len()
        invariant
            j <= b.len(),
            r@ == a@ + b@.take(j as int),
        decreases b.len() - j,
    {
        r.push(b[j]);
        j = j + 1;
        proof {
            assert(a@ + b@.take(j as int) =~= (a@ + b@.take(j - 1)).push(b@[j - 1]));
        }
    }
    proof {
        assert(a@ + b@.take(b@.len() as int) =~= a@ + b@);
    }
    r
}

/// Byte-string equality.
fn bytes_eq(a: &Vec<u8>, b: &Vec<u8>) -> (r: bool)
    ensures
        r == (a@ == b@),
{
    if a.len() != b.len() {
        return false;
    }
    let mut i: usize = 0;
    while i < a.len()
        invariant
            i <= a.len(),
            a@.len() == b@.len(),
            forall|k: int| 0 <= k < i ==> a@[k] == b@[k],
        decreases a.len() - i,
    {
        if a[i] != b[i] {
            return false;
        }
        i = i + 1;
    }
    proof {
        assert(a@ =~= b@);
    }
    true
}

/// Checks that `hashes` is a consistency proof carrying the local snapshot to
/// the claimed `(target_root, target_size)` head: every hash must decode from
/// base58, there must be exactly one hash per claimed new entry, and the
/// rolling SHA-256 fold of the local root through them must end at
/// `target_root`.
pub fn check_cons_proofs(
    merkle_tree: &LedgerSnapshot,
    hashes: &Vec<String>,
    target_mt_root: &Vec<u8>,
    target_mt_size: usize,
) -> (r: Result<(), ProofError>)
    requires
        merkle_tree.size <= target_mt_size,
    ensures
        r == spec_check_cons_proofs(
            merkle_tree.root@,
            merkle_tree.size as int,
            hashes.deep_view(),
            target_mt_root@,
            target_mt_size as int,
        ),
{
    let ghost texts = hashes.deep_view();
    let mut decoded: Vec<Vec<u8>> = Vec::new();
    proof {
        assert(texts.skip(0) =~= texts);
        assert(decoded.deep_view() =~= Seq::<Seq<u8>>::empty());
        if decode_all(texts) is Some {
            assert(Seq::<Seq<u8>>::empty() + decode_all(texts)->Some_0 =~= decode_all(
                texts,
            )->Some_0);
        }
    }
    let mut i: usize = 0;
    while i < hashes.len()
        invariant
            i <= hashes.len(),
            texts == hashes.deep_view(),
            texts.len() == hashes@.len(),
            forall|k: int| 0 <= k < hashes@.len() ==> texts[k] == hashes@[k]@,
            decode_all(texts) == match decode_all(texts.skip(i as int)) {
                Option::None => Option::None::<Seq<Seq<u8>>>,
                Option::Some(rest) => Option::Some(decoded.deep_view() + rest),
            },
            decoded.deep_view().len() == i,
        decreases hashes.len() - i,
    {
        proof {
            assert(texts.skip(i as int).len() > 0);
            assert(texts.skip(i as int)[0] == texts[i as int]);
            assert(texts.skip(i as int).drop_first() =~= texts.skip(i + 1));
        }
        match crate::codec::b58_decode(hashes[i].as_str()) {
            Option::None => {
                proof {
                    assert(decode_all(texts.skip(i as int)) is None);
                }
                return Result::Err(ProofError::BadProofHash);
            },
            Option::Some(bytes) => {
                let ghost prev = decoded.deep_view();
                let ghost b = bytes@;
                decoded.push(bytes);
                proof {
                    assert(forall|k: int|
                        0 <= k < prev.len() ==> decoded.deep_view()[k] == prev[k]);
                    assert(decoded.deep_view()[prev.len() as int] == b);
                    assert(decoded.deep_view() =~= prev.push(b));
                    if decode_all(texts.skip(i + 1)) is Some {
                        let rest = decode_all(texts.skip(i + 1))->Some_0;
                        assert(decode_all(texts.skip(i as int)) == Option::Some(seq![b] + rest));
                        assert(prev + (seq![b] + rest) =~= prev.push(b) + rest);
                    }
                }
            },
        }
        i = i + 1;
    }
    proof {
        assert(texts.skip(texts.len() as int) =~= Seq::<Seq<char>>::empty());
        assert(decoded.deep_view() + Seq::<Seq<u8>>::empty() =~= decoded.deep_view());
        assert(decode_all(texts) == Option::Some(decoded.deep_view()));
    }
    if decoded.len() != target_mt_size - merkle_tree.size {
        return Result::Err(ProofError::InvalidProof);
    }
    let ghost proofs = decoded.deep_view();
    proof {
        assert(proofs.skip(0) =~= proofs);
    }
    let mut cur: Vec<u8> = Vec::new();
    let mut c: usize = 0;
    while c < merkle_tree.root.len()
        invariant
            c <= merkle_tree.root.len(),
            cur@ == merkle_tree.root@.take(c as int),
        decreases merkle_tree.root.len() - c,
    {
        cur.push(merkle_tree.root[c]);
        c = c + 1;
        proof {
            assert(merkle_tree.root@.take(c as int) =~= merkle_tree.root@.take(c - 1).push(
                merkle_tree.root@[c - 1],
            ));
        }
    }
    proof {
        assert(merkle_tree.root@.take(merkle_tree.root@.len() as int) =~= merkle_tree.root@);
    }
    let mut j: usize = 0;
    while j < decoded.len()
        invariant
            j <= decoded.len(),
            proofs == decoded.deep_view(),
            proofs.len() == decoded@.len(),
            forall|k: int| 0 <= k < decoded@.len() ==> proofs[k] == decoded@[k]@,
            chain_root(cur@, proofs.skip(j as int)) == chain_root(merkle_tree.root@, proofs),
        decreases decoded.len() - j,
    {
        proof {
            assert(proofs.skip(j as int).len() > 0);
            assert(proofs.skip(j as int)[0] == proofs[j as int]);
            assert(proofs.skip(j as int).drop_first() =~= proofs.skip(j + 1));
        }
        let joined = concat_bytes(&cur, &decoded[j]);
        cur = sha256(joined.as_slice());
        j = j + 1;
    }
    proof {
        assert(proofs.skip(proofs.len() as int) =~= Seq::<Seq<u8>>::empty());
    }
    if bytes_eq(&cur, target_mt_root) {
        Result::Ok(())
    } else {
        Result::Err(ProofError::InvalidProof)
    }
}

} // verus!
