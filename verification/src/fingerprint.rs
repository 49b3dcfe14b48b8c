use vstd::prelude::*;

verus! {

/// The 64-bit content fingerprint of a byte sequence: equal bytes give
/// equal fingerprints, and distinct bytes are treated as giving distinct
/// ones.
pub uninterp spec fn fingerprint(b: Seq<u8>) -> u64;

/// Relies on `seahash::hash`: a 64-bit content hash, seeded with fixed
/// constants, that depends on the bytes alone.
#[verifier::external_body]
fn hash_bytes(b: &[u8]) -> (r: u64)
    ensures
        r == fingerprint(b@),
{
    seahash::hash(b)
}

/// Script staleness: whether the declared script and the copy held in the
/// nested build context differ in fingerprint. A pure read: repeated calls
/// on unchanged bytes return the same answer.
pub fn script_stale(declared: &Vec<u8>, nested: &Vec<u8>) -> (r: bool)
    ensures
        r == (fingerprint(declared@) != fingerprint(nested@)),
{
    hash_bytes(declared.as_slice()) != hash_bytes(nested.as_slice())
}

/// Equal byte sequences always carry equal fingerprints.
pub proof fn lemma_fingerprint_equal(a: Seq<u8>, b: Seq<u8>)
    requires
        a == b,
    ensures
        fingerprint(a) == fingerprint(b),
{
}

/// Staleness never fires on byte-identical contents: differing fingerprints
/// mean the bytes themselves differ.
pub proof fn lemma_no_false_staleness(a: Seq<u8>, b: Seq<u8>)
    requires
        fingerprint(a) != fingerprint(b),
    ensures
        a != b,
{
}

} // verus!
