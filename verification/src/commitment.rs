//! Secret/commitment pairs that gate the settlement of a locked invoice.

use vstd::prelude::*;

verus! {

/// The SHA-256 digest of a byte string, as computed by
/// `bitcoin_hashes::sha256::Hash::hash`. The digest is a function of the
/// input bytes alone; its value is not spelled out here.
pub uninterp spec fn sha256_digest(data: Seq<u8>) -> Seq<u8>;

/// The thread-local generator of the `rand` crate, carried through as an
/// opaque value.
#[verifier::external_type_specification]
#[verifier::external_body]
pub struct ExThreadRng(rand::rngs::ThreadRng);

/// Calls `bitcoin_hashes::sha256::Hash::hash` on `data` and returns the
/// digest's 32 bytes. Trusted: the result is the SHA-256 digest of `data`.
#[verifier::external_body]
fn sha256(data: &[u8]) -> (digest: [u8; 32])
    ensures
        digest@ == sha256_digest(data@),
{
    let digest = <bitcoin_hashes::sha256::Hash as bitcoin_hashes::Hash>::hash(data);
    bitcoin_hashes::Hash::to_byte_array(digest)
}

/// Calls `rand::thread_rng` to obtain the calling thread's generator.
/// Nothing is claimed of the generator. The call fails only where the
/// operating system yields no entropy, which no argument decides.
#[verifier::external_body]
fn entropy_source() -> (rng: rand::rngs::ThreadRng) {
    rand::thread_rng()
}

/// Calls `rand::Rng::fill` on a fresh 32-byte buffer. The bytes depend on
/// chance, so nothing is claimed of them beyond their number. The call
/// fails only where the operating system yields no entropy for a reseed,
/// which no argument decides.
#[verifier::external_body]
fn draw_secret(rng: &mut rand::rngs::ThreadRng) -> (secret: [u8; 32]) {
    let mut secret = [0u8; 32];
    rand::Rng::fill(rng, &mut secret[..]);
    secret
}

/// A secret and the commitment that locks a payment to it.
#[derive(Clone, Copy, Debug, PartialEq, Eq)]
pub struct CommitmentPair {
    pub secret: [u8; 32],
    pub commitment: [u8; 32],
}

/// Whether revealing `secret` opens a lock made with `commitment`.
pub open spec fn opens(secret: Seq<u8>, commitment: Seq<u8>) -> bool {
    sha256_digest(secret) == commitment
}

/// Whether two byte strings hold the same bytes.
pub fn bytes_equal(a: &[u8], b: &[u8]) -> (same: bool)
    ensures
        same == (a@ == b@),
{
    if a.len() != b.len() {
        return false;
    }
    let mut i: usize = 0;
    while i < a.len()
        invariant
            a.len() == b.len(),
            i <= a.len(),
            forall|k: int| 0 <= k < i ==> a@[k] == b@[k],
        decreases a.len() - i,
    {
        if a[i] != b[i] {
            return false;
        }
        i += 1;
    }
    assert(a@ =~= b@);
    true
}

/// Checks that `secret` hashes to `commitment`.
pub fn verify(secret: &[u8], commitment: &[u8]) -> (ok: bool)
    ensures
        ok == opens(secret@, commitment@),
{
    let digest = sha256(secret);
    bytes_equal(digest.as_slice(), commitment)
}

impl CommitmentPair {
    /// The pair is usable: its commitment is the digest of its secret.
    pub open spec fn wf(&self) -> bool {
        opens(self.secret@, self.commitment@)
    }

    /// Builds the pair that belongs to a given secret.
    pub fn from_secret(secret: [u8; 32]) -> (pair: CommitmentPair)
        ensures
            pair.secret == secret,
            pair.wf(),
    {
        let commitment = sha256(secret.as_slice());
        CommitmentPair { secret, commitment }
    }

    /// Draws a fresh random secret and commits to it.
    pub fn generate() -> (pair: CommitmentPair)
        ensures
            pair.wf(),
    {
        let mut rng = entropy_source();
        let secret = draw_secret(&mut rng);
        CommitmentPair::from_secret(secret)
    }

    /// Re-checks the pair's invariant at run time.
    pub fn is_valid(&self) -> (ok: bool)
        ensures
            ok == self.wf(),
    {
        verify(self.secret.as_slice(), self.commitment.as_slice())
    }
}

/// Whether every entry of a table pairs a secret with its digest.
pub open spec fn table_wf(table: Seq<([u8; 32], [u8; 32])>) -> bool {
    forall|i: int| 0 <= i < table.len() ==> opens((#[trigger] table[i]).0@, table[i].1@)
}

/// Entry `i` of the table holds secret `i` of the list.
pub open spec fn table_holds(table: Seq<([u8; 32], [u8; 32])>, secrets: Seq<[u8; 32]>) -> bool {
    &&& table.len() == secrets.len()
    &&& forall|i: int| 0 <= i < secrets.len() ==> (#[trigger] table[i]).0 == secrets[i]
}

/// The table for a list of secrets: for each secret, in order, the secret
/// and the commitment to it.
pub fn hash_table_of(secrets: &Vec<[u8; 32]>) -> (table: Vec<([u8; 32], [u8; 32])>)
    ensures
        table_holds(table@, secrets@),
        table_wf(table@),
{
    let mut table: Vec<([u8; 32], [u8; 32])> = Vec::new();
    let mut i: usize = 0;
    while i < secrets.len()
        invariant
            i <= secrets.len(),
            table_holds(table@, secrets@.take(i as int)),
            table_wf(table@),
        decreases secrets.len() - i,
    {
        let pair = CommitmentPair::from_secret(secrets[i]);
        table.push((pair.secret, pair.commitment));
        i += 1;
    }
    proof {
        assert(secrets@.take(i as int) =~= secrets@);
    }
    table
}

/// Draws `n` secrets from the calling thread's generator, in order.
pub fn draw_secrets(n: usize) -> (secrets: Vec<[u8; 32]>)
    ensures
        secrets@.len() == n,
{
    let mut rng = entropy_source();
    let mut secrets: Vec<[u8; 32]> = Vec::new();
    let mut i: usize = 0;
    while i < n
        invariant
            i <= n,
            secrets@.len() == i,
        decreases n - i,
    {
        secrets.push(draw_secret(&mut rng));
        i += 1;
    }
    secrets
}

/// Generates `n` (secret, commitment) entries, one for each of `n` draws,
/// in draw order.
pub fn gen_hash_table(n: usize) -> (table: Vec<([u8; 32], [u8; 32])>)
    ensures
        table@.len() == n,
        table_wf(table@),
{
    let secrets = draw_secrets(n);
    hash_table_of(&secrets)
}

/// No two secrets of the table are the same.
pub open spec fn distinct_secrets(table: Seq<([u8; 32], [u8; 32])>) -> bool {
    forall|i: int, j: int| 0 <= i < j < table.len() ==> (#[trigger] table[i]).0 != (#[trigger] table[j]).0
}

/// The digest tells the secrets of the table apart: no two different
/// secrets of it have the same digest.
pub open spec fn digest_separates(table: Seq<([u8; 32], [u8; 32])>) -> bool {
    forall|i: int, j: int|
        0 <= i < j < table.len() && (#[trigger] table[i]).0@ != (#[trigger] table[j]).0@
            ==> sha256_digest(table[i].0@) != sha256_digest(table[j].0@)
}

/// Where the draws differ and the digest tells them apart, no two entries
/// of the table share a secret or a commitment. That the draws differ is a
/// matter of chance, and that the digest tells them apart is a property of
/// the hash function: both are taken as given here.
pub proof fn lemma_distinct_draws_never_collide(table: Seq<([u8; 32], [u8; 32])>)
    requires
        table_wf(table),
        distinct_secrets(table),
        digest_separates(table),
    ensures
        forall|i: int, j: int|
            0 <= i < j < table.len() ==> (#[trigger] table[i]).0 != (#[trigger] table[j]).0 && table[i].1
                != table[j].1,
{
    assert forall|i: int, j: int| 0 <= i < j < table.len() implies (#[trigger] table[i]).0 != (
    #[trigger] table[j]).0 && table[i].1 != table[j].1 by {
        if table[i].0@ == table[j].0@ {
            assert(table[i].0 =~= table[j].0);
        }
    }
}

} // verus!
