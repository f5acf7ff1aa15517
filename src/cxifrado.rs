//! The passphrase cipher: a key hashed from the passphrase, and XChaCha20-Poly1305
//! under a fixed all-zero nonce.
//!
//! The key is an unsalted hash, and the nonce never changes: the same
//! passphrase seals two different messages with the same key stream. This
//! guards against casual extraction only, not against offline guessing, and a
//! passphrase should seal one envelope only.

use vstd::prelude::*;
use vstd::utf8::*;
use chacha20poly1305::aead::Aead;
use chacha20poly1305::KeyInit;
use blake2::Digest;

verus! {

#[verifier::external_type_specification]
#[verifier::external_body]
pub struct ExAeadEraro(chacha20poly1305::Error);

/// The cipher refused: a message too long to seal, or, on opening, a wrong
/// passphrase or altered bytes, which are not told apart.
#[derive(Debug, Clone, Copy, PartialEq, Eq, Structural)]
pub struct CxifraEraro;

/// The 32-byte BLAKE2b hash of `bajtoj`.
pub uninterp spec fn blake2b_256(bajtoj: Seq<u8>) -> Seq<u8>;

/// `enhavo` sealed by XChaCha20-Poly1305 under `sxlosilo` and `nonco`: the
/// ciphertext, then the 16-byte tag.
pub uninterp spec fn xchacha_sigelo(sxlosilo: Seq<u8>, nonco: Seq<u8>, enhavo: Seq<u8>) -> Seq<u8>;

/// What XChaCha20-Poly1305 opens `cxifrita` to under `sxlosilo` and `nonco`;
/// `None` where the tag does not verify.
pub uninterp spec fn xchacha_malsigelo(sxlosilo: Seq<u8>, nonco: Seq<u8>, cxifrita: Seq<u8>) -> Option<
    Seq<u8>,
>;

/// The key that a passphrase gives: the hash of its UTF-8 bytes.
pub open spec fn sxlosilo_de(frazo: Seq<char>) -> Seq<u8> {
    blake2b_256(encode_utf8(frazo))
}

/// The nonce of every envelope: 24 zero bytes. It never changes, so a
/// passphrase should seal one envelope only.
pub open spec fn nulo_nonco() -> Seq<u8> {
    Seq::new(24, |i: int| 0u8)
}

/// Whether the cipher takes a message of this length: after the block that
/// keys the tag, its 32-bit block counter leaves `2^32 - 2` blocks of 64 bytes.
pub open spec fn sigeleblas(enhavo: Seq<u8>) -> bool {
    enhavo.len() <= 64 * 0xFFFF_FFFE
}

/// Whether a sealed message of this length, tag included, is within what the
/// cipher opens.
pub open spec fn malsigeleblas(cxifrita: Seq<u8>) -> bool {
    cxifrita.len() <= 64 * 0xFFFF_FFFE + 16
}

/// Relies on blake2's `Blake2b<U32>::digest`: the 32-byte BLAKE2b hash of the
/// bytes, a function of them alone.
#[verifier::external_body]
fn blake2b_32(bajtoj: &[u8]) -> (r: Vec<u8>)
    ensures
        r@ == blake2b_256(bajtoj@),
        r@.len() == 32,
{
    blake2::Blake2b::<blake2::digest::consts::U32>::digest(bajtoj).to_vec()
}

/// Relies on chacha20poly1305's `XChaCha20Poly1305::new` and `encrypt`: on a
/// message within the keystream it succeeds; what it returns is 16 bytes
/// longer than the message, and `decrypt` under the same key and nonce gives
/// the message back.
#[verifier::external_body]
fn sigeli(sxlosilo: &[u8], nonco: &[u8], enhavo: &[u8]) -> (r: Result<Vec<u8>, chacha20poly1305::Error>)
    requires
        sxlosilo@.len() == 32,
        nonco@.len() == 24,
        sigeleblas(enhavo@),
    ensures
        r is Ok,
        r matches Ok(c) ==> c@ == xchacha_sigelo(sxlosilo@, nonco@, enhavo@),
        r matches Ok(c) ==> c@.len() == enhavo@.len() + 16,
        r matches Ok(c) ==> xchacha_malsigelo(sxlosilo@, nonco@, c@) == Some(enhavo@),
{
    chacha20poly1305::XChaCha20Poly1305::new(sxlosilo.into()).encrypt(nonco.into(), enhavo)
}

/// Relies on chacha20poly1305's `XChaCha20Poly1305::new` and `decrypt`: the
/// message where the tag verifies, an error where it does not.
#[verifier::external_body]
fn malsigeli(sxlosilo: &[u8], nonco: &[u8], cxifrita: &[u8]) -> (r: Result<Vec<u8>, chacha20poly1305::Error>)
    requires
        sxlosilo@.len() == 32,
        nonco@.len() == 24,
        malsigeleblas(cxifrita@),
    ensures
        r matches Ok(p) ==> xchacha_malsigelo(sxlosilo@, nonco@, cxifrita@) == Some(p@),
        r is Err ==> xchacha_malsigelo(sxlosilo@, nonco@, cxifrita@) is None,
{
    chacha20poly1305::XChaCha20Poly1305::new(sxlosilo.into()).decrypt(nonco.into(), cxifrita)
}

/// The 24 zero bytes of the nonce.
fn nulo_nonco_bajtoj() -> (r: Vec<u8>)
    ensures
        r@ == nulo_nonco(),
{
    let mut r: Vec<u8> = Vec::new();
    let mut i: usize = 0;
    while i < 24
        invariant
            i <= 24,
            r@ == Seq::new(i as nat, |j: int| 0u8),
        decreases 24 - i,
    {
        r.push(0u8);
        i = i + 1;
        assert(r@ =~= Seq::new(i as nat, |j: int| 0u8));
    }
    r
}

/// The cipher that protects an envelope.
pub enum Cxifrado {
    Chacha20Poly1305,
}

impl Cxifrado {
    /// Seals `enhavo` under the key of `sekreta_frazo` and the all-zero nonce;
    /// refuses a message longer than the cipher takes.
    pub fn cxifri(enhavo: &[u8], sekreta_frazo: &str) -> (r: Result<Vec<u8>, CxifraEraro>)
        ensures
            r is Ok <==> sigeleblas(enhavo@),
            r matches Ok(c) ==> c@ == xchacha_sigelo(sxlosilo_de(sekreta_frazo@), nulo_nonco(), enhavo@),
            r matches Ok(c) ==> c@.len() == enhavo@.len() + 16,
            r matches Ok(c) ==> xchacha_malsigelo(sxlosilo_de(sekreta_frazo@), nulo_nonco(), c@)
                == Some(enhavo@),
    {
        if enhavo.len() as u64 > 64 * 0xFFFF_FFFEu64 {
            return Err(CxifraEraro);
        }
        let sxlosilo = Self::derivi_sxlosilo(sekreta_frazo);
        let nonco = nulo_nonco_bajtoj();
        match sigeli(sxlosilo.as_slice(), nonco.as_slice(), enhavo) {
            Ok(c) => Ok(c),
            Err(_) => Err(CxifraEraro),
        }
    }

    /// Opens `cxifrita` under the key of `sekreta_frazo` and the all-zero
    /// nonce; fails alike on a wrong passphrase, on altered bytes, and on a
    /// message longer than the cipher takes.
    pub fn decxifri(cxifrita: &[u8], sekreta_frazo: &str) -> (r: Result<Vec<u8>, CxifraEraro>)
        ensures
            r matches Ok(p) ==> xchacha_malsigelo(sxlosilo_de(sekreta_frazo@), nulo_nonco(), cxifrita@)
                == Some(p@),
            malsigeleblas(cxifrita@) ==> (r is Err <==> xchacha_malsigelo(
                sxlosilo_de(sekreta_frazo@),
                nulo_nonco(),
                cxifrita@,
            ) is None),
            !malsigeleblas(cxifrita@) ==> r is Err,
    {
        if cxifrita.len() as u64 > 64 * 0xFFFF_FFFEu64 + 16 {
            return Err(CxifraEraro);
        }
        let sxlosilo = Self::derivi_sxlosilo(sekreta_frazo);
        let nonco = nulo_nonco_bajtoj();
        match malsigeli(sxlosilo.as_slice(), nonco.as_slice(), cxifrita) {
            Ok(p) => Ok(p),
            Err(_) => Err(CxifraEraro),
        }
    }

    /// The key of `sekreta_frazo`.
    pub fn derivi_sxlosilo(sekreta_frazo: &str) -> (r: Vec<u8>)
        ensures
            r@ == sxlosilo_de(sekreta_frazo@),
            r@.len() == 32,
    {
        blake2b_32(sekreta_frazo.as_bytes())
    }
}

/// The key of a passphrase depends on the passphrase alone: deriving it twice
/// gives the same key.
pub proof fn lemma_sxlosilo_determinita(a: Seq<char>, b: Seq<char>)
    requires
        a == b,
    ensures
        sxlosilo_de(a) == sxlosilo_de(b),
{
}

} // verus!
