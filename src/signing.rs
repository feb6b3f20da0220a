use vstd::prelude::*;
use base64::Engine;
use rsa::pkcs1::DecodeRsaPrivateKey;
use rsa::pss::{BlindedSigningKey, Signature};
use rsa::sha2::Sha256;
use rsa::signature::{Keypair, RandomizedSigner, SignatureEncoding, Verifier};
use rsa::RsaPrivateKey;

verus! {

/// The text that standard base64, with padding, makes of some bytes.
pub uninterp spec fn base64_of(b: Seq<u8>) -> Seq<char>;

/// Whether some bytes are a PKCS#1 (DER) RSA private key.
pub uninterp spec fn is_rsa_private_key(der: Seq<u8>) -> bool;

/// The size in bytes of the modulus of the private key `der`.
pub uninterp spec fn rsa_key_size(der: Seq<u8>) -> nat;

/// Whether `sig` is a valid RSASSA-PSS signature with SHA-256 and a salt as
/// long as the digest, under the verifying key of the private key `der`, over
/// the UTF-8 bytes of `msg`.
pub uninterp spec fn pss_sha256_accepts(der: Seq<u8>, msg: Seq<char>, sig: Seq<u8>) -> bool;

/// The length of the padded base64 text of `n` bytes.
pub open spec fn base64_len(n: nat) -> nat {
    4 * ((n + 2) / 3)
}

/// Relies on `Engine::encode` of base64's `STANDARD` engine, which pads to a
/// multiple of four characters.
#[verifier::external_body]
fn encode_base64(b: &Vec<u8>) -> (r: String)
    ensures
        r@ == base64_of(b@),
        r@.len() == base64_len(b@.len()),
{
    base64::prelude::BASE64_STANDARD.encode(b)
}

/// Relies on `Engine::decode` of base64's `STANDARD` engine, whose padding
/// mode is canonical and which refuses trailing bits: it accepts exactly the
/// texts that `encode` produces, and gives back the bytes encoded.
#[verifier::external_body]
fn decode_base64(s: &str) -> (r: Option<Vec<u8>>)
    ensures
        r matches Some(v) ==> base64_of(v@) == s@,
        r matches Some(v) ==> s@.len() == base64_len(v@.len()),
        r matches Some(v) ==> forall|b: Seq<u8>| #[trigger] base64_of(b) == s@ ==> b == v@,
        r is None ==> forall|b: Seq<u8>| #[trigger] base64_of(b) != s@,
{
    base64::prelude::BASE64_STANDARD.decode(s).ok()
}

/// Relies on `RsaPrivateKey::from_pkcs1_der`.
#[verifier::external_body]
fn parses_as_private_key(der: &Vec<u8>) -> (r: bool)
    ensures
        r == is_rsa_private_key(der@),
{
    RsaPrivateKey::from_pkcs1_der(der).is_ok()
}

/// Relies on `RandomizedSigner::try_sign_with_rng` of rsa's PSS
/// `BlindedSigningKey<Sha256>`, with `rand::thread_rng` for the salt and the
/// blinding. It checks the signature it computed before handing it out, so
/// what it returns verifies under the key pair's verifying key; the signature
/// is padded to the size of the modulus.
#[verifier::external_body]
fn pss_sign(der: &Vec<u8>, msg: &str) -> (r: Option<Vec<u8>>)
    ensures
        r matches Some(sig) ==> pss_sha256_accepts(der@, msg@, sig@),
        r matches Some(sig) ==> sig@.len() == rsa_key_size(der@),
{
    let key = RsaPrivateKey::from_pkcs1_der(der).ok()?;
    let signing_key = BlindedSigningKey::<Sha256>::new(key);
    let signature = signing_key.try_sign_with_rng(&mut rand::thread_rng(), msg.as_bytes()).ok()?;
    Some(signature.to_vec())
}

/// Relies on `Verifier::verify` of rsa's PSS `VerifyingKey<Sha256>`, taken
/// from the key pair by `Keypair::verifying_key`; it refuses a signature that
/// is not exactly as long as the modulus.
#[verifier::external_body]
fn pss_verify(der: &Vec<u8>, msg: &str, sig: &Vec<u8>) -> (r: bool)
    ensures
        r == pss_sha256_accepts(der@, msg@, sig@),
        r ==> sig@.len() == rsa_key_size(der@),
{
    let Ok(key) = RsaPrivateKey::from_pkcs1_der(der) else { return false };
    let verifying_key = BlindedSigningKey::<Sha256>::new(key).verifying_key();
    let Ok(signature) = Signature::try_from(sig.as_slice()) else { return false };
    verifying_key.verify(msg.as_bytes(), &signature).is_ok()
}

/// `token` is the base64 text of a signature that the key pair `key` accepts
/// over `path`.
pub open spec fn signed_by(key: Seq<u8>, path: Seq<char>, token: Seq<char>) -> bool {
    exists|b: Seq<u8>| #[trigger] base64_of(b) == token && pss_sha256_accepts(key, path, b)
}

/// Issues and checks signed tokens over paths with one RSA key pair, given as
/// its PKCS#1 DER private key.
pub struct SigningService {
    key: Vec<u8>,
}

impl View for SigningService {
    type V = Seq<u8>;

    closed spec fn view(&self) -> Seq<u8> {
        self.key@
    }
}

impl SigningService {
    pub open spec fn wf(self) -> bool {
        is_rsa_private_key(self@)
    }

    /// The service for a private key, or `None` where the bytes are no key.
    pub fn new(private_key_der: Vec<u8>) -> (r: Option<SigningService>)
        ensures
            r is Some == is_rsa_private_key(private_key_der@),
            r matches Some(s) ==> s@ == private_key_der@ && s.wf(),
    {
        if parses_as_private_key(&private_key_der) {
            Some(SigningService { key: private_key_der })
        } else {
            None
        }
    }

    /// A token for `path`: a signature over its bytes with a fresh random
    /// salt, in base64, as long as the base64 of a modulus-sized signature.
    /// `None` where the signer fails.
    pub fn sign_string(&self, path: &str) -> (r: Option<String>)
        ensures
            r matches Some(t) ==> signed_by(self@, path@, t@),
            r matches Some(t) ==> t@.len() == base64_len(rsa_key_size(self@)),
            r matches Some(t) ==> exists|b: Seq<u8>|
                #[trigger] base64_of(b) == t@ && b.len() == rsa_key_size(self@),
    {
        match pss_sign(&self.key, path) {
            Some(sig) => {
                let t = encode_base64(&sig);
                assert(base64_of(sig@) == t@ && pss_sha256_accepts(self@, path@, sig@));
                Some(t)
            },
            None => None,
        }
    }

    /// Whether `signature` is a token that this key pair issued for exactly
    /// `path`. Text that is no base64 and a signature that does not verify
    /// both give `false`.
    pub fn verify_string(&self, path: &str, signature: &str) -> (r: bool)
        ensures
            r == signed_by(self@, path@, signature@),
            r ==> signature@.len() == base64_len(rsa_key_size(self@)),
    {
        match decode_base64(signature) {
            Some(bytes) => {
                let ok = pss_verify(&self.key, path, &bytes);
                assert(ok ==> base64_of(bytes@) == signature@ && pss_sha256_accepts(
                    self@,
                    path@,
                    bytes@,
                ));
                ok
            },
            None => false,
        }
    }
}

/// A token that the service issued for a path is accepted for that path.
pub proof fn lemma_sign_then_verify(key: Seq<u8>, path: Seq<char>, sig: Seq<u8>)
    requires
        pss_sha256_accepts(key, path, sig),
    ensures
        signed_by(key, path, base64_of(sig)),
{
}

/// A token that is no base64 text is refused for every path.
pub proof fn lemma_malformed_token_refused(key: Seq<u8>, path: Seq<char>, token: Seq<char>)
    requires
        forall|b: Seq<u8>| #[trigger] base64_of(b) != token,
    ensures
        !signed_by(key, path, token),
{
}

} // verus!
