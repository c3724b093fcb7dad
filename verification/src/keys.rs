use vstd::prelude::*;

use rsa::{PrivateKeyPemEncoding, PublicKeyPemEncoding};

use vstd::pervasive::arbitrary;

use crate::armor::{
    lemma_base64_chars, lemma_read_back_pem_contents, spec_base64, spec_is_base64_char,
    spec_is_pem_block, spec_pem_body, spec_pem_text,
};

verus! {

#[verifier::external_type_specification]
#[verifier::external_body]
pub struct ExRsaPrivateKey(rsa::RSAPrivateKey);

#[verifier::external_type_specification]
#[verifier::external_body]
pub struct ExRsaPublicKey(rsa::RSAPublicKey);

#[verifier::external_type_specification]
#[verifier::external_body]
pub struct ExRsaError(rsa::errors::Error);

/// Size in bits of the modulus of the keys that `rsa_keygen` makes.
pub const KEY_BITS: usize = 1024;

/// The label of a PKCS#8 private key PEM block.
pub open spec fn spec_private_key_tag() -> Seq<char> {
    "PRIVATE KEY"@
}

/// The label of a PKCS#8 public key PEM block.
pub open spec fn spec_public_key_tag() -> Seq<char> {
    "PUBLIC KEY"@
}

/// A freshly generated key pair, each key PKCS#8-encoded as PEM text with CRLF line endings.
pub struct KeyPairPem {
    pub private_pem: String,
    pub public_pem: String,
}

/// Why a key pair could not be made.
#[derive(Debug, Clone, Copy, PartialEq, Eq, Structural)]
pub enum KeyGenError {
    /// The random key generation failed.
    Generation,
    /// A key could not be encoded as PEM.
    Encoding,
}

/// The bit length of the modulus of the RSA key whose PKCS#8 private key DER is `private_der`.
pub uninterp spec fn spec_modulus_bits(private_der: Seq<u8>) -> nat;

/// The PKCS#8 public key DER of the public half of the RSA key whose PKCS#8 private key DER is
/// `private_der`: what `RSAPublicKey::from` and `to_pkcs8` give for that key.
pub uninterp spec fn spec_public_key_der(private_der: Seq<u8>) -> Seq<u8>;

/// A private key that `RSAPrivateKey::new` made: two distinct primes whose product has the
/// requested number of bits. Only key generation makes one. `der` stands for the key's PKCS#8
/// DER; it is not computed at run time.
pub struct GeneratedKey {
    key: rsa::RSAPrivateKey,
    der: Ghost<Seq<u8>>,
}

impl GeneratedKey {
    /// The key's PKCS#8 private key DER.
    pub closed spec fn der(&self) -> Seq<u8> {
        self.der@
    }
}

/// The public half of a generated key. `der` stands for its PKCS#8 public key DER; it is not
/// computed at run time.
pub struct PublicHalf {
    key: rsa::RSAPublicKey,
    der: Ghost<Seq<u8>>,
}

impl PublicHalf {
    /// The public key's PKCS#8 DER.
    pub closed spec fn der(&self) -> Seq<u8> {
        self.der@
    }
}

/// The line ending that PEM encoding writes after each line.
#[derive(Debug, Clone, Copy, PartialEq, Eq, Structural)]
pub enum PemLineEnding {
    /// `"\n"`.
    Lf,
    /// `"\r\n"`.
    Crlf,
}

/// Whether the line ending is `"\r\n"`.
pub open spec fn spec_is_crlf(ending: PemLineEnding) -> bool {
    ending == PemLineEnding::Crlf
}

/// The line ending of the PEM files that `rsa_keygen` makes.
pub const KEY_LINE_ENDING: PemLineEnding = PemLineEnding::Crlf;

/// Calls `rsa::RSAPrivateKey::new` with the operating system's random source (`rand_core::OsRng`)
/// and `bits`. The key is random; what is stated is what the source guarantees of every key it
/// returns. The source makes a two-prime key and returns an error only when there are fewer
/// than two primes or, below 64 bits, too few primes of the size; otherwise it draws primes,
/// distinct, until their product has exactly `bits` bits and the exponent has an inverse, and
/// returns that key. So for 64 bits or more the call succeeds, with a modulus of `bits` bits.
#[verifier::external_body]
fn generate_private_key(bits: usize) -> (res: Result<GeneratedKey, rsa::errors::Error>)
    ensures
        bits >= 64 ==> res is Ok,
        res matches Ok(key) ==> spec_modulus_bits(key.der()) == bits,
{
    match rsa::RSAPrivateKey::new(&mut rand_core::OsRng, bits) {
        Ok(key) => Ok(GeneratedKey { key, der: Ghost(arbitrary()) }),
        Err(e) => Err(e),
    }
}

/// Calls `rsa::RSAPublicKey::from(&RSAPrivateKey)`: the public half of a private key, whose
/// PKCS#8 DER is a function of the private key's. That DER is a non-empty ASN.1 sequence.
#[verifier::external_body]
fn public_key_of(key: &GeneratedKey) -> (res: PublicHalf)
    ensures
        res.der() == spec_public_key_der(key.der()),
        res.der().len() > 0,
{
    PublicHalf { key: rsa::RSAPublicKey::from(&key.key), der: Ghost(arbitrary()) }
}

/// Calls `PrivateKeyPemEncoding::to_pem_pkcs8_with_config` with the line ending `ending`. Its source
/// builds `pem::Pem { tag: "PRIVATE KEY", contents: der }` from the key's PKCS#8 DER and returns
/// `pem::encode_config` of it, which writes the BEGIN line, the standard padded base64 of the
/// contents in lines of 64 characters (the last one shorter), and the END line, each followed
/// by the line ending. The DER encoding fails only for a key of more than two primes or when the
/// second prime has no inverse modulo the first; a generated key has two distinct primes, so
/// for it the call succeeds.
#[verifier::external_body]
fn private_key_pem(key: &GeneratedKey, ending: PemLineEnding) -> (res: Result<
    String,
    rsa::errors::Error,
>)
    ensures
        res is Ok,
        res matches Ok(text) ==> text@ == spec_pem_text(spec_private_key_tag(), key.der(), spec_is_crlf(ending)),
{
    let line_ending = match ending {
        PemLineEnding::Lf => pem::LineEnding::LF,
        PemLineEnding::Crlf => pem::LineEnding::CRLF,
    };
    key.key.to_pem_pkcs8_with_config(pem::EncodeConfig { line_ending })
}

/// Calls `PublicKeyPemEncoding::to_pem_pkcs8_with_config` with the line ending `ending`. Its source
/// builds `pem::Pem { tag: "PUBLIC KEY", contents: der }` from the key's PKCS#8 DER and returns
/// `pem::encode_config` of it, which writes the BEGIN line, the standard padded base64 of the
/// contents in lines of 64 characters (the last one shorter), and the END line, each followed
/// by the line ending. The DER encoding of a public key (two integers, the RSA object identifier, a
/// bit string) has no failing case in `simple_asn1::to_der`, so the call succeeds.
#[verifier::external_body]
fn public_key_pem(key: &PublicHalf, ending: PemLineEnding) -> (res: Result<
    String,
    rsa::errors::Error,
>)
    ensures
        res is Ok,
        res matches Ok(text) ==> text@ == spec_pem_text(spec_public_key_tag(), key.der(), spec_is_crlf(ending)),
{
    let line_ending = match ending {
        PemLineEnding::Lf => pem::LineEnding::LF,
        PemLineEnding::Crlf => pem::LineEnding::CRLF,
    };
    key.key.to_pem_pkcs8_with_config(pem::EncodeConfig { line_ending })
}

/// Puts the two encodings of a key pair together: a pair when both succeeded, else
/// `KeyGenError::Encoding`.
pub fn key_pair_from_encodings(
    private_pem: Result<String, rsa::errors::Error>,
    public_pem: Result<String, rsa::errors::Error>,
) -> (res: Result<KeyPairPem, KeyGenError>)
    ensures
        match (private_pem, public_pem) {
            (Ok(p), Ok(q)) => res matches Ok(pair) && pair.private_pem == p && pair.public_pem == q,
            _ => res == Err::<KeyPairPem, KeyGenError>(KeyGenError::Encoding),
        },
{
    match (private_pem, public_pem) {
        (Ok(p), Ok(q)) => Ok(KeyPairPem { private_pem: p, public_pem: q }),
        _ => Err(KeyGenError::Encoding),
    }
}

/// `pair` is the PEM encoding of one `KEY_BITS`-bit RSA key whose PKCS#8 private key DER is
/// `der`: the private key's PKCS#8 PEM and the PKCS#8 PEM of its public half, with CRLF line
/// endings.
pub open spec fn spec_is_key_pair_pem(pair: KeyPairPem, der: Seq<u8>) -> bool {
    &&& spec_modulus_bits(der) == KEY_BITS
    &&& pair.private_pem@ == spec_pem_text(spec_private_key_tag(), der, true)
    &&& pair.public_pem@ == spec_pem_text(spec_public_key_tag(), spec_public_key_der(der), true)
    &&& spec_public_key_der(der).len() > 0
}

/// Generates a `KEY_BITS`-bit RSA key pair and encodes the private key and its public half as
/// PKCS#8 PEM blocks with CRLF line endings.
pub fn rsa_keygen() -> (res: Result<KeyPairPem, KeyGenError>)
    ensures
        res matches Ok(pair) && exists|der: Seq<u8>| spec_is_key_pair_pem(pair, der),
        res matches Ok(pair) ==> {
            &&& spec_is_pem_block(pair.private_pem@, spec_private_key_tag(), true)
            &&& spec_is_pem_block(pair.public_pem@, spec_public_key_tag(), true)
        },
{
    match generate_private_key(KEY_BITS) {
        Err(_) => Err(KeyGenError::Generation),
        Ok(private_key) => {
            let public_key = public_key_of(&private_key);
            let private_pem = private_key_pem(&private_key, KEY_LINE_ENDING);
            let public_pem = public_key_pem(&public_key, KEY_LINE_ENDING);
            let res = key_pair_from_encodings(private_pem, public_pem);
            proof {
                reveal_strlit("PRIVATE KEY");
                reveal_strlit("PUBLIC KEY");
                lemma_read_back_pem_contents(spec_private_key_tag(), private_key.der(), true);
                lemma_read_back_pem_contents(spec_public_key_tag(), public_key.der(), true);
                let pair = res->Ok_0;
                assert(spec_is_key_pair_pem(pair, private_key.der()));
            }
            res
        },
    }
}

} // verus!

verus! {

/// What `rsa_keygen` hands out as the public key reads back, through `read_pubkey`, as the
/// base64 of the public key's PKCS#8 DER: a non-empty text of base64 characters.
pub proof fn lemma_public_key_reads_back(pair: KeyPairPem, der: Seq<u8>)
    requires
        spec_is_key_pair_pem(pair, der),
    ensures
        spec_pem_body(pair.public_pem@) == spec_base64(spec_public_key_der(der)),
        spec_pem_body(pair.public_pem@).len() > 0,
        forall|k: int|
            0 <= k < spec_pem_body(pair.public_pem@).len() ==> spec_is_base64_char(
                #[trigger] spec_pem_body(pair.public_pem@)[k],
            ),
{
    reveal_strlit("PUBLIC KEY");
    lemma_read_back_pem_contents(spec_public_key_tag(), spec_public_key_der(der), true);
    lemma_base64_chars(spec_public_key_der(der));
}

} // verus!
