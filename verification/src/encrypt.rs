//! The encryption handshake of a login: the request, the check of the
//! client's answer, and the hash that names the session.

use crate::login::clientbound::EncryptionRequest;
use crate::login::serverbound::EncryptionResponse;
use crate::mc_types::{append_bytes, be_value, lemma_be_value_bound, pow256};
use rsa::pkcs8::EncodePublicKey;
use sha1::Digest;
use vstd::prelude::*;
use vstd::string::{StringExecFns, StringSliceAdditionalSpecFns};

verus! {

/// The number of bytes of a verify token.
pub const VERIFY_TOKEN_LENGTH: usize = 4;

/// Why the client's answer to an encryption request is refused.
#[derive(Debug, Copy, Clone, PartialEq, Eq, Structural)]
pub enum EncryptionError {
    /// One of the two fields could not be decrypted with the proxy's key.
    DecryptionFailed,
    /// The token that came back is not the one that was sent.
    EncryptionMismatch,
}

/// The SHA-1 digest of `data`.
pub uninterp spec fn sha1(data: Seq<u8>) -> Seq<u8>;

/// What `RsaPrivateKey::decrypt` of `rsa`, with the padding
/// `Pkcs1v15Encrypt`, makes of a cipher text: the plain text, or nothing
/// where the crate refuses the cipher text.
pub uninterp spec fn rsa_plain(key: rsa::RsaPrivateKey, ciphertext: Seq<u8>) -> Option<Seq<u8>>;

/// The DER document that `EncodePublicKey::to_public_key_der` of `rsa`
/// writes for the public half of a key, or nothing where the crate cannot
/// encode it.
pub uninterp spec fn rsa_public_der(key: rsa::RsaPrivateKey) -> Option<Seq<u8>>;

/// `RsaPrivateKey::decrypt` of `rsa` with the padding `Pkcs1v15Encrypt`.
/// The call hands no random source on, so the crate does not blind, and
/// what comes back is a function of the key and the cipher text alone.
#[verifier::external_body]
fn rsa_decrypt(private_key: &rsa::RsaPrivateKey, ciphertext: &Vec<u8>) -> (plain: Option<Vec<u8>>)
    ensures
        match plain {
            Some(bytes) => rsa_plain(*private_key, ciphertext@) == Some(bytes@),
            None => rsa_plain(*private_key, ciphertext@) is None,
        },
{
    match private_key.decrypt(rsa::Pkcs1v15Encrypt, ciphertext) {
        Ok(plain) => Some(plain),
        Err(_) => None,
    }
}

/// `RsaPrivateKey::to_public_key` and `EncodePublicKey::to_public_key_der`
/// of `rsa`: the public key as a DER document, or nothing where the crate
/// cannot encode it. The document is built from the modulus and the
/// exponent, so it is a function of the key alone.
#[verifier::external_body]
fn public_key_der(private_key: &rsa::RsaPrivateKey) -> (der: Option<Vec<u8>>)
    ensures
        match der {
            Some(bytes) => rsa_public_der(*private_key) == Some(bytes@),
            None => rsa_public_der(*private_key) is None,
        },
{
    match private_key.to_public_key().to_public_key_der() {
        Ok(document) => Some(document.into_vec()),
        Err(_) => None,
    }
}

/// `rand::random` for one byte. Which byte comes is up to chance.
#[verifier::external_body]
fn random_byte() -> (byte: u8) {
    rand::random::<u8>()
}

/// `Digest::digest` of `sha1`'s `Sha1`: the digest of the data, 20 bytes.
#[verifier::external_body]
fn sha1_digest(data: &Vec<u8>) -> (digest: Vec<u8>)
    ensures
        digest@ == sha1(data@),
        digest@.len() == 20,
{
    sha1::Sha1::digest(data).to_vec()
}

/// A fresh verify token: four bytes picked at random.
pub fn generate_verify_token() -> (token: Vec<u8>)
    ensures
        token@.len() == VERIFY_TOKEN_LENGTH,
{
    let mut token: Vec<u8> = Vec::new();
    let mut i: usize = 0;
    while i < VERIFY_TOKEN_LENGTH
        invariant
            i <= VERIFY_TOKEN_LENGTH,
            token@.len() == i,
        decreases VERIFY_TOKEN_LENGTH - i,
    {
        token.push(random_byte());
        i = i + 1;
    }
    token
}

/// The encryption request that carries the given public key and token.
/// The server id is empty.
pub fn encryption_request(public_key: Vec<u8>, verify_token: Vec<u8>) -> (r: EncryptionRequest)
    ensures
        r.server_id@ == Seq::<char>::empty(),
        r.public_key == public_key,
        r.verify_token == verify_token,
{
    EncryptionRequest { server_id: String::new(), public_key, verify_token }
}

/// An encryption request for the proxy's key with a fresh verify token,
/// or nothing where the key cannot be encoded. The request carries an
/// empty server id, the DER document of the public key, and a token of
/// four bytes.
pub fn create_encryption_request(private_key: &rsa::RsaPrivateKey) -> (r: Option<EncryptionRequest>)
    ensures
        match r {
            Some(request) => request.server_id@ == Seq::<char>::empty()
                && request.verify_token@.len() == VERIFY_TOKEN_LENGTH && rsa_public_der(
                *private_key,
            ) == Some(request.public_key@),
            None => rsa_public_der(*private_key) is None,
        },
{
    match public_key_der(private_key) {
        Some(public_key) => Some(encryption_request(public_key, generate_verify_token())),
        None => None,
    }
}

/// Whether two byte strings are the same.
pub fn same_bytes(a: &Vec<u8>, b: &Vec<u8>) -> (r: bool)
    ensures
        r == (a@ == b@),
{
    if a.len() != b.len() {
        return false;
    }
    let mut i: usize = 0;
    while i < a.len()
        invariant
            i <= a@.len(),
            a@.len() == b@.len(),
            a@.take(i as int) == b@.take(i as int),
        decreases a@.len() - i,
    {
        if a[i] != b[i] {
            proof {
                assert(a@[i as int] != b@[i as int]);
            }
            return false;
        }
        i = i + 1;
        proof {
            assert(a@.take(i as int) =~= a@.take(i - 1).push(a@[i - 1]));
            assert(b@.take(i as int) =~= b@.take(i - 1).push(b@[i - 1]));
        }
    }
    proof {
        assert(a@.take(a@.len() as int) =~= a@);
        assert(b@.take(b@.len() as int) =~= b@);
    }
    true
}

/// What the decrypted answer of the client comes to: the shared secret,
/// where both fields could be decrypted and the token is the one that
/// was issued.
pub open spec fn spec_check_encryption_response(
    issued_token: Seq<u8>,
    shared_secret: Option<Vec<u8>>,
    verify_token: Option<Vec<u8>>,
) -> Result<Seq<u8>, EncryptionError> {
    match (shared_secret, verify_token) {
        (Some(secret), Some(token)) => if token@ == issued_token {
            Ok(secret@)
        } else {
            Err(EncryptionError::EncryptionMismatch)
        },
        _ => Err(EncryptionError::DecryptionFailed),
    }
}

/// Checks the decrypted answer of the client against the token that was
/// issued.
pub fn check_encryption_response(
    issued_token: &Vec<u8>,
    shared_secret: Option<Vec<u8>>,
    verify_token: Option<Vec<u8>>,
) -> (r: Result<Vec<u8>, EncryptionError>)
    ensures
        match r {
            Ok(secret) => spec_check_encryption_response(
                issued_token@,
                shared_secret,
                verify_token,
            ) == Ok::<Seq<u8>, EncryptionError>(secret@),
            Err(e) => spec_check_encryption_response(issued_token@, shared_secret, verify_token)
                == Err::<Seq<u8>, EncryptionError>(e),
        },
{
    let secret = match shared_secret {
        Some(secret) => secret,
        None => {
            return Err(EncryptionError::DecryptionFailed);
        },
    };
    let token = match verify_token {
        Some(token) => token,
        None => {
            return Err(EncryptionError::DecryptionFailed);
        },
    };
    if same_bytes(&token, issued_token) {
        Ok(secret)
    } else {
        Err(EncryptionError::EncryptionMismatch)
    }
}

/// Decrypts the client's answer with the proxy's key and checks it
/// against the token that was issued. Where both fields decrypt and the
/// token is the issued one, what comes back is the shared secret, the key
/// of the cipher on the client's leg.
pub fn handle_encryption_response(
    private_key: &rsa::RsaPrivateKey,
    issued_token: &Vec<u8>,
    response: &EncryptionResponse,
) -> (r: Result<Vec<u8>, EncryptionError>)
    ensures
        match (
            rsa_plain(*private_key, response.shared_secret@),
            rsa_plain(*private_key, response.verify_token@),
        ) {
            (Some(secret), Some(token)) => if token == issued_token@ {
                r matches Ok(s) && s@ == secret
            } else {
                r == Err::<Vec<u8>, EncryptionError>(EncryptionError::EncryptionMismatch)
            },
            _ => r == Err::<Vec<u8>, EncryptionError>(EncryptionError::DecryptionFailed),
        },
{
    let shared_secret = rsa_decrypt(private_key, &response.shared_secret);
    let verify_token = rsa_decrypt(private_key, &response.verify_token);
    check_encryption_response(issued_token, shared_secret, verify_token)
}

/// The character of a digit in base 16, in lower case.
pub open spec fn spec_hex_digit(d: nat) -> char {
    if d == 0 {
        '0'
    } else if d == 1 {
        '1'
    } else if d == 2 {
        '2'
    } else if d == 3 {
        '3'
    } else if d == 4 {
        '4'
    } else if d == 5 {
        '5'
    } else if d == 6 {
        '6'
    } else if d == 7 {
        '7'
    } else if d == 8 {
        '8'
    } else if d == 9 {
        '9'
    } else if d == 10 {
        'a'
    } else if d == 11 {
        'b'
    } else if d == 12 {
        'c'
    } else if d == 13 {
        'd'
    } else if d == 14 {
        'e'
    } else {
        'f'
    }
}

/// The digits of `n` in base 16, without leading zeros.
pub open spec fn spec_hex(n: nat) -> Seq<char>
    decreases n,
{
    if n < 16 {
        seq![spec_hex_digit(n)]
    } else {
        spec_hex(n / 16).push(spec_hex_digit(n % 16))
    }
}

/// Whether a digest, read as a signed number in two's complement, is
/// negative.
pub open spec fn spec_is_negative(digest: Seq<u8>) -> bool {
    digest.len() > 0 && digest[0] >= 128
}

/// A digest read as a signed number in two's complement and written in
/// base 16: a minus sign if it is negative, then the digits of its
/// magnitude without leading zeros.
pub open spec fn spec_signed_hex(digest: Seq<u8>) -> Seq<char> {
    if spec_is_negative(digest) {
        seq!['-'] + spec_hex((pow256(digest.len()) - be_value(digest)) as nat)
    } else {
        spec_hex(be_value(digest))
    }
}

/// The hash that names a session to the session server.
pub open spec fn spec_server_id_hash(
    server_id: Seq<char>,
    shared_secret: Seq<u8>,
    public_key: Seq<u8>,
) -> Seq<char> {
    spec_signed_hex(sha1(vstd::utf8::encode_utf8(server_id) + shared_secret + public_key))
}

proof fn lemma_pow256_positive(n: nat)
    ensures
        pow256(n) > 0,
    decreases n,
{
    if n > 0 {
        lemma_pow256_positive((n - 1) as nat);
    }
}

/// A byte in front of a run counts 256 to the power of the run's length.
proof fn lemma_be_value_front(x: u8, s: Seq<u8>)
    ensures
        be_value(seq![x] + s) == x * pow256(s.len()) + be_value(s),
    decreases s.len(),
{
    let whole = seq![x] + s;
    if s.len() == 0 {
        assert(whole.drop_last() =~= Seq::<u8>::empty());
        assert(be_value(whole.drop_last()) == 0);
        assert(pow256(0) == 1);
        assert(x * 1 == x);
    } else {
        lemma_be_value_front(x, s.drop_last());
        assert(whole.drop_last() =~= seq![x] + s.drop_last());
        assert(whole.last() == s.last());
        let p = pow256(s.drop_last().len()) as int;
        assert(pow256(s.len()) == 256 * p);
        assert(256 * (x * p) == x * (256 * p)) by (nonlinear_arith);
    }
}

/// The text of one digit in base 16.
pub fn hex_digit_text(d: u8) -> (r: &'static str)
    requires
        d < 16,
    ensures
        r@ == seq![spec_hex_digit(d as nat)],
{
    proof {
        reveal_strlit("0");
        reveal_strlit("1");
        reveal_strlit("2");
        reveal_strlit("3");
        reveal_strlit("4");
        reveal_strlit("5");
        reveal_strlit("6");
        reveal_strlit("7");
        reveal_strlit("8");
        reveal_strlit("9");
        reveal_strlit("a");
        reveal_strlit("b");
        reveal_strlit("c");
        reveal_strlit("d");
        reveal_strlit("e");
        reveal_strlit("f");
    }
    let r = if d == 0 {
        "0"
    } else if d == 1 {
        "1"
    } else if d == 2 {
        "2"
    } else if d == 3 {
        "3"
    } else if d == 4 {
        "4"
    } else if d == 5 {
        "5"
    } else if d == 6 {
        "6"
    } else if d == 7 {
        "7"
    } else if d == 8 {
        "8"
    } else if d == 9 {
        "9"
    } else if d == 10 {
        "a"
    } else if d == 11 {
        "b"
    } else if d == 12 {
        "c"
    } else if d == 13 {
        "d"
    } else if d == 14 {
        "e"
    } else {
        "f"
    };
    proof {
        assert(r@ =~= seq![spec_hex_digit(d as nat)]);
    }
    r
}

/// Whether `text` holds the digits of `v`, where no digit is written yet
/// for 0.
spec fn holds_digits(text: Seq<char>, v: nat) -> bool {
    if v == 0 {
        text == Seq::<char>::empty()
    } else {
        text == spec_hex(v)
    }
}

fn push_hex_digit(text: &mut String, d: u8, Ghost(v): Ghost<nat>)
    requires
        d < 16,
        holds_digits(old(text)@, v),
    ensures
        holds_digits(final(text)@, (16 * v + d) as nat),
{
    if d == 0 && text.as_str().is_empty() {
        return;
    }
    let ghost before = text@;
    text.append(hex_digit_text(d));
    proof {
        let next = 16 * v + d;
        if v == 0 {
            assert(text@ =~= seq![spec_hex_digit(d as nat)]);
        } else {
            assert(next / 16 == v);
            assert(next % 16 == d);
            assert(text@ =~= spec_hex(v).push(spec_hex_digit(d as nat)));
        }
    }
}

/// Writes the number that `bytes` spell, most significant byte first, in
/// base 16.
pub fn hex(bytes: &Vec<u8>) -> (r: String)
    ensures
        r@ == spec_hex(be_value(bytes@)),
{
    let mut text = String::new();
    let mut i: usize = 0;
    proof {
        assert(bytes@.take(0) =~= Seq::<u8>::empty());
    }
    while i < bytes.len()
        invariant
            i <= bytes@.len(),
            holds_digits(text@, be_value(bytes@.take(i as int))),
        decreases bytes@.len() - i,
    {
        let b: u8 = bytes[i];
        let ghost v = be_value(bytes@.take(i as int));
        proof {
            assert(bytes@.take(i + 1).drop_last() =~= bytes@.take(i as int));
            assert(bytes@.take(i + 1).last() == b);
            assert(be_value(bytes@.take(i + 1)) == 16 * (16 * v + b / 16) + b % 16);
        }
        push_hex_digit(&mut text, b / 16, Ghost(v));
        push_hex_digit(&mut text, b % 16, Ghost((16 * v + b / 16) as nat));
        i = i + 1;
    }
    proof {
        assert(bytes@.take(bytes@.len() as int) =~= bytes@);
    }
    if text.as_str().is_empty() {
        text.append(hex_digit_text(0));
        proof {
            assert(text@ =~= seq![spec_hex_digit(0)]);
        }
    }
    text
}

/// The two's complement of `bytes`: the bytes of 256 to the power of
/// their number, less the number that they spell.
fn negate(bytes: &Vec<u8>) -> (r: Vec<u8>)
    requires
        be_value(bytes@) > 0,
    ensures
        r@.len() == bytes@.len(),
        be_value(r@) == pow256(bytes@.len()) - be_value(bytes@),
{
    let mut out: Vec<u8> = bytes.clone();
    let mut carry: u16 = 1;
    let mut i: usize = bytes.len();
    proof {
        assert(out@.skip(i as int) =~= Seq::<u8>::empty());
        assert(bytes@.skip(i as int) =~= Seq::<u8>::empty());
        assert(pow256(0) == 1);
    }
    while i > 0
        invariant
            i <= bytes@.len(),
            out@.len() == bytes@.len(),
            carry <= 1,
            be_value(out@.skip(i as int)) + carry * pow256((bytes@.len() - i) as nat) == pow256(
                (bytes@.len() - i) as nat,
            ) - be_value(bytes@.skip(i as int)),
        decreases i,
    {
        let ghost old_out = out@;
        let ghost k = (bytes@.len() - i) as nat;
        i = i - 1;
        let b: u8 = bytes[i];
        let t: u16 = 255 - b as u16 + carry;
        let x: u8 = (t % 256) as u8;
        out.set(i, x);
        proof {
            let p = pow256(k) as int;
            let s = be_value(bytes@.skip(i + 1)) as int;
            let o = be_value(old_out.skip(i + 1)) as int;
            assert(out@.skip(i + 1) =~= old_out.skip(i + 1));
            assert(out@.skip(i as int) =~= seq![x] + out@.skip(i + 1));
            assert(bytes@.skip(i as int) =~= seq![b] + bytes@.skip(i + 1));
            lemma_be_value_front(x, out@.skip(i + 1));
            lemma_be_value_front(b, bytes@.skip(i + 1));
            assert(pow256((k + 1) as nat) == 256 * p);
            let c = carry as int;
            let c2 = (t / 256) as int;
            assert(x * p + o + c2 * (256 * p) == 256 * p - (b * p + s)) by (nonlinear_arith)
                requires
                    o + c * p == p - s,
                    x + 256 * c2 == 255 - b + c,
            ;
        }
        carry = t / 256;
    }
    proof {
        assert(out@.skip(0) =~= out@);
        assert(bytes@.skip(0) =~= bytes@);
        lemma_be_value_bound(out@);
        let p = pow256(bytes@.len()) as int;
        assert(carry * p == 0 || carry * p == p) by (nonlinear_arith)
            requires
                carry == 0 || carry == 1,
        ;
    }
    out
}

/// Writes a digest as a signed number in base 16.
pub fn signed_hex(digest: &Vec<u8>) -> (r: String)
    ensures
        r@ == spec_signed_hex(digest@),
{
    if digest.len() > 0 && digest[0] >= 128 {
        proof {
            reveal_strlit("-");
            assert(digest@ =~= seq![digest@[0]] + digest@.skip(1));
            lemma_be_value_front(digest@[0], digest@.skip(1));
            lemma_pow256_positive(digest@.skip(1).len());
            assert(digest@[0] * pow256(digest@.skip(1).len()) > 0) by (nonlinear_arith)
                requires
                    digest@[0] >= 128,
                    pow256(digest@.skip(1).len()) > 0,
            ;
        }
        let magnitude = negate(digest);
        let mut text = String::from_str("-");
        text.append(hex(&magnitude).as_str());
        proof {
            assert("-"@ =~= seq!['-']);
            assert(text@ =~= spec_signed_hex(digest@));
        }
        text
    } else {
        hex(digest)
    }
}

/// The hash that names a session to the session server: the SHA-1 digest
/// of the server id, the shared secret and the public key, in this order,
/// written as a signed number in base 16.
pub fn server_id_hash(server_id: &str, shared_secret: &Vec<u8>, public_key: &Vec<u8>) -> (r: String)
    ensures
        r@ == spec_server_id_hash(server_id@, shared_secret@, public_key@),
{
    let mut data: Vec<u8> = Vec::new();
    append_bytes(&mut data, server_id.as_bytes());
    append_bytes(&mut data, shared_secret.as_slice());
    append_bytes(&mut data, public_key.as_slice());
    proof {
        assert(data@ =~= vstd::utf8::encode_utf8(server_id@) + shared_secret@ + public_key@);
    }
    let digest = sha1_digest(&data);
    signed_hex(&digest)
}

} // verus!
