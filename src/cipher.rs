//! Authenticated encryption of up to `MESSAGE_CAPACITY` field elements under
//! a shared secret point and a nonce, built on the Hades permutation.
use crate::hades::{all_wf, hades_permutation, permute, values, WIDTH};
use crate::scalar::{
    fadd, fsub, le_value, lemma_le_value_injective, lemma_sub_add_cancel, modulus, Scalar,
    SCALAR_BYTES,
};
use vstd::prelude::*;

verus! {

/// Maximum number of scalars in a message.
pub const MESSAGE_CAPACITY: usize = 2;

/// Number of scalars in a cipher: the encrypted words and the tag.
pub const CIPHER_SIZE: usize = 3;

/// Bytes of a serialized cipher.
pub const ENCRYPTED_DATA_SIZE: usize = 96;

/// The domain word of the initial state: the largest plaintext length.
pub const DOMAIN_WORD: u64 = 0x1_0000_0000;

/// Errors of deserialization and decryption.
#[derive(Clone, Copy, Debug, PartialEq, Eq, Structural)]
pub enum CipherError {
    /// The bytes are not 96 long, or hold a non-canonical scalar.
    InvalidEncryptedData,
    /// The tag does not match the ciphertext under the secret and nonce.
    DecryptionFailed,
}

/// A shared secret: the affine coordinates of a curve point.
#[derive(Clone, Copy, Debug)]
pub struct SecretPoint {
    pub x: Scalar,
    pub y: Scalar,
}

impl SecretPoint {
    /// Both coordinates are canonical.
    pub open spec fn wf(&self) -> bool {
        self.x.wf() && self.y.wf()
    }
}

/// The state that both directions start from.
pub open spec fn initial_state(sx: nat, sy: nat, nonce: nat) -> Seq<nat> {
    seq![DOMAIN_WORD as nat, MESSAGE_CAPACITY as nat, sx, sy, nonce]
}

/// The permuted initial state, whose words 1 and 2 mask the message.
pub open spec fn keystream(sx: nat, sy: nat, nonce: nat) -> Seq<nat> {
    hades_permutation(initial_state(sx, sy, nonce))
}

/// Word `i` of a message, zero past its end.
pub open spec fn message_word(m: Seq<nat>, i: int) -> nat {
    if 0 <= i < m.len() {
        m[i]
    } else {
        0
    }
}

/// The tag of ciphertext words `c0`, `c1`: the second word of the permuted
/// keystream state in which they replace words 1 and 2.
pub open spec fn tag_of(c0: nat, c1: nat, sx: nat, sy: nat, nonce: nat) -> nat {
    hades_permutation(keystream(sx, sy, nonce).update(1, c0).update(2, c1))[1]
}

/// The cipher words (two encrypted words and the tag) of a message.
pub open spec fn encrypted_words(m: Seq<nat>, sx: nat, sy: nat, nonce: nat) -> Seq<nat> {
    let k = keystream(sx, sy, nonce);
    let c0 = fadd(k[1], message_word(m, 0));
    let c1 = fadd(k[2], message_word(m, 1));
    seq![c0, c1, tag_of(c0, c1, sx, sy, nonce)]
}

/// The message of cipher words `c`, or `None` when the tag does not match.
pub open spec fn decrypted_message(c: Seq<nat>, sx: nat, sy: nat, nonce: nat) -> Option<Seq<nat>> {
    let k = keystream(sx, sy, nonce);
    if c[2] == tag_of(c[0], c[1], sx, sy, nonce) {
        Some(seq![fsub(c[0], k[1]), fsub(c[1], k[2])])
    } else {
        None
    }
}

/// Decrypting the encryption of a message of at most `MESSAGE_CAPACITY`
/// canonical words, under the same secret and nonce, succeeds and gives the
/// message back, padded with zeros to `MESSAGE_CAPACITY` words.
pub proof fn lemma_decrypt_encrypt(m: Seq<nat>, sx: nat, sy: nat, nonce: nat)
    requires
        m.len() <= MESSAGE_CAPACITY,
        forall|i: int| 0 <= i < m.len() ==> m[i] < modulus(),
    ensures
        decrypted_message(encrypted_words(m, sx, sy, nonce), sx, sy, nonce) == Some(
            seq![message_word(m, 0), message_word(m, 1)],
        ),
{
    let k = keystream(sx, sy, nonce);
    lemma_sub_add_cancel(k[1], message_word(m, 0));
    lemma_sub_add_cancel(k[2], message_word(m, 1));
    let c = encrypted_words(m, sx, sy, nonce);
    assert(seq![fsub(c[0], k[1]), fsub(c[1], k[2])] =~= seq![
        message_word(m, 0),
        message_word(m, 1),
    ]);
}

/// The serialized form of a cipher: its three words' encodings in order.
pub open spec fn cipher_bytes(c: PoseidonCipher) -> Seq<u8> {
    c.cipher[0].bytes@ + c.cipher[1].bytes@ + c.cipher[2].bytes@
}

/// The bytes are a serialized cipher: 96 of them, in three canonical
/// 32-byte chunks.
pub open spec fn is_encoding(b: Seq<u8>) -> bool {
    &&& b.len() == ENCRYPTED_DATA_SIZE
    &&& le_value(b.subrange(0, 32)) < modulus()
    &&& le_value(b.subrange(32, 64)) < modulus()
    &&& le_value(b.subrange(64, 96)) < modulus()
}

/// Serializing a well-formed cipher gives a valid encoding, and no other
/// cipher has the same encoding: reading the bytes back gives the cipher.
pub proof fn lemma_bytes_round_trip(c: PoseidonCipher)
    requires
        c.wf(),
    ensures
        is_encoding(cipher_bytes(c)),
        forall|d: PoseidonCipher| #[trigger] cipher_bytes(d) == cipher_bytes(c) ==> d == c,
{
    let b = cipher_bytes(c);
    assert(b.subrange(0, 32) =~= c.cipher[0].bytes@);
    assert(b.subrange(32, 64) =~= c.cipher[1].bytes@);
    assert(b.subrange(64, 96) =~= c.cipher[2].bytes@);
    assert(c.cipher@[0].wf() && c.cipher@[1].wf() && c.cipher@[2].wf());
    assert forall|d: PoseidonCipher| #[trigger] cipher_bytes(d) == cipher_bytes(c) implies d == c by {
        let e = cipher_bytes(d);
        assert(e.subrange(0, 32) =~= d.cipher[0].bytes@);
        assert(e.subrange(32, 64) =~= d.cipher[1].bytes@);
        assert(e.subrange(64, 96) =~= d.cipher[2].bytes@);
        assert forall|i: int| 0 <= i < CIPHER_SIZE implies d.cipher[i] == c.cipher[i] by {
            assert(d.cipher[i].bytes =~= c.cipher[i].bytes);
        }
        assert(d.cipher =~= c.cipher);
    }
}

/// Writes `b` into `out` at `at`, leaving the rest of `out` as it was.
fn write_chunk(out: &mut [u8; ENCRYPTED_DATA_SIZE], at: usize, b: &[u8; 32])
    requires
        at + SCALAR_BYTES <= ENCRYPTED_DATA_SIZE,
    ensures
        final(out)@ == old(out)@.subrange(0, at as int) + b@ + old(out)@.subrange(
            at + SCALAR_BYTES,
            ENCRYPTED_DATA_SIZE as int,
        ),
{
    let ghost start = out@;
    let mut j: usize = 0;
    while j < SCALAR_BYTES
        invariant
            j <= SCALAR_BYTES,
            at + SCALAR_BYTES <= ENCRYPTED_DATA_SIZE,
            forall|k: int| 0 <= k < j ==> out@[at + k] == b@[k],
            forall|k: int|
                0 <= k < ENCRYPTED_DATA_SIZE && !(at <= k < at + j) ==> out@[k] == start[k],
        decreases SCALAR_BYTES - j,
    {
        out[at + j] = b[j];
        j = j + 1;
    }
    assert(out@ =~= start.subrange(0, at as int) + b@ + start.subrange(
        at + SCALAR_BYTES,
        ENCRYPTED_DATA_SIZE as int,
    ));
}

/// The 32 bytes of `b` from `at`.
fn read_chunk(b: &[u8], at: usize) -> (r: [u8; 32])
    requires
        at + SCALAR_BYTES <= b@.len(),
    ensures
        r@ == b@.subrange(at as int, at + SCALAR_BYTES),
{
    let mut r = [0u8; 32];
    let n = b.len();
    let mut j: usize = 0;
    while j < SCALAR_BYTES
        invariant
            j <= SCALAR_BYTES,
            n == b@.len(),
            at + SCALAR_BYTES <= n,
            forall|k: int| 0 <= k < j ==> r@[k] == b@[at + k],
        decreases SCALAR_BYTES - j,
    {
        r[j] = b[at + j];
        j = j + 1;
    }
    assert(r@ =~= b@.subrange(at as int, at + SCALAR_BYTES));
    r
}

/// An encrypted message: two encrypted words followed by the tag.
#[derive(Clone, Copy, Debug)]
pub struct PoseidonCipher {
    pub cipher: [Scalar; CIPHER_SIZE],
}

impl PoseidonCipher {
    /// All three words are canonical.
    pub open spec fn wf(&self) -> bool {
        all_wf(self.cipher@)
    }

    /// The values of the three words.
    pub open spec fn words(&self) -> Seq<nat> {
        values(self.cipher@)
    }

    /// A cipher of the given words.
    pub fn new(cipher: [Scalar; CIPHER_SIZE]) -> (r: PoseidonCipher)
        ensures
            r.cipher == cipher,
    {
        PoseidonCipher { cipher }
    }

    /// The words of the cipher.
    pub fn cipher(&self) -> (r: &[Scalar; CIPHER_SIZE])
        ensures
            *r == self.cipher,
    {
        &self.cipher
    }

    /// The 96-byte serialized form.
    pub fn to_bytes(&self) -> (r: [u8; ENCRYPTED_DATA_SIZE])
        ensures
            r@ == cipher_bytes(*self),
    {
        let mut out = [0u8; ENCRYPTED_DATA_SIZE];
        write_chunk(&mut out, 0, &self.cipher[0].bytes);
        write_chunk(&mut out, 32, &self.cipher[1].bytes);
        write_chunk(&mut out, 64, &self.cipher[2].bytes);
        assert(out@ =~= cipher_bytes(*self));
        out
    }

    /// Reads a cipher from its serialized form; fails with
    /// `InvalidEncryptedData` unless there are exactly 96 bytes in three
    /// canonical chunks.
    pub fn from_bytes(bytes: &[u8]) -> (r: Result<PoseidonCipher, CipherError>)
        ensures
            r is Ok <==> is_encoding(bytes@),
            r is Err ==> r == Err::<PoseidonCipher, CipherError>(
                CipherError::InvalidEncryptedData,
            ),
            r matches Ok(c) ==> c.wf() && cipher_bytes(c) == bytes@,
    {
        if bytes.len() != ENCRYPTED_DATA_SIZE {
            return Err(CipherError::InvalidEncryptedData);
        }
        let w0 = Scalar::from_bytes(&read_chunk(bytes, 0));
        let w1 = Scalar::from_bytes(&read_chunk(bytes, 32));
        let w2 = Scalar::from_bytes(&read_chunk(bytes, 64));
        match (w0, w1, w2) {
            (Some(a), Some(b), Some(c)) => {
                let r = PoseidonCipher { cipher: [a, b, c] };
                assert(cipher_bytes(r) =~= bytes@);
                Ok(r)
            },
            _ => Err(CipherError::InvalidEncryptedData),
        }
    }

    /// The permuted initial state for a secret and a nonce.
    fn keystream_state(secret: &SecretPoint, nonce: &Scalar) -> (r: [Scalar; WIDTH])
        requires
            secret.wf(),
            nonce.wf(),
        ensures
            all_wf(r@),
            values(r@) == keystream(secret.x.value(), secret.y.value(), nonce.value()),
    {
        let mut state = [
            Scalar::from_u64(DOMAIN_WORD),
            Scalar::from_u64(MESSAGE_CAPACITY as u64),
            secret.x,
            secret.y,
            *nonce,
        ];
        assert(values(state@) =~= initial_state(
            secret.x.value(),
            secret.y.value(),
            nonce.value(),
        ));
        permute(&mut state);
        state
    }

    /// Encrypts `message`, of at most `MESSAGE_CAPACITY` words, under
    /// `secret` and `nonce`; missing words count as zero.
    pub fn encrypt(message: &[Scalar], secret: &SecretPoint, nonce: &Scalar) -> (r: PoseidonCipher)
        requires
            message@.len() <= MESSAGE_CAPACITY,
            all_wf(message@),
            secret.wf(),
            nonce.wf(),
        ensures
            r.wf(),
            r.words() == encrypted_words(
                values(message@),
                secret.x.value(),
                secret.y.value(),
                nonce.value(),
            ),
    {
        let ghost k = keystream(secret.x.value(), secret.y.value(), nonce.value());
        let mut state = Self::keystream_state(secret, nonce);
        let zero = Scalar::zero();
        let m0 = if message.len() > 0 { message[0] } else { zero };
        let m1 = if message.len() > 1 { message[1] } else { zero };
        let c0 = state[1].add(&m0);
        let c1 = state[2].add(&m1);
        state[1] = c0;
        state[2] = c1;
        assert(values(state@) =~= k.update(1, c0.value()).update(2, c1.value()));
        permute(&mut state);
        let r = PoseidonCipher { cipher: [c0, c1, state[1]] };
        assert(values(state@)[1] == state@[1].value());
        assert(r.words() =~= encrypted_words(
            values(message@),
            secret.x.value(),
            secret.y.value(),
            nonce.value(),
        ));
        r
    }

    /// Decrypts under `secret` and `nonce`; fails with `DecryptionFailed`
    /// when the tag does not match.
    pub fn decrypt(&self, secret: &SecretPoint, nonce: &Scalar) -> (r: Result<
        [Scalar; MESSAGE_CAPACITY],
        CipherError,
    >)
        requires
            self.wf(),
            secret.wf(),
            nonce.wf(),
        ensures
            r is Ok <==> decrypted_message(
                self.words(),
                secret.x.value(),
                secret.y.value(),
                nonce.value(),
            ) is Some,
            r is Err ==> r == Err::<[Scalar; MESSAGE_CAPACITY], CipherError>(
                CipherError::DecryptionFailed,
            ),
            r matches Ok(m) ==> all_wf(m@) && Some(values(m@)) == decrypted_message(
                self.words(),
                secret.x.value(),
                secret.y.value(),
                nonce.value(),
            ),
    {
        let ghost k = keystream(secret.x.value(), secret.y.value(), nonce.value());
        let mut state = Self::keystream_state(secret, nonce);
        let m0 = self.cipher[0].sub(&state[1]);
        let m1 = self.cipher[1].sub(&state[2]);
        state[1] = self.cipher[0];
        state[2] = self.cipher[1];
        assert(values(state@) =~= k.update(1, self.cipher[0].value()).update(
            2,
            self.cipher[1].value(),
        ));
        permute(&mut state);
        let tag = state[1];
        assert(values(state@)[1] == tag.value());
        if self.cipher[2] == tag {
            let m = [m0, m1];
            assert(values(m@) =~= seq![m0.value(), m1.value()]);
            Ok(m)
        } else {
            proof {
                if self.cipher[2].value() == tag.value() {
                    lemma_le_value_injective(self.cipher[2].bytes@, tag.bytes@);
                }
            }
            Err(CipherError::DecryptionFailed)
        }
    }
}

} // verus!
