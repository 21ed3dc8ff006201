use poseidon_branch::cipher::{
    CipherError, DOMAIN_WORD, PoseidonCipher, SecretPoint, ENCRYPTED_DATA_SIZE, MESSAGE_CAPACITY,
};
use poseidon_branch::hades::permute;
use poseidon_branch::scalar::Scalar;

fn s(n: u64) -> Scalar {
    Scalar::from_u64(n)
}

fn secret() -> SecretPoint {
    SecretPoint { x: s(0x1234_5678), y: s(987_654_321) }
}

#[test]
fn scalar_from_u64_is_little_endian() {
    let b = s(0x0102).to_bytes();
    assert_eq!(b[0], 0x02);
    assert_eq!(b[1], 0x01);
    assert!(b[2..].iter().all(|x| *x == 0));
}

#[test]
fn scalar_add_and_sub() {
    assert_eq!(s(2).add(&s(3)), s(5));
    assert_eq!(s(5).sub(&s(3)), s(2));
    // 0 - 1 is the modulus minus one
    let minus_one = Scalar::zero().sub(&s(1));
    let b = minus_one.to_bytes();
    assert_eq!(b[0], 0x00);
    assert_eq!(b[31], 0x73);
    assert_eq!(minus_one.add(&s(1)), Scalar::zero());
}

#[test]
fn scalar_from_bytes_rejects_modulus() {
    let mut m = [0u8; 32];
    m[..8].copy_from_slice(&0xffff_ffff_0000_0001u64.to_le_bytes());
    m[8..16].copy_from_slice(&0x53bd_a402_fffe_5bfeu64.to_le_bytes());
    m[16..24].copy_from_slice(&0x3339_d808_09a1_d805u64.to_le_bytes());
    m[24..].copy_from_slice(&0x73ed_a753_299d_7d48u64.to_le_bytes());
    assert!(Scalar::from_bytes(&m).is_none());
    m[0] = 0x00;
    let below = Scalar::from_bytes(&m).expect("modulus minus one is canonical");
    assert_eq!(below.to_bytes(), m);
    assert!(Scalar::from_bytes(&[0xff; 32]).is_none());
}

#[test]
fn encrypt_decrypt_round_trip() {
    let message = [s(77), s(10)];
    let nonce = s(42);
    let c = PoseidonCipher::encrypt(&message, &secret(), &nonce);
    assert_ne!(c.cipher()[0], message[0]);
    assert_ne!(c.cipher()[1], message[1]);
    assert_eq!(c.decrypt(&secret(), &nonce), Ok(message));
}

#[test]
fn short_message_is_padded_with_zero() {
    let nonce = s(3);
    let one = PoseidonCipher::encrypt(&[s(5)], &secret(), &nonce);
    assert_eq!(one.decrypt(&secret(), &nonce), Ok([s(5), Scalar::zero()]));
    let none = PoseidonCipher::encrypt(&[], &secret(), &nonce);
    assert_eq!(none.decrypt(&secret(), &nonce), Ok([Scalar::zero(); MESSAGE_CAPACITY]));
    let padded = PoseidonCipher::encrypt(&[s(5), Scalar::zero()], &secret(), &nonce);
    assert_eq!(one.to_bytes(), padded.to_bytes());
}

#[test]
fn encryption_is_deterministic() {
    let m = [s(1), s(2)];
    let a = PoseidonCipher::encrypt(&m, &secret(), &s(9));
    let b = PoseidonCipher::encrypt(&m, &secret(), &s(9));
    assert_eq!(a.to_bytes(), b.to_bytes());
    let c = PoseidonCipher::encrypt(&m, &secret(), &s(10));
    assert_ne!(a.to_bytes(), c.to_bytes());
}

#[test]
fn wrong_nonce_or_secret_fails() {
    let m = [s(1), s(2)];
    let c = PoseidonCipher::encrypt(&m, &secret(), &s(9));
    assert_eq!(c.decrypt(&secret(), &s(8)), Err(CipherError::DecryptionFailed));
    let other = SecretPoint { x: s(1), y: s(2) };
    assert_eq!(c.decrypt(&other, &s(9)), Err(CipherError::DecryptionFailed));
}

#[test]
fn flipped_bits_fail_decryption() {
    let nonce = s(0xdead_beef);
    let keys = [secret(), SecretPoint { x: s(3), y: s(4) }];
    for (k, key) in keys.iter().enumerate() {
        let c = PoseidonCipher::encrypt(&[s(11), s(12)], key, &nonce);
        let bytes = c.to_bytes();
        let mut pos: usize = 7 + k;
        for _ in 0..40 {
            pos = (pos * 37 + 11) % (ENCRYPTED_DATA_SIZE * 8);
            let mut t = bytes;
            t[pos / 8] ^= 1 << (pos % 8);
            match PoseidonCipher::from_bytes(&t) {
                Ok(tampered) => assert_eq!(
                    tampered.decrypt(key, &nonce),
                    Err(CipherError::DecryptionFailed)
                ),
                Err(e) => assert_eq!(e, CipherError::InvalidEncryptedData),
            }
        }
    }
}

#[test]
fn cipher_bytes_round_trip() {
    let c = PoseidonCipher::encrypt(&[s(77), s(10)], &secret(), &s(1));
    let bytes = c.to_bytes();
    assert_eq!(bytes.len(), ENCRYPTED_DATA_SIZE);
    assert_eq!(&bytes[..32], &c.cipher()[0].to_bytes()[..]);
    assert_eq!(&bytes[64..], &c.cipher()[2].to_bytes()[..]);
    let back = PoseidonCipher::from_bytes(&bytes).expect("a serialized cipher reads back");
    assert_eq!(back.cipher(), c.cipher());
    let made = PoseidonCipher::new(*c.cipher());
    assert_eq!(made.to_bytes(), bytes);
}

#[test]
fn cipher_bytes_of_wrong_length_are_rejected() {
    let c = PoseidonCipher::encrypt(&[s(1)], &secret(), &s(1));
    let bytes = c.to_bytes();
    assert_eq!(
        PoseidonCipher::from_bytes(&bytes[..95]).err(),
        Some(CipherError::InvalidEncryptedData)
    );
    let mut longer = bytes.to_vec();
    longer.push(0);
    assert_eq!(
        PoseidonCipher::from_bytes(&longer).err(),
        Some(CipherError::InvalidEncryptedData)
    );
    assert_eq!(PoseidonCipher::from_bytes(&[]).err(), Some(CipherError::InvalidEncryptedData));
}

#[test]
fn cipher_bytes_with_non_canonical_chunk_are_rejected() {
    let c = PoseidonCipher::encrypt(&[s(1)], &secret(), &s(1));
    for chunk in 0..3 {
        let mut bytes = c.to_bytes();
        for b in bytes[chunk * 32..chunk * 32 + 32].iter_mut() {
            *b = 0xff;
        }
        assert_eq!(
            PoseidonCipher::from_bytes(&bytes).err(),
            Some(CipherError::InvalidEncryptedData)
        );
    }
}

#[test]
fn cipher_words_follow_the_keystream() {
    let nonce = s(5);
    let key = secret();
    let mut k = [s(DOMAIN_WORD), s(MESSAGE_CAPACITY as u64), key.x, key.y, nonce];
    permute(&mut k);
    let c = PoseidonCipher::encrypt(&[s(77), s(10)], &key, &nonce);
    assert_eq!(c.cipher()[0], k[1].add(&s(77)));
    assert_eq!(c.cipher()[1], k[2].add(&s(10)));
    let mut t = k;
    t[1] = c.cipher()[0];
    t[2] = c.cipher()[1];
    permute(&mut t);
    assert_eq!(c.cipher()[2], t[1]);
}
