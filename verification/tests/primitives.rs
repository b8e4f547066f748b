use snow::cipherstate::{CipherState, CipherStates};
use snow::error::{ErrorKind, InitStage, StateProblem};
use snow::noise::{CryptoResolver, DefaultResolver};
use snow::params::{CipherChoice, DHChoice, HashChoice};
use snow::types::{hkdf, hmac, Cipher, Dh, Random};
use snow::utils::{array32, copy_into, key_buffer, Toggle};
use snow::wrappers::{
    clamp, nonce_bytes_be, nonce_bytes_le, CipherImpl, Dh25519, HashImpl, RandomOs,
};

fn hex(s: &str) -> Vec<u8> {
    (0..s.len() / 2).map(|i| u8::from_str_radix(&s[2 * i..2 * i + 2], 16).unwrap()).collect()
}

#[test]
fn digests_of_abc() {
    let cases = [
        (HashChoice::SHA256, 32, 64, "ba7816bf8f01cfea414140de5dae2223b00361a396177a9cb410ff61f20015ad"),
        (HashChoice::SHA512, 64, 128, "ddaf35a193617abacc417349ae20413112e6fa4e89a97ea20a9eeee64b55d39a2192992a274fc1a836ba3c23a3feebbd454d4423643ce80e2a9ac94fa54ca49f"),
        (HashChoice::Blake2s, 32, 64, "508c5e8c327c14e2e1a72ba34eeb452f37458b209ed63a294d999b4c86675982"),
        (HashChoice::Blake2b, 64, 128, "ba80a53f981c4d0d6a2797b69f12f6e94c212f14685ac4b74b12bb6fdbffa2d17d87c5392aab792dc252d5de4533cc9518d38aa8dbf1925ab92386edd4009923"),
    ];
    for (choice, hash_len, block_len, digest) in cases.iter() {
        let h = HashImpl::new(*choice);
        assert_eq!(snow::types::Hash::choice(&h), *choice);
        assert_eq!(snow::types::Hash::hash_len(&h), *hash_len);
        assert_eq!(snow::types::Hash::block_len(&h), *block_len);
        assert_eq!(snow::types::Hash::hash(&h, b"abc"), hex(digest));
    }
}

#[test]
fn hmac_of_hi_there() {
    let key = [0x0bu8; 20];
    let sha = HashImpl::new(HashChoice::SHA256);
    assert_eq!(
        hmac(&sha, &key, b"Hi There"),
        hex("b0344c61d8db38535ca8afceaf0bf12b881dc200c9833da726e9376c2e32cff7")
    );
    let blake = HashImpl::new(HashChoice::Blake2s);
    assert_eq!(
        hmac(&blake, &key, b"Hi There"),
        hex("65a8b7c5cc9136d424e82c37e2707e74e913c0655b99c75f40edf387453a3260")
    );
}

#[test]
fn hkdf_outputs() {
    let sha = HashImpl::new(HashChoice::SHA256);
    let ck: Vec<u8> = (0u8..32).collect();
    let out1 = "eefa498872da79efac8bbf865ce6c0fdfdf3faceb6800a3f454327d74be28975";
    let out2 = "06c1271fe0169eed67ac1bb3941aa11cacce8cef0240266389c3faefc71acdfa";
    let out3 = "4b9c8bfd987fdc8c013d68129635850f53a78faedba42b8f4e9763ce0e284452";
    let three = hkdf(&sha, &ck, b"ikm", 3);
    assert_eq!(three, (hex(out1), hex(out2), hex(out3)));
    let two = hkdf(&sha, &ck, b"ikm", 2);
    assert_eq!(two, (hex(out1), hex(out2), vec![]));
    let one = hkdf(&sha, &ck, b"ikm", 1);
    assert_eq!(one, (hex(out1), vec![], vec![]));
}

#[test]
fn x25519_of_known_keys() {
    let mut d = Dh25519::new();
    assert_eq!(d.choice(), DHChoice::Curve25519);
    assert_eq!(d.pub_len(), 32);
    assert_eq!(d.priv_len(), 32);
    let scalar = hex("a546e36bf0527c9d3b16154b82465edd62144c0ac1fc5a18506a2244ba449ac4");
    d.set(&scalar);
    assert_eq!(d.privkey(), scalar);
    assert_eq!(
        d.dh(&hex("e6db6867583030db3594c1a424b15f7c726624ec26b3353b10a903a6d0ab1c4c")),
        hex("c3da55379de9c6908e94ea4df28d084f32eccf03491c71f754b4075577a28552")
    );
    d.set(&hex("77076d0a7318a57d3c16c17251b26645df4c2f87ebc0992ab177fba51db92c2a"));
    assert_eq!(
        d.pubkey(),
        hex("8520f0098930a754748b7ddcb43ef75a0dbf3a0d26381af4eba4a98eaa9b4e6a")
    );
}

#[test]
fn x25519_agrees_between_two_parties() {
    let mut rng = RandomOs::new();
    let mut a = Dh25519::new();
    let mut b = Dh25519::new();
    assert!(a.generate(&mut rng));
    assert!(b.generate(&mut rng));
    assert_ne!(a.privkey(), b.privkey());
    assert_eq!(a.dh(&b.pubkey()), b.dh(&a.pubkey()));
    let key = a.privkey();
    assert_eq!(key[0] & 7, 0);
    assert_eq!(key[31] & 0xc0, 0x40);
}

#[test]
fn random_source_fills_the_buffer() {
    let mut rng = RandomOs::new();
    let mut a = vec![0u8; 64];
    let mut b = vec![0u8; 64];
    assert!(rng.fill(&mut a));
    assert!(rng.fill(&mut b));
    assert_eq!(a.len(), 64);
    assert_ne!(a, vec![0u8; 64]);
    assert_ne!(a, b);
}

#[test]
fn nonce_encodings() {
    assert_eq!(nonce_bytes_le(0), vec![0u8; 12]);
    assert_eq!(nonce_bytes_le(5), vec![0, 0, 0, 0, 5, 0, 0, 0, 0, 0, 0, 0]);
    assert_eq!(nonce_bytes_be(5), vec![0, 0, 0, 0, 0, 0, 0, 0, 0, 0, 0, 5]);
    assert_eq!(
        nonce_bytes_le(0x0102030405060708),
        vec![0, 0, 0, 0, 8, 7, 6, 5, 4, 3, 2, 1]
    );
    assert_eq!(
        nonce_bytes_be(0x0102030405060708),
        vec![0, 0, 0, 0, 1, 2, 3, 4, 5, 6, 7, 8]
    );
    assert_eq!(nonce_bytes_le(u64::MAX), vec![0, 0, 0, 0, 255, 255, 255, 255, 255, 255, 255, 255]);
}

#[test]
fn ciphers_of_known_inputs() {
    let key: Vec<u8> = (0u8..32).collect();
    let mut chacha = CipherImpl::new(CipherChoice::ChaChaPoly);
    chacha.set(&key);
    assert_eq!(chacha.choice(), CipherChoice::ChaChaPoly);
    let sealed = chacha.encrypt(5, b"ad", b"plain");
    assert_eq!(sealed, hex("5364f7632b07fcfc4fb47e5021e61cd7a3065ca373"));
    assert_eq!(chacha.decrypt(5, b"ad", &sealed), Ok(b"plain".to_vec()));
    let mut aes = CipherImpl::new(CipherChoice::AESGCM);
    aes.set(&key);
    assert_eq!(aes.choice(), CipherChoice::AESGCM);
    let sealed = aes.encrypt(5, b"ad", b"plain");
    assert_eq!(sealed, hex("e8cda30badef71355bceefd5cc4ac20447f3a1b7ca"));
    assert_eq!(aes.decrypt(5, b"ad", &sealed), Ok(b"plain".to_vec()));
}

#[test]
fn ciphers_refuse_what_was_not_sealed() {
    for choice in [CipherChoice::ChaChaPoly, CipherChoice::AESGCM].iter() {
        let mut c = CipherImpl::new(*choice);
        c.set(&[9u8; 32]);
        let sealed = c.encrypt(1, b"ad", b"some text");
        assert_eq!(sealed.len(), 9 + 16);
        assert_eq!(c.decrypt(2, b"ad", &sealed), Err(()));
        assert_eq!(c.decrypt(1, b"da", &sealed), Err(()));
        assert_eq!(c.decrypt(1, b"ad", &sealed[..10]), Err(()));
        for i in 0..sealed.len() {
            let mut bad = sealed.clone();
            bad[i] ^= 1;
            assert_eq!(c.decrypt(1, b"ad", &bad), Err(()));
        }
        c.set(&[8u8; 32]);
        assert_eq!(c.decrypt(1, b"ad", &sealed), Err(()));
    }
}

#[test]
fn cipher_state_counts_and_fails_without_moving() {
    let mut c = CipherState::new(CipherImpl::new(CipherChoice::ChaChaPoly));
    assert!(!c.has_key());
    assert_eq!(c.encrypt(b"x"), Err(ErrorKind::State(StateProblem::MissingKeyMaterial)));
    assert_eq!(c.decrypt(&[0u8; 16]), Err(ErrorKind::State(StateProblem::MissingKeyMaterial)));
    let key: Vec<u8> = (0u8..32).collect();
    c.set(&key);
    assert!(c.has_key());
    assert_eq!(c.nonce(), 0);
    let first = c.encrypt_ad(b"ad", b"plain").unwrap();
    assert_eq!(c.nonce(), 1);
    let mut peer = CipherState::new(CipherImpl::new(CipherChoice::ChaChaPoly));
    peer.set(&key);
    let mut bad = first.clone();
    bad[0] ^= 0x80;
    assert_eq!(peer.decrypt_ad(b"ad", &bad), Err(ErrorKind::Decrypt));
    assert_eq!(peer.nonce(), 0);
    assert_eq!(peer.decrypt_ad(b"ad", &first[..15]), Err(ErrorKind::Input));
    assert_eq!(peer.nonce(), 0);
    assert_eq!(peer.decrypt_ad(b"ad", &first), Ok(b"plain".to_vec()));
    assert_eq!(peer.nonce(), 1);
    assert_eq!(peer.decrypt_ad(b"ad", &first), Err(ErrorKind::Decrypt));
    assert_eq!(peer.nonce(), 1);
    // The counter of the fifth message is five.
    for _ in 1..5 {
        c.encrypt_ad(b"ad", b"plain").unwrap();
    }
    assert_eq!(c.nonce(), 5);
    assert_eq!(
        c.encrypt_ad(b"ad", b"plain").unwrap(),
        vec![0x53, 0x64, 0xf7, 0x63, 0x2b, 0x07, 0xfc, 0xfc, 0x4f, 0xb4, 0x7e, 0x50, 0x21, 0xe6, 0x1c, 0xd7, 0xa3, 0x06, 0x5c, 0xa3, 0x73]
    );
    c.set(&key);
    assert_eq!(c.nonce(), 0);
}

#[test]
fn cipher_state_refuses_long_texts_and_an_exhausted_counter() {
    let mut c = CipherState::new(CipherImpl::new(CipherChoice::AESGCM));
    c.set(&[1u8; 32]);
    let long = vec![0u8; 65535 - 16 + 1];
    assert_eq!(c.encrypt(&long), Err(ErrorKind::Input));
    assert_eq!(c.nonce(), 0);
    let fits = vec![0u8; 65535 - 16];
    let sealed = c.encrypt(&fits).unwrap();
    assert_eq!(sealed.len(), 65535);
    assert_eq!(c.decrypt(&vec![0u8; 65536]), Err(ErrorKind::Input));
    let saved = c.snapshot();
    assert_eq!(saved.1, 1);
    c.restore((saved.0.clone(), u64::MAX));
    assert_eq!(c.nonce(), u64::MAX);
    assert_eq!(c.encrypt(b"x"), Err(ErrorKind::State(StateProblem::Exhausted)));
    assert_eq!(c.decrypt(&sealed), Err(ErrorKind::State(StateProblem::Exhausted)));
    assert_eq!(c.nonce(), u64::MAX);
    c.restore((saved.0, 0));
    assert_eq!(c.decrypt(&sealed), Ok(fits));
    c.restore((None, 3));
    assert!(!c.has_key());
}

#[test]
fn cipher_states_must_be_of_one_algorithm() {
    let a = CipherState::new(CipherImpl::new(CipherChoice::AESGCM));
    let b = CipherState::new(CipherImpl::new(CipherChoice::ChaChaPoly));
    assert_eq!(
        CipherStates::new(a, b).err(),
        Some(ErrorKind::Init(InitStage::ValidateCipherTypes))
    );
    let a = CipherState::new(CipherImpl::new(CipherChoice::AESGCM));
    let b = CipherState::new(CipherImpl::new(CipherChoice::AESGCM));
    let pair = CipherStates::new(a, b).ok().unwrap();
    assert_eq!(pair.0.choice(), CipherChoice::AESGCM);
    assert_eq!(pair.1.choice(), CipherChoice::AESGCM);
}

#[test]
fn default_resolver_serves_all_but_one_key_agreement() {
    let r = DefaultResolver;
    assert!(r.resolve_rng().is_some());
    assert!(r.resolve_dh(&DHChoice::Curve25519).is_some());
    assert!(r.resolve_dh(&DHChoice::Ed448).is_none());
    for h in [HashChoice::SHA256, HashChoice::SHA512, HashChoice::Blake2s, HashChoice::Blake2b].iter() {
        assert_eq!(snow::types::Hash::choice(&r.resolve_hash(h).unwrap()), *h);
    }
    for c in [CipherChoice::ChaChaPoly, CipherChoice::AESGCM].iter() {
        assert_eq!(r.resolve_cipher(c).unwrap().choice(), *c);
    }
}

#[test]
fn toggles_and_buffers() {
    let mut t = Toggle::off(7u8);
    assert!(!t.is_on());
    t.enable();
    assert!(t.is_on());
    assert_eq!(t.inner, 7);
    assert!(Toggle::on(1u8).is_on());
    let mut dst = [9u8; 5];
    copy_into(&mut dst, &[1, 2, 3]);
    assert_eq!(dst, [1, 2, 3, 9, 9]);
    let buf = key_buffer(&[4u8; 32]);
    assert_eq!(buf.len(), 56);
    assert_eq!(&buf[..32], &[4u8; 32]);
    assert_eq!(&buf[32..], &[0u8; 24]);
    let bytes: Vec<u8> = (0u8..32).collect();
    assert_eq!(array32(&bytes).to_vec(), bytes);
}

#[test]
fn a_new_key_agreement_holds_the_zero_key() {
    let d = Dh25519::new();
    assert_eq!(d.privkey(), vec![0u8; 32]);
}

#[test]
fn clamping_clears_and_sets_the_bits_of_a_private_key() {
    let ones = [0xffu8; 32];
    let mut expected = [0xffu8; 32];
    expected[0] = 0xf8;
    expected[31] = 0x7f;
    assert_eq!(clamp(&ones), expected);
    let zeros = [0u8; 32];
    let mut expected = [0u8; 32];
    expected[31] = 0x40;
    assert_eq!(clamp(&zeros), expected);
    let counting: Vec<u8> = (1u8..33).collect();
    let mut expected = counting.clone();
    expected[0] = 0;
    expected[31] = 0x60;
    assert_eq!(clamp(&counting).to_vec(), expected);
    assert_eq!(clamp(&clamp(&counting)), clamp(&counting));
}

#[test]
fn parsing_through_the_trait_is_parsing() {
    let a: snow::params::NoiseParams = "Noise_XXpsk3_25519_AESGCM_SHA512".parse().unwrap();
    let b = snow::params::NoiseParams::parse("Noise_XXpsk3_25519_AESGCM_SHA512").unwrap();
    assert_eq!(a.name, b.name);
    assert_eq!(a.handshake.pattern, b.handshake.pattern);
    assert_eq!(a.handshake.modifiers.list, b.handshake.modifiers.list);
    assert_eq!((a.dh, a.cipher, a.hash), (b.dh, b.cipher, b.hash));
    let bad: Result<snow::params::NoiseParams, ErrorKind> = "Noise_XX_25519_AESGCM".parse();
    assert_eq!(
        bad.err(),
        Some(ErrorKind::Pattern(snow::error::PatternProblem::WrongFieldCount))
    );
}
