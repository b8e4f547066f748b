use snow::error::{ErrorKind, StateProblem};
use snow::noise::NoiseBuilder;
use snow::params::NoiseParams;
use snow::patterns::HandshakePattern;
use snow::session::Session;
use snow::types::Dh;
use snow::wrappers::{CipherImpl, Dh25519, HashImpl, RandomOs};

type Party = Session<RandomOs, Dh25519, HashImpl, CipherImpl>;

fn hex(s: &str) -> Vec<u8> {
    (0..s.len() / 2).map(|i| u8::from_str_radix(&s[2 * i..2 * i + 2], 16).unwrap()).collect()
}

fn public_of(private: &[u8]) -> Vec<u8> {
    let mut d = Dh25519::new();
    d.set(private);
    d.pubkey()
}

fn hash_of(p: &Party) -> Vec<u8> {
    match p {
        Session::Handshake(state) => state.handshake_hash(),
        Session::Transport(_) => panic!("the handshake is over"),
    }
}

struct Keys {
    si: Vec<u8>,
    sr: Vec<u8>,
    ei: Vec<u8>,
    er: Vec<u8>,
    pub_si: Vec<u8>,
    pub_sr: Vec<u8>,
}

fn fixed_keys() -> Keys {
    let si: Vec<u8> = (1u8..33).collect();
    let sr: Vec<u8> = (33u8..65).collect();
    let ei: Vec<u8> = (65u8..97).collect();
    let er: Vec<u8> = (97u8..129).collect();
    let pub_si = public_of(&si);
    let pub_sr = public_of(&sr);
    Keys { si, sr, ei, er, pub_si, pub_sr }
}

fn pair<'a>(name: &str, prologue: &'a [u8], keys: &'a Keys, psk: Option<(u8, &'a [u8])>) -> (Party, Party) {
    let params: NoiseParams = name.parse().unwrap();
    let pattern = params.handshake.pattern;
    let mut i = NoiseBuilder::new(params)
        .prologue(prologue)
        .local_private_key(&keys.si)
        .fixed_ephemeral_key_for_testing_only(&keys.ei);
    let mut r = NoiseBuilder::new(name.parse().unwrap())
        .prologue(prologue)
        .local_private_key(&keys.sr)
        .fixed_ephemeral_key_for_testing_only(&keys.er);
    if pattern.need_known_remote_pubkey(true) {
        i = i.remote_public_key(&keys.pub_sr);
    }
    if pattern.need_known_remote_pubkey(false) {
        r = r.remote_public_key(&keys.pub_si);
    }
    if let Some((slot, key)) = psk {
        i = i.psk(slot, key);
        r = r.psk(slot, key);
    }
    (i.build_initiator().unwrap(), r.build_responder().unwrap())
}

fn check_vector(
    name: &str,
    prologue: &[u8],
    payloads: &[&[u8]],
    psk: Option<(u8, &[u8])>,
    messages: &[&str],
    hash: &str,
    i2r: &str,
    r2i: Option<&str>,
) {
    let keys = fixed_keys();
    assert_eq!(keys.pub_si, hex("07a37cbc142093c8b755dc1b10e86cb426374ad16aa853ed0bdfc0b2b86d1c7c"));
    assert_eq!(keys.pub_sr, hex("5869aff450549732cbaaed5e5df9b30a6da31cb0e5742bad5ad4a1a768f1a67b"));
    let (mut i, mut r) = pair(name, prologue, &keys, psk);
    let mut wire = [0u8; 1024];
    let mut plain = [0u8; 1024];
    for n in 0..messages.len() {
        let (w, rd) = if n % 2 == 0 { (&mut i, &mut r) } else { (&mut r, &mut i) };
        assert!(!w.is_handshake_finished());
        let len = w.write_message(payloads[n], &mut wire).unwrap();
        assert_eq!(&wire[..len], &hex(messages[n])[..], "message {} of {}", n, name);
        let got = rd.read_message(&wire[..len], &mut plain).unwrap();
        assert_eq!(&plain[..got], payloads[n]);
    }
    assert!(i.is_handshake_finished());
    assert!(r.is_handshake_finished());
    assert_eq!(hash_of(&i), hex(hash));
    assert_eq!(hash_of(&r), hex(hash));
    let mut i = i.into_transport_mode().ok().unwrap();
    let mut r = r.into_transport_mode().ok().unwrap();
    let len = i.write_message(b"transport", &mut wire).unwrap();
    assert_eq!(&wire[..len], &hex(i2r)[..]);
    let got = r.read_message(&wire[..len], &mut plain).unwrap();
    assert_eq!(&plain[..got], b"transport");
    match r2i {
        Some(expected) => {
            let len = r.write_message(b"transport", &mut wire).unwrap();
            assert_eq!(&wire[..len], &hex(expected)[..]);
            let got = i.read_message(&wire[..len], &mut plain).unwrap();
            assert_eq!(&plain[..got], b"transport");
        }
        None => {
            assert_eq!(
                r.write_message(b"transport", &mut wire),
                Err(ErrorKind::State(StateProblem::OneWay))
            );
            assert_eq!(
                i.read_message(&wire[..len], &mut plain),
                Err(ErrorKind::State(StateProblem::OneWay))
            );
        }
    }
}

#[test]
fn vector_nn_chachapoly_sha256() {
    check_vector(
        "Noise_NN_25519_ChaChaPoly_SHA256",
        b"",
        &[b"", b""],
        None,
        &[
            "64b101b1d0be5a8704bd078f9895001fc03e8e9f9522f188dd128d9846d48466",
            "244fe3b963e899dd295baffce248d3530f3a9a7479ba063002680ebfe7adad493d314ef8765e4cd6b065f1351a2c1789",
        ],
        "fc668f0c10f63bb9b69aac3b3fbbb7dc029e08994acc5668ed61f571b46f6e22",
        "75df57169f0763d84362587e66efe32f7fe64f2690843185cb",
        Some("c711087ba7c8d872dcd1190a240895d6f2e67596c3f98ec9aa"),
    );
}

#[test]
fn vector_xx_aesgcm_sha512() {
    check_vector(
        "Noise_XX_25519_AESGCM_SHA512",
        b"prologue",
        &[b"one", b"two", b"three"],
        None,
        &[
            "64b101b1d0be5a8704bd078f9895001fc03e8e9f9522f188dd128d9846d484666f6e65",
            "244fe3b963e899dd295baffce248d3530f3a9a7479ba063002680ebfe7adad493b0cf3a70ea817f7f8a51671ec63898ade72ec5edee2682e068339c49168826136acad8521baee440dcef2f9340ba5e2dc17f9f9cef1c40f7be1536fe7bbfd04556a74",
            "c947992d70ad2da91d13663c752dd32b3a4292733fe66549fb7c657ae2211eb7d482935f2fe8080e69affc9107e0977c44abc5be9c85c1d867f563a152b3b179645f0aabf5",
        ],
        "0c60bbda6e813060be39fc6c5dbdf1e4a144d4a1469c2af758d3d8971b99f356b253e20b961f7ae1c045ff7d04c4510d004d4a8c2a6209069fd2800dbf1f45f5",
        "40120efeabd58cd449fe254b9d14fb1e79014965ab86442e5b",
        Some("7b677180ffd544818a0cb63d0a884480560f221f0c458daf1c"),
    );
}

#[test]
fn vector_ikpsk2_chachapoly_blake2s() {
    let psk = [7u8; 32];
    check_vector(
        "Noise_IKpsk2_25519_ChaChaPoly_Blake2s",
        &[1, 2],
        &[b"hello", b"world"],
        Some((2, &psk)),
        &[
            "64b101b1d0be5a8704bd078f9895001fc03e8e9f9522f188dd128d9846d48466c317f6a3caa4ccde3faa308414842fad8ddae41ede258b5512727d7d797e45be95f77f7618ede8dc5dd75dc57311e23c0d669757670674b7e8a6ea911de7384c006932e639",
            "244fe3b963e899dd295baffce248d3530f3a9a7479ba063002680ebfe7adad4943cbacfbcce286317787d0aca48974b079f2e0a636",
        ],
        "3627e0a790b68ddda0de6d3e6d061dc95b3e2a0e1e779760e96de922da99db7a",
        "5960ca66359b088820ba1bb7c3303477ac732bb3d45b244912",
        Some("c1c9fcbdd81c4a12209c6f56b1c4cbd5366dafa0f837bda853"),
    );
}

#[test]
fn vector_nnpsk0_chachapoly_blake2b() {
    let psk = [9u8; 32];
    check_vector(
        "Noise_NNpsk0_25519_ChaChaPoly_Blake2b",
        b"",
        &[b"a", b"b"],
        Some((0, &psk)),
        &[
            "64b101b1d0be5a8704bd078f9895001fc03e8e9f9522f188dd128d9846d4846611d7efcac75290d41e879a3f319c843886",
            "244fe3b963e899dd295baffce248d3530f3a9a7479ba063002680ebfe7adad4974c1c11a2b6782509fe011b4bff2c2ba69",
        ],
        "2de214358f5cecd918130b226729cc66871afc972aa21f3de1c29f91b4ea0e00783a6364fceea43d46150facfbe9557e8f02a9424b4d8b4362ea174a1d359b36",
        "9d4495a23ea83e3080b4dd801773a5ab766a3b10415187d85b",
        Some("4828fc775955b5e3baa14b2dc51e6c3ad36922ae0bde595eff"),
    );
}

#[test]
fn vector_n_aesgcm_sha256() {
    check_vector(
        "Noise_N_25519_AESGCM_SHA256",
        b"",
        &[b"oneway"],
        None,
        &["64b101b1d0be5a8704bd078f9895001fc03e8e9f9522f188dd128d9846d484666ebeec2ae7bb50c46e854ae140068d415ce975328ae3"],
        "776c8d6be0358109df6e295ea50e22ab6ae3a72b90da60e7b8185da9777efeb1",
        "c1e0f4589aa807ce28ee88478414e0282213e3ff7f6f5be942",
        None,
    );
}

#[test]
fn vector_kk_fallback_psk1() {
    let psk = [5u8; 32];
    check_vector(
        "Noise_KKfallback+psk1_25519_ChaChaPoly_SHA256",
        b"",
        &[b"x", b"y"],
        Some((1, &psk)),
        &[
            "64b101b1d0be5a8704bd078f9895001fc03e8e9f9522f188dd128d9846d48466301f9ee8311f07cf20902d0cb19815a9f3",
            "244fe3b963e899dd295baffce248d3530f3a9a7479ba063002680ebfe7adad4927332914177ff2498bace114af0cc34949",
        ],
        "6e5a33500c016743fd66d8fc9db873de6779fa5b8fe4ad3783c77b4dfd63f9b7",
        "e73145458b63aaa1910b107aaf1ece9ae8c22e62169db03388",
        Some("1fe029f712356bea504bb8a138b6bbc8a0b01fb8e97f491b99"),
    );
}

fn fresh_pair(name: &str) -> (Party, Party, bool) {
    let params: NoiseParams = name.parse().unwrap();
    let pattern = params.handshake.pattern;
    let maker = NoiseBuilder::new(name.parse().unwrap());
    let si = maker.generate_private_key().unwrap();
    let sr = maker.generate_private_key().unwrap();
    let pub_si = public_of(&si);
    let pub_sr = public_of(&sr);
    let psk = [0x5au8; 32];
    let mut i = NoiseBuilder::new(params).prologue(b"both know this");
    let mut r = NoiseBuilder::new(name.parse().unwrap()).prologue(b"both know this");
    if pattern.needs_local_static_key(true) {
        i = i.local_private_key(&si);
    }
    if pattern.needs_local_static_key(false) {
        r = r.local_private_key(&sr);
    }
    if pattern.need_known_remote_pubkey(true) {
        i = i.remote_public_key(&pub_sr);
    }
    if pattern.need_known_remote_pubkey(false) {
        r = r.remote_public_key(&pub_si);
    }
    for slot in 0u8..4 {
        i = i.psk(slot, &psk);
        r = r.psk(slot, &psk);
    }
    (i.build_initiator().unwrap(), r.build_responder().unwrap(), pattern.is_oneway())
}

fn run_to_transport(name: &str) {
    let (mut i, mut r, oneway) = fresh_pair(name);
    let count = name.parse::<NoiseParams>().unwrap().handshake.pattern.message_count();
    let mut wire = [0u8; 4096];
    let mut plain = [0u8; 4096];
    for n in 0..count {
        let payload = format!("payload {} of {}", n, name).into_bytes();
        let (w, rd) = if n % 2 == 0 { (&mut i, &mut r) } else { (&mut r, &mut i) };
        let len = w.write_message(&payload, &mut wire).unwrap();
        let got = rd.read_message(&wire[..len], &mut plain).unwrap();
        assert_eq!(&plain[..got], &payload[..], "{}", name);
    }
    assert_eq!(hash_of(&i), hash_of(&r));
    let mut i = i.into_transport_mode().ok().unwrap();
    let mut r = r.into_transport_mode().ok().unwrap();
    for n in 0..3 {
        let text = format!("to the responder {}", n).into_bytes();
        let len = i.write_message(&text, &mut wire).unwrap();
        assert_eq!(len, text.len() + 16);
        let got = r.read_message(&wire[..len], &mut plain).unwrap();
        assert_eq!(&plain[..got], &text[..], "{}", name);
        if !oneway {
            let text = format!("to the initiator {}", n).into_bytes();
            let len = r.write_message(&text, &mut wire).unwrap();
            let got = i.read_message(&wire[..len], &mut plain).unwrap();
            assert_eq!(&plain[..got], &text[..], "{}", name);
        }
    }
}

#[test]
fn every_pattern_reaches_transport_with_agreeing_keys() {
    let patterns = ["N", "X", "K", "NN", "NK", "NX", "XN", "XK", "XX", "KN", "KK", "KX", "IN", "IK", "IX"];
    for p in patterns.iter() {
        run_to_transport(&format!("Noise_{}_25519_ChaChaPoly_SHA256", p));
        run_to_transport(&format!("Noise_{}_25519_AESGCM_Blake2b", p));
    }
}

#[test]
fn every_pattern_runs_with_preshared_keys() {
    let patterns = ["N", "X", "K", "NN", "NK", "NX", "XN", "XK", "XX", "KN", "KK", "KX", "IN", "IK", "IX"];
    for p in patterns.iter() {
        let pattern: HandshakePattern =
            format!("Noise_{}_25519_ChaChaPoly_SHA256", p).parse::<NoiseParams>().unwrap().handshake.pattern;
        for slot in 0..=pattern.message_count() {
            run_to_transport(&format!("Noise_{}psk{}_25519_ChaChaPoly_Blake2s", p, slot));
        }
        run_to_transport(&format!("Noise_{}psk1+psk0_25519_AESGCM_SHA512", p));
    }
}

#[test]
fn writing_and_reading_out_of_turn_is_refused() {
    let (mut i, mut r, _) = fresh_pair("Noise_XX_25519_ChaChaPoly_SHA256");
    let mut wire = [0u8; 1024];
    let mut plain = [0u8; 1024];
    assert_eq!(
        r.write_message(b"", &mut wire),
        Err(ErrorKind::State(StateProblem::NotTurnToWrite))
    );
    assert_eq!(
        i.read_message(&[0u8; 32], &mut plain),
        Err(ErrorKind::State(StateProblem::NotTurnToRead))
    );
    let len = i.write_message(b"", &mut wire).unwrap();
    assert_eq!(
        i.write_message(b"", &mut wire),
        Err(ErrorKind::State(StateProblem::NotTurnToWrite))
    );
    // The refused calls have left both parties where they were.
    r.read_message(&wire[..len], &mut plain).unwrap();
    assert_eq!(
        r.read_message(&wire[..len], &mut plain),
        Err(ErrorKind::State(StateProblem::NotTurnToRead))
    );
    let len = r.write_message(b"", &mut wire).unwrap();
    i.read_message(&wire[..len], &mut plain).unwrap();
    let len = i.write_message(b"", &mut wire).unwrap();
    r.read_message(&wire[..len], &mut plain).unwrap();
    assert_eq!(
        i.write_message(b"", &mut wire),
        Err(ErrorKind::State(StateProblem::HandshakeAlreadyFinished))
    );
    assert_eq!(
        r.read_message(&wire[..len], &mut plain),
        Err(ErrorKind::State(StateProblem::HandshakeAlreadyFinished))
    );
}

#[test]
fn the_phase_changes_once_and_only_when_finished() {
    let (i, _r, _) = fresh_pair("Noise_NN_25519_ChaChaPoly_SHA256");
    assert!(i.is_initiator());
    assert_eq!(
        i.into_transport_mode().err(),
        Some(ErrorKind::State(StateProblem::HandshakeNotFinished))
    );
    let (mut i, mut r, _) = fresh_pair("Noise_N_25519_ChaChaPoly_SHA256");
    let mut wire = [0u8; 1024];
    let mut plain = [0u8; 1024];
    let len = i.write_message(b"", &mut wire).unwrap();
    r.read_message(&wire[..len], &mut plain).unwrap();
    let i = i.into_transport_mode().ok().unwrap();
    assert!(i.is_handshake_finished());
    assert!(i.is_initiator());
    assert!(!r.is_initiator());
    assert_eq!(
        i.into_transport_mode().err(),
        Some(ErrorKind::State(StateProblem::HandshakeAlreadyFinished))
    );
}

#[test]
fn a_tampered_transport_message_fails_and_leaves_the_counter() {
    let (mut i, mut r, _) = fresh_pair("Noise_NN_25519_ChaChaPoly_SHA256");
    let mut wire = [0u8; 1024];
    let mut plain = [0u8; 1024];
    let len = i.write_message(b"", &mut wire).unwrap();
    r.read_message(&wire[..len], &mut plain).unwrap();
    let len = r.write_message(b"", &mut wire).unwrap();
    i.read_message(&wire[..len], &mut plain).unwrap();
    let mut i = i.into_transport_mode().ok().unwrap();
    let mut r = r.into_transport_mode().ok().unwrap();
    let len = i.write_message(b"first message", &mut wire).unwrap();
    let first = wire[..len].to_vec();
    let len = i.write_message(b"second message", &mut wire).unwrap();
    let second = wire[..len].to_vec();
    for at in 0..first.len() {
        let mut bad = first.clone();
        bad[at] ^= 0x01;
        assert_eq!(r.read_message(&bad, &mut plain), Err(ErrorKind::Decrypt));
    }
    assert_eq!(r.read_message(&second, &mut plain), Err(ErrorKind::Decrypt));
    assert_eq!(r.read_message(&first[..5], &mut plain), Err(ErrorKind::Input));
    let got = r.read_message(&first, &mut plain).unwrap();
    assert_eq!(&plain[..got], b"first message");
    assert_eq!(r.read_message(&first, &mut plain), Err(ErrorKind::Decrypt));
    let got = r.read_message(&second, &mut plain).unwrap();
    assert_eq!(&plain[..got], b"second message");
}

#[test]
fn a_tampered_handshake_message_fails_and_can_be_read_again() {
    let (mut i, mut r, _) = fresh_pair("Noise_IK_25519_AESGCM_SHA256");
    let mut wire = [0u8; 1024];
    let mut plain = [0u8; 1024];
    let len = i.write_message(b"payload", &mut wire).unwrap();
    let before = hash_of(&r);
    for at in [32usize, 40, 80, len - 1].iter() {
        let mut bad = wire[..len].to_vec();
        bad[*at] ^= 0x10;
        assert_eq!(r.read_message(&bad, &mut plain), Err(ErrorKind::Decrypt));
        assert_eq!(hash_of(&r), before);
    }
    assert_eq!(r.read_message(&wire[..31], &mut plain), Err(ErrorKind::Input));
    assert_eq!(r.read_message(&wire[..len - 1], &mut plain), Err(ErrorKind::Decrypt));
    assert_eq!(r.read_message(&vec![0u8; 65536], &mut plain), Err(ErrorKind::Input));
    assert_eq!(hash_of(&r), before);
    let got = r.read_message(&wire[..len], &mut plain).unwrap();
    assert_eq!(&plain[..got], b"payload");
    assert_eq!(hash_of(&r), hash_of(&i));
}

#[test]
fn a_buffer_that_is_too_small_is_refused_without_effect() {
    let (mut i, mut r, _) = fresh_pair("Noise_XX_25519_ChaChaPoly_SHA256");
    let mut wire = [0u8; 1024];
    let mut plain = [0u8; 1024];
    let mut small = [0u8; 31];
    let before = hash_of(&i);
    assert_eq!(i.write_message(b"", &mut small), Err(ErrorKind::Input));
    assert_eq!(small, [0u8; 31]);
    assert_eq!(hash_of(&i), before);
    let len = i.write_message(b"hello", &mut wire).unwrap();
    assert_eq!(len, 37);
    let before = hash_of(&r);
    assert_eq!(r.read_message(&wire[..len], &mut small[..4]), Err(ErrorKind::Input));
    assert_eq!(hash_of(&r), before);
    let got = r.read_message(&wire[..len], &mut plain).unwrap();
    assert_eq!(&plain[..got], b"hello");
    let long = vec![0u8; 65535];
    let mut big = vec![0u8; 70000];
    assert_eq!(r.write_message(&long, &mut big), Err(ErrorKind::Input));
    let len = r.write_message(b"", &mut wire).unwrap();
    i.read_message(&wire[..len], &mut plain).unwrap();
    let len = i.write_message(b"", &mut wire).unwrap();
    r.read_message(&wire[..len], &mut plain).unwrap();
    let mut i = i.into_transport_mode().ok().unwrap();
    let mut r = r.into_transport_mode().ok().unwrap();
    assert_eq!(i.write_message(b"abc", &mut small[..18]), Err(ErrorKind::Input));
    let len = i.write_message(b"abc", &mut small[..19]).unwrap();
    assert_eq!(len, 19);
    let sealed = small[..19].to_vec();
    assert_eq!(r.read_message(&sealed, &mut plain[..2]), Err(ErrorKind::Input));
    let got = r.read_message(&sealed, &mut plain[..3]).unwrap();
    assert_eq!(&plain[..got], b"abc");
}

#[test]
fn a_missing_preshared_key_is_reported_when_its_token_comes() {
    let i = NoiseBuilder::new("Noise_NNpsk2_25519_ChaChaPoly_SHA256".parse().unwrap());
    let mut i: Party = i.build_initiator().unwrap();
    let psk = [1u8; 32];
    let mut r: Party = NoiseBuilder::new("Noise_NNpsk2_25519_ChaChaPoly_SHA256".parse().unwrap())
        .psk(2, &psk)
        .build_responder()
        .unwrap();
    let mut wire = [0u8; 1024];
    let mut plain = [0u8; 1024];
    let len = i.write_message(b"", &mut wire).unwrap();
    r.read_message(&wire[..len], &mut plain).unwrap();
    let len = r.write_message(b"", &mut wire).unwrap();
    let before = hash_of(&i);
    assert_eq!(
        i.read_message(&wire[..len], &mut plain),
        Err(ErrorKind::State(StateProblem::MissingPsk))
    );
    assert_eq!(hash_of(&i), before);
    assert!(!i.is_handshake_finished());
}

#[test]
fn parties_with_different_prologues_do_not_agree() {
    let a: Party = NoiseBuilder::new("Noise_NN_25519_ChaChaPoly_SHA256".parse().unwrap())
        .prologue(b"one")
        .build_initiator()
        .unwrap();
    let mut b: Party = NoiseBuilder::new("Noise_NN_25519_ChaChaPoly_SHA256".parse().unwrap())
        .prologue(b"two")
        .build_responder()
        .unwrap();
    let mut a = a;
    let mut wire = [0u8; 1024];
    let mut plain = [0u8; 1024];
    let len = a.write_message(b"", &mut wire).unwrap();
    b.read_message(&wire[..len], &mut plain).unwrap();
    let len = b.write_message(b"", &mut wire).unwrap();
    assert_eq!(a.read_message(&wire[..len], &mut plain), Err(ErrorKind::Decrypt));
}

#[test]
fn fresh_ephemeral_keys_differ_between_runs() {
    let mut wire1 = [0u8; 64];
    let mut wire2 = [0u8; 64];
    let (mut a, _, _) = fresh_pair("Noise_NN_25519_ChaChaPoly_SHA256");
    let (mut b, _, _) = fresh_pair("Noise_NN_25519_ChaChaPoly_SHA256");
    assert_eq!(a.write_message(b"", &mut wire1), Ok(32));
    assert_eq!(b.write_message(b"", &mut wire2), Ok(32));
    assert_ne!(wire1[..32], wire2[..32]);
    assert_ne!(wire1[..32], [0u8; 32]);
}
