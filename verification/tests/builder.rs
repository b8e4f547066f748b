use snow::error::{ErrorKind, InitStage, Prerequisite};
use snow::noise::NoiseBuilder;
use snow::params::NoiseParams;
use snow::session::Session;

#[test]
fn test_builder() {
    let _noise = NoiseBuilder::new("Noise_NN_25519_ChaChaPoly_SHA256".parse().unwrap())
        .prologue(&[2, 2, 2, 2, 2, 2, 2, 2])
        .local_private_key(&[0u8; 32])
        .build_initiator()
        .unwrap();
}

#[test]
fn test_builder_keygen() {
    let builder = NoiseBuilder::new("Noise_NN_25519_ChaChaPoly_SHA256".parse().unwrap());
    let key1 = builder.generate_private_key();
    let key2 = builder.generate_private_key();
    assert!(key1.unwrap() != key2.unwrap());
}

#[test]
fn test_builder_bad_spec() {
    let params: ::std::result::Result<NoiseParams, _> =
        "Noise_NK_25519_ChaChaPoly_BLAH256".parse();

    if let Ok(_) = params {
        panic!("NoiseParams should have failed");
    }
}

#[test]
fn test_builder_missing_prereqs() {
    let noise = NoiseBuilder::new("Noise_NK_25519_ChaChaPoly_SHA256".parse().unwrap())
        .prologue(&[2, 2, 2, 2, 2, 2, 2, 2])
        .local_private_key(&[0u8; 32])
        .build_initiator(); // missing remote key, should result in Err

    if let Ok(_) = noise {
        panic!("builder should have failed on build");
    }
}

#[test]
fn builder_nn_needs_no_keys_in_either_role() {
    let initiator = NoiseBuilder::new("Noise_NN_25519_ChaChaPoly_SHA256".parse().unwrap())
        .build_initiator();
    let responder = NoiseBuilder::new("Noise_NN_25519_ChaChaPoly_SHA256".parse().unwrap())
        .build_responder();
    assert!(matches!(initiator, Ok(Session::Handshake(_))));
    assert!(matches!(responder, Ok(Session::Handshake(_))));
}

#[test]
fn builder_nk_initiator_needs_the_remote_key() {
    let without = NoiseBuilder::new("Noise_NK_25519_ChaChaPoly_SHA256".parse().unwrap())
        .build_initiator();
    assert_eq!(without.err(), Some(ErrorKind::Prereq(Prerequisite::RemotePublicKey)));
    let remote = [7u8; 32];
    let with = NoiseBuilder::new("Noise_NK_25519_ChaChaPoly_SHA256".parse().unwrap())
        .remote_public_key(&remote)
        .build_initiator();
    assert!(with.is_ok());
}

#[test]
fn builder_nk_responder_needs_its_static_key() {
    let without = NoiseBuilder::new("Noise_NK_25519_ChaChaPoly_SHA256".parse().unwrap())
        .build_responder();
    assert_eq!(without.err(), Some(ErrorKind::Prereq(Prerequisite::LocalPrivateKey)));
    let key = [3u8; 32];
    let with = NoiseBuilder::new("Noise_NK_25519_ChaChaPoly_SHA256".parse().unwrap())
        .local_private_key(&key)
        .build_responder();
    assert!(with.is_ok());
}

#[test]
fn builder_refuses_a_psk_of_another_length() {
    let short = [1u8; 31];
    let long = [1u8; 33];
    let exact = [1u8; 32];
    let a = NoiseBuilder::new("Noise_NNpsk0_25519_ChaChaPoly_SHA256".parse().unwrap())
        .psk(0, &short)
        .build_initiator();
    assert_eq!(a.err(), Some(ErrorKind::Init(InitStage::ValidatePskLengths)));
    let b = NoiseBuilder::new("Noise_NNpsk0_25519_ChaChaPoly_SHA256".parse().unwrap())
        .psk(0, &long)
        .build_responder();
    assert_eq!(b.err(), Some(ErrorKind::Init(InitStage::ValidatePskLengths)));
    let c = NoiseBuilder::new("Noise_NNpsk0_25519_ChaChaPoly_SHA256".parse().unwrap())
        .psk(0, &exact)
        .build_initiator();
    assert!(c.is_ok());
}

#[test]
fn builder_checks_the_psk_before_the_prerequisites() {
    let short = [1u8; 5];
    let r = NoiseBuilder::new("Noise_NK_25519_ChaChaPoly_SHA256".parse().unwrap())
        .psk(9, &short)
        .build_initiator();
    assert_eq!(r.err(), Some(ErrorKind::Init(InitStage::ValidatePskLengths)));
}

#[test]
fn builder_refuses_keys_of_another_length() {
    let short = [1u8; 16];
    let a = NoiseBuilder::new("Noise_XX_25519_ChaChaPoly_SHA256".parse().unwrap())
        .local_private_key(&short)
        .build_initiator();
    assert_eq!(a.err(), Some(ErrorKind::Init(InitStage::ValidateKeyLengths)));
    let key = [1u8; 32];
    let b = NoiseBuilder::new("Noise_NK_25519_ChaChaPoly_SHA256".parse().unwrap())
        .remote_public_key(&short)
        .build_initiator();
    assert_eq!(b.err(), Some(ErrorKind::Init(InitStage::ValidateKeyLengths)));
    let c = NoiseBuilder::new("Noise_NN_25519_ChaChaPoly_SHA256".parse().unwrap())
        .local_private_key(&key)
        .fixed_ephemeral_key_for_testing_only(&short)
        .build_initiator();
    assert_eq!(c.err(), Some(ErrorKind::Init(InitStage::ValidateKeyLengths)));
}

#[test]
fn builder_names_the_primitive_that_is_missing() {
    let r = NoiseBuilder::new("Noise_NN_448_ChaChaPoly_SHA256".parse().unwrap())
        .build_initiator();
    assert_eq!(r.err(), Some(ErrorKind::Init(InitStage::GetDhImpl)));
    let k = NoiseBuilder::new("Noise_NN_448_ChaChaPoly_SHA256".parse().unwrap())
        .generate_private_key();
    assert_eq!(k.err(), Some(ErrorKind::Init(InitStage::GetDhImpl)));
}

#[test]
fn generated_private_key_has_the_length_of_the_key_agreement() {
    let builder = NoiseBuilder::new("Noise_XX_25519_AESGCM_SHA512".parse().unwrap());
    let key = builder.generate_private_key().unwrap();
    assert_eq!(key.len(), 32);
    assert_eq!(key[0] & 7, 0);
    assert_eq!(key[31] & 128, 0);
    assert_eq!(key[31] & 64, 64);
}
