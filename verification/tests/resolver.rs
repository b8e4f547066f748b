use snow::error::{ErrorKind, InitStage};
use snow::noise::{CryptoResolver, NoiseBuilder};
use snow::params::{CipherChoice, DHChoice, HashChoice, NoiseParams};
use snow::session::Session;
use snow::types::Random;
use snow::wrappers::{CipherImpl, Dh25519, HashImpl, RandomOs};

/// A random source that delivers a fixed number of times and then fails.
struct Faltering {
    left: usize,
    inner: RandomOs,
}

impl Random for Faltering {
    fn fill(&mut self, buffer: &mut Vec<u8>) -> bool {
        if self.left == 0 {
            return false;
        }
        self.left -= 1;
        self.inner.fill(buffer)
    }
}

/// A resolver that lacks what its fields say, and whose random source
/// fails after `fills` deliveries.
struct Partial {
    rng: bool,
    dh: bool,
    hash: bool,
    cipher: bool,
    fills: usize,
}

impl CryptoResolver for Partial {
    type Rng = Faltering;
    type Dh = Dh25519;
    type Hash = HashImpl;
    type Cipher = CipherImpl;

    fn has_rng(&self) -> bool {
        self.rng
    }

    fn has_dh(&self, choice: DHChoice) -> bool {
        self.dh && choice == DHChoice::Curve25519
    }

    fn has_hash(&self, _choice: HashChoice) -> bool {
        self.hash
    }

    fn has_cipher(&self, _choice: CipherChoice) -> bool {
        self.cipher
    }

    fn resolve_rng(&self) -> Option<Faltering> {
        if self.rng {
            Some(Faltering { left: self.fills, inner: RandomOs::new() })
        } else {
            None
        }
    }

    fn resolve_dh(&self, choice: &DHChoice) -> Option<Dh25519> {
        if self.dh && *choice == DHChoice::Curve25519 {
            Some(Dh25519::new())
        } else {
            None
        }
    }

    fn resolve_hash(&self, choice: &HashChoice) -> Option<HashImpl> {
        if self.hash {
            Some(HashImpl::new(*choice))
        } else {
            None
        }
    }

    fn resolve_cipher(&self, choice: &CipherChoice) -> Option<CipherImpl> {
        if self.cipher {
            Some(CipherImpl::new(*choice))
        } else {
            None
        }
    }
}

fn params() -> NoiseParams {
    "Noise_NN_25519_ChaChaPoly_SHA256".parse().unwrap()
}

fn all() -> Partial {
    Partial { rng: true, dh: true, hash: true, cipher: true, fills: 100 }
}

#[test]
fn build_names_each_missing_primitive() {
    let r = NoiseBuilder::with_resolver(params(), Partial { rng: false, ..all() }).build_initiator();
    assert_eq!(r.err(), Some(ErrorKind::Init(InitStage::GetRngImpl)));
    let r = NoiseBuilder::with_resolver(params(), Partial { cipher: false, ..all() }).build_initiator();
    assert_eq!(r.err(), Some(ErrorKind::Init(InitStage::GetCipherImpl)));
    let r = NoiseBuilder::with_resolver(params(), Partial { hash: false, ..all() }).build_responder();
    assert_eq!(r.err(), Some(ErrorKind::Init(InitStage::GetHashImpl)));
    let r = NoiseBuilder::with_resolver(params(), Partial { dh: false, ..all() }).build_responder();
    assert_eq!(r.err(), Some(ErrorKind::Init(InitStage::GetDhImpl)));
    let r = NoiseBuilder::with_resolver(params(), all()).build_responder();
    assert!(r.is_ok());
}

#[test]
fn build_reports_the_first_missing_primitive() {
    let none = Partial { rng: false, dh: false, hash: false, cipher: false, fills: 0 };
    let r = NoiseBuilder::with_resolver(params(), none).build_initiator();
    assert_eq!(r.err(), Some(ErrorKind::Init(InitStage::GetRngImpl)));
    let r = NoiseBuilder::with_resolver(
        params(),
        Partial { rng: true, dh: false, hash: false, cipher: false, fills: 0 },
    )
    .build_initiator();
    assert_eq!(r.err(), Some(ErrorKind::Init(InitStage::GetCipherImpl)));
    let r = NoiseBuilder::with_resolver(
        params(),
        Partial { rng: true, dh: false, hash: false, cipher: true, fills: 0 },
    )
    .build_initiator();
    assert_eq!(r.err(), Some(ErrorKind::Init(InitStage::GetHashImpl)));
}

#[test]
fn keygen_fails_where_the_resolver_or_the_random_source_fails() {
    let b = NoiseBuilder::with_resolver(params(), Partial { rng: false, ..all() });
    assert_eq!(b.generate_private_key().err(), Some(ErrorKind::Init(InitStage::GetRngImpl)));
    let b = NoiseBuilder::with_resolver(params(), Partial { dh: false, ..all() });
    assert_eq!(b.generate_private_key().err(), Some(ErrorKind::Init(InitStage::GetDhImpl)));
    let b = NoiseBuilder::with_resolver(params(), Partial { fills: 0, ..all() });
    assert_eq!(b.generate_private_key().err(), Some(ErrorKind::Init(InitStage::GetRngImpl)));
    let b = NoiseBuilder::with_resolver(params(), all());
    assert_eq!(b.generate_private_key().unwrap().len(), 32);
}

#[test]
fn a_failing_random_source_refuses_the_message_and_changes_nothing() {
    let mut i = NoiseBuilder::with_resolver(params(), Partial { fills: 0, ..all() })
        .build_initiator()
        .ok()
        .unwrap();
    let mut wire = [0u8; 64];
    let before = match &i {
        Session::Handshake(state) => state.handshake_hash(),
        Session::Transport(_) => panic!("the handshake has not begun"),
    };
    assert_eq!(i.write_message(b"", &mut wire), Err(ErrorKind::Init(InitStage::GetRngImpl)));
    assert_eq!(wire, [0u8; 64]);
    let after = match &i {
        Session::Handshake(state) => state.handshake_hash(),
        Session::Transport(_) => panic!("the handshake has not begun"),
    };
    assert_eq!(before, after);
    assert!(!i.is_handshake_finished());
    // With a fixed ephemeral key no random bytes are asked for.
    let fixed = [0x11u8; 32];
    let mut i = NoiseBuilder::with_resolver(params(), Partial { fills: 0, ..all() })
        .fixed_ephemeral_key_for_testing_only(&fixed)
        .build_initiator()
        .ok()
        .unwrap();
    assert_eq!(i.write_message(b"", &mut wire), Ok(32));
}

#[test]
fn a_custom_resolver_talks_to_the_default_one() {
    let mut i = NoiseBuilder::with_resolver(params(), all()).build_initiator().ok().unwrap();
    let mut r = NoiseBuilder::new(params()).build_responder().unwrap();
    let mut wire = [0u8; 256];
    let mut plain = [0u8; 256];
    let len = i.write_message(b"ping", &mut wire).unwrap();
    let got = r.read_message(&wire[..len], &mut plain).unwrap();
    assert_eq!(&plain[..got], b"ping");
    let len = r.write_message(b"pong", &mut wire).unwrap();
    let got = i.read_message(&wire[..len], &mut plain).unwrap();
    assert_eq!(&plain[..got], b"pong");
    let mut i = i.into_transport_mode().ok().unwrap();
    let mut r = r.into_transport_mode().ok().unwrap();
    let len = i.write_message(b"data", &mut wire).unwrap();
    let got = r.read_message(&wire[..len], &mut plain).unwrap();
    assert_eq!(&plain[..got], b"data");
}
