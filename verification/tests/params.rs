use snow::error::{ErrorKind, PatternProblem};
use snow::params::{CipherChoice, DHChoice, HashChoice, NoiseParams};
use snow::patterns::{
    resolve_handshake_pattern, HandshakeChoice, HandshakeModifier, HandshakeModifierList,
    HandshakePattern, Token,
};

const ALL: [HandshakePattern; 15] = [
    HandshakePattern::N,
    HandshakePattern::X,
    HandshakePattern::K,
    HandshakePattern::NN,
    HandshakePattern::NK,
    HandshakePattern::NX,
    HandshakePattern::XN,
    HandshakePattern::XK,
    HandshakePattern::XX,
    HandshakePattern::KN,
    HandshakePattern::KK,
    HandshakePattern::KX,
    HandshakePattern::IN,
    HandshakePattern::IK,
    HandshakePattern::IX,
];

#[test]
fn parse_reads_every_field() {
    let p = NoiseParams::parse("Noise_XX_25519_ChaChaPoly_SHA256").unwrap();
    assert_eq!(p.name, "Noise_XX_25519_ChaChaPoly_SHA256");
    assert_eq!(p.handshake.pattern, HandshakePattern::XX);
    assert!(p.handshake.modifiers.list.is_empty());
    assert_eq!(p.dh, DHChoice::Curve25519);
    assert_eq!(p.cipher, CipherChoice::ChaChaPoly);
    assert_eq!(p.hash, HashChoice::SHA256);
    let q = NoiseParams::parse("Noise_IKpsk2_448_AESGCM_Blake2b").unwrap();
    assert_eq!(q.handshake.pattern, HandshakePattern::IK);
    assert_eq!(q.handshake.modifiers.list, vec![HandshakeModifier::Psk(2)]);
    assert_eq!(q.dh, DHChoice::Ed448);
    assert_eq!(q.cipher, CipherChoice::AESGCM);
    assert_eq!(q.hash, HashChoice::Blake2b);
}

#[test]
fn parse_then_name_gives_the_same_string() {
    let dhs = ["25519", "448"];
    let ciphers = ["ChaChaPoly", "AESGCM"];
    let hashes = ["SHA256", "SHA512", "Blake2s", "Blake2b"];
    let mods = ["", "psk0", "psk1", "fallback", "psk1+psk0", "fallback+psk0", "psk0+fallback+psk1"];
    let mut count = 0;
    for pattern in ALL.iter() {
        for m in mods.iter() {
            for d in dhs.iter() {
                for c in ciphers.iter() {
                    for h in hashes.iter() {
                        let name = format!("Noise_{}{}_{}_{}_{}", pattern.as_str(), m, d, c, h);
                        let p = NoiseParams::parse(&name).unwrap();
                        assert_eq!(p.name, name);
                        let again = NoiseParams::new(p.handshake, p.dh, p.cipher, p.hash);
                        assert_eq!(again.name, name);
                        count += 1;
                    }
                }
            }
        }
    }
    assert_eq!(count, 15 * 7 * 2 * 2 * 4);
}

#[test]
fn parse_keeps_the_order_of_the_modifiers() {
    let p = NoiseParams::parse("Noise_XXpsk3+fallback+psk0_25519_AESGCM_SHA512").unwrap();
    assert_eq!(
        p.handshake.modifiers.list,
        vec![HandshakeModifier::Psk(3), HandshakeModifier::Fallback, HandshakeModifier::Psk(0)]
    );
}

fn refused(name: &str) -> PatternProblem {
    match NoiseParams::parse(name) {
        Err(ErrorKind::Pattern(p)) => p,
        Err(e) => panic!("{:?} for {}", e, name),
        Ok(_) => panic!("{} was accepted", name),
    }
}

#[test]
fn parse_refuses_a_wrong_number_of_fields() {
    assert_eq!(refused(""), PatternProblem::WrongFieldCount);
    assert_eq!(refused("Noise"), PatternProblem::WrongFieldCount);
    assert_eq!(refused("Noise_XX_25519_ChaChaPoly"), PatternProblem::WrongFieldCount);
    assert_eq!(refused("Noise_XX_25519_ChaChaPoly_SHA256_"), PatternProblem::WrongFieldCount);
    assert_eq!(refused("Noise_XX_25519_ChaChaPoly_SHA256_x"), PatternProblem::WrongFieldCount);
    assert_eq!(refused("_Noise_XX_25519_ChaChaPoly_SHA256"), PatternProblem::WrongFieldCount);
    assert_eq!(refused("Noise__XX_25519_ChaChaPoly_SHA256"), PatternProblem::WrongFieldCount);
}

#[test]
fn parse_refuses_unknown_tokens() {
    assert_eq!(refused("noise_XX_25519_ChaChaPoly_SHA256"), PatternProblem::UnsupportedBaseType);
    assert_eq!(refused("NoisePSK_XX_25519_ChaChaPoly_SHA256"), PatternProblem::UnsupportedBaseType);
    assert_eq!(refused("Noise_XY_25519_ChaChaPoly_SHA256"), PatternProblem::UnsupportedModifier);
    assert_eq!(refused("Noise_YX_25519_ChaChaPoly_SHA256"), PatternProblem::UnsupportedHandshakeType);
    assert_eq!(refused("Noise_xx_25519_ChaChaPoly_SHA256"), PatternProblem::UnsupportedHandshakeType);
    assert_eq!(refused("Noise__25519_ChaChaPoly_SHA256"), PatternProblem::UnsupportedHandshakeType);
    assert_eq!(refused("Noise_XX_25518_ChaChaPoly_SHA256"), PatternProblem::UnsupportedDhType);
    assert_eq!(refused("Noise_XX__ChaChaPoly_SHA256"), PatternProblem::UnsupportedDhType);
    assert_eq!(refused("Noise_XX_25519_chachapoly_SHA256"), PatternProblem::UnsupportedCipherType);
    assert_eq!(refused("Noise_XX_25519_AESGCM_SHA1"), PatternProblem::UnsupportedHashType);
    assert_eq!(refused("Noise_XX_25519_AESGCM_sha256"), PatternProblem::UnsupportedHashType);
    assert_eq!(refused("Noise_XX_25519_AESGCM_SHA256 "), PatternProblem::UnsupportedHashType);
    assert_eq!(refused("Noise_NK_25519_ChaChaPoly_BLAH256"), PatternProblem::UnsupportedHashType);
    assert_eq!(refused("Noise_XX_25519_AESGCM_SHA256\u{e9}"), PatternProblem::UnsupportedHashType);
}

#[test]
fn parse_refuses_modifiers_that_do_not_fit() {
    // A position beyond the last message of the pattern.
    assert_eq!(refused("Noise_NNpsk3_25519_ChaChaPoly_SHA256"), PatternProblem::UnsupportedModifier);
    assert_eq!(refused("Noise_XXpsk4_25519_ChaChaPoly_SHA256"), PatternProblem::UnsupportedModifier);
    assert_eq!(refused("Noise_Npsk2_25519_ChaChaPoly_SHA256"), PatternProblem::UnsupportedModifier);
    // The last position that fits.
    assert!(NoiseParams::parse("Noise_NNpsk2_25519_ChaChaPoly_SHA256").is_ok());
    assert!(NoiseParams::parse("Noise_XXpsk3_25519_ChaChaPoly_SHA256").is_ok());
    assert!(NoiseParams::parse("Noise_Npsk1_25519_ChaChaPoly_SHA256").is_ok());
    // Repeated, malformed or unknown modifiers.
    assert_eq!(refused("Noise_NNpsk0+psk0_25519_ChaChaPoly_SHA256"), PatternProblem::UnsupportedModifier);
    assert_eq!(refused("Noise_NNfallback+fallback_25519_ChaChaPoly_SHA256"), PatternProblem::UnsupportedModifier);
    assert_eq!(refused("Noise_NNpsk_25519_ChaChaPoly_SHA256"), PatternProblem::UnsupportedModifier);
    assert_eq!(refused("Noise_NNpsk01_25519_ChaChaPoly_SHA256"), PatternProblem::UnsupportedModifier);
    assert_eq!(refused("Noise_NNpsk10_25519_ChaChaPoly_SHA256"), PatternProblem::UnsupportedModifier);
    assert_eq!(refused("Noise_NNpskx_25519_ChaChaPoly_SHA256"), PatternProblem::UnsupportedModifier);
    assert_eq!(refused("Noise_NN+psk0_25519_ChaChaPoly_SHA256"), PatternProblem::UnsupportedModifier);
    assert_eq!(refused("Noise_NNpsk0+_25519_ChaChaPoly_SHA256"), PatternProblem::UnsupportedModifier);
    assert_eq!(refused("Noise_NNhfs_25519_ChaChaPoly_SHA256"), PatternProblem::UnsupportedModifier);
    assert_eq!(refused("Noise_NNN_25519_ChaChaPoly_SHA256"), PatternProblem::UnsupportedModifier);
}

#[test]
fn pattern_needs_for_the_initiator() {
    for p in ALL.iter() {
        let local = match p {
            HandshakePattern::N
            | HandshakePattern::NN
            | HandshakePattern::NK
            | HandshakePattern::NX => false,
            _ => true,
        };
        let remote = match p {
            HandshakePattern::N
            | HandshakePattern::K
            | HandshakePattern::X
            | HandshakePattern::NK
            | HandshakePattern::XK
            | HandshakePattern::KK
            | HandshakePattern::IK => true,
            _ => false,
        };
        assert_eq!(p.needs_local_static_key(true), local, "{:?}", p);
        assert_eq!(p.need_known_remote_pubkey(true), remote, "{:?}", p);
    }
}

#[test]
fn pattern_needs_for_the_responder() {
    for p in ALL.iter() {
        let local = match p {
            HandshakePattern::NN
            | HandshakePattern::XN
            | HandshakePattern::KN
            | HandshakePattern::IN => false,
            _ => true,
        };
        let remote = match p {
            HandshakePattern::K
            | HandshakePattern::KN
            | HandshakePattern::KK
            | HandshakePattern::KX => true,
            _ => false,
        };
        assert_eq!(p.needs_local_static_key(false), local, "{:?}", p);
        assert_eq!(p.need_known_remote_pubkey(false), remote, "{:?}", p);
    }
}

#[test]
fn pattern_message_counts() {
    for p in ALL.iter() {
        let n = match p {
            HandshakePattern::N | HandshakePattern::K | HandshakePattern::X => 1,
            HandshakePattern::XN | HandshakePattern::XK | HandshakePattern::XX => 3,
            _ => 2,
        };
        assert_eq!(p.message_count(), n);
        assert_eq!(p.messages().len(), n);
        assert_eq!(p.is_oneway(), n == 1);
    }
}

#[test]
fn pattern_tokens_of_xx_and_ik() {
    assert_eq!(
        HandshakePattern::XX.messages(),
        vec![
            vec![Token::E],
            vec![Token::E, Token::Dhee, Token::S, Token::Dhes],
            vec![Token::S, Token::Dhse],
        ]
    );
    assert_eq!(
        HandshakePattern::IK.messages(),
        vec![
            vec![Token::E, Token::Dhes, Token::S, Token::Dhss],
            vec![Token::E, Token::Dhee, Token::Dhse],
        ]
    );
    assert_eq!(HandshakePattern::IK.premessage_tokens(true), vec![]);
    assert_eq!(HandshakePattern::IK.premessage_tokens(false), vec![Token::S]);
    assert_eq!(HandshakePattern::KN.premessage_tokens(true), vec![Token::S]);
}

#[test]
fn psk_modifiers_place_their_tokens() {
    let choice = HandshakeChoice {
        pattern: HandshakePattern::XX,
        modifiers: HandshakeModifierList {
            list: vec![
                HandshakeModifier::Psk(0),
                HandshakeModifier::Fallback,
                HandshakeModifier::Psk(3),
                HandshakeModifier::Psk(1),
            ],
        },
    };
    assert!(choice.is_psk());
    let tokens = resolve_handshake_pattern(&choice);
    assert_eq!(
        tokens.msg_patterns,
        vec![
            vec![Token::Psk(0), Token::E, Token::Psk(1)],
            vec![Token::E, Token::Dhee, Token::S, Token::Dhes],
            vec![Token::S, Token::Dhse, Token::Psk(3)],
        ]
    );
    assert!(tokens.premsg_pattern_i.is_empty());
    assert!(tokens.premsg_pattern_r.is_empty());
    let plain = HandshakeChoice {
        pattern: HandshakePattern::NK,
        modifiers: HandshakeModifierList { list: vec![HandshakeModifier::Fallback] },
    };
    assert!(!plain.is_psk());
    let tokens = resolve_handshake_pattern(&plain);
    assert_eq!(tokens.msg_patterns, HandshakePattern::NK.messages());
    assert_eq!(tokens.premsg_pattern_r, vec![Token::S]);
}

#[test]
fn names_of_the_choices() {
    assert_eq!(DHChoice::Curve25519.as_str(), "25519");
    assert_eq!(DHChoice::Ed448.as_str(), "448");
    assert_eq!(CipherChoice::ChaChaPoly.as_str(), "ChaChaPoly");
    assert_eq!(CipherChoice::AESGCM.as_str(), "AESGCM");
    assert_eq!(HashChoice::SHA256.as_str(), "SHA256");
    assert_eq!(HashChoice::SHA512.as_str(), "SHA512");
    assert_eq!(HashChoice::Blake2s.as_str(), "Blake2s");
    assert_eq!(HashChoice::Blake2b.as_str(), "Blake2b");
}
