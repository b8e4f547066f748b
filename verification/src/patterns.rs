//! The handshake patterns: which tokens each message carries, and what
//! follows from that for the keys that a party must hold.

use vstd::prelude::*;

verus! {

/// One step of a handshake message.
#[derive(Clone, Copy, Debug, PartialEq, Eq, Structural)]
pub enum Token {
    /// The sender's ephemeral public key.
    E,
    /// The sender's static public key.
    S,
    /// Key agreement between the two ephemeral keys.
    Dhee,
    /// Key agreement between the initiator's ephemeral and the responder's
    /// static key.
    Dhes,
    /// Key agreement between the initiator's static and the responder's
    /// ephemeral key.
    Dhse,
    /// Key agreement between the two static keys.
    Dhss,
    /// The pre-shared key in the given slot.
    Psk(u8),
}

/// The base patterns. The first letter says how the initiator's static key
/// reaches the responder, the second how the responder's reaches the
/// initiator; a single letter names a one-way pattern.
#[derive(Clone, Copy, Debug, PartialEq, Eq, Structural)]
pub enum HandshakePattern {
    N,
    X,
    K,
    NN,
    NK,
    NX,
    XN,
    XK,
    XX,
    KN,
    KK,
    KX,
    IN,
    IK,
    IX,
}

/// What may follow the base pattern in a protocol name.
#[derive(Clone, Copy, Debug, PartialEq, Eq, Structural)]
pub enum HandshakeModifier {
    /// `psk0` puts a pre-shared key at the start of the first message,
    /// `pskN` at the end of message N.
    Psk(u8),
    /// Recorded in the name; the message sequence stays that of the base
    /// pattern.
    Fallback,
}

/// The modifiers of a protocol name, in the order in which it lists them.
pub struct HandshakeModifierList {
    pub list: Vec<HandshakeModifier>,
}

/// A base pattern with its modifiers.
pub struct HandshakeChoice {
    pub pattern: HandshakePattern,
    pub modifiers: HandshakeModifierList,
}

/// The tokens of a handshake, message by message, with the keys that each
/// side knows of the other before the first message.
pub struct HandshakeTokens {
    pub premsg_pattern_i: Vec<Token>,
    pub premsg_pattern_r: Vec<Token>,
    pub msg_patterns: Vec<Vec<Token>>,
}

/// The messages of a base pattern. The initiator sends the first, and the
/// two sides alternate.
pub open spec fn base_messages(p: HandshakePattern) -> Seq<Seq<Token>> {
    match p {
        HandshakePattern::N => seq![seq![Token::E, Token::Dhes]],
        HandshakePattern::K => seq![seq![Token::E, Token::Dhes, Token::Dhss]],
        HandshakePattern::X => seq![seq![Token::E, Token::Dhes, Token::S, Token::Dhss]],
        HandshakePattern::NN => seq![seq![Token::E], seq![Token::E, Token::Dhee]],
        HandshakePattern::NK => seq![seq![Token::E, Token::Dhes], seq![Token::E, Token::Dhee]],
        HandshakePattern::NX => seq![
            seq![Token::E],
            seq![Token::E, Token::Dhee, Token::S, Token::Dhes],
        ],
        HandshakePattern::XN => seq![
            seq![Token::E],
            seq![Token::E, Token::Dhee],
            seq![Token::S, Token::Dhse],
        ],
        HandshakePattern::XK => seq![
            seq![Token::E, Token::Dhes],
            seq![Token::E, Token::Dhee],
            seq![Token::S, Token::Dhse],
        ],
        HandshakePattern::XX => seq![
            seq![Token::E],
            seq![Token::E, Token::Dhee, Token::S, Token::Dhes],
            seq![Token::S, Token::Dhse],
        ],
        HandshakePattern::KN => seq![seq![Token::E], seq![Token::E, Token::Dhee, Token::Dhse]],
        HandshakePattern::KK => seq![
            seq![Token::E, Token::Dhes, Token::Dhss],
            seq![Token::E, Token::Dhee, Token::Dhse],
        ],
        HandshakePattern::KX => seq![
            seq![Token::E],
            seq![Token::E, Token::Dhee, Token::Dhse, Token::S, Token::Dhes],
        ],
        HandshakePattern::IN => seq![
            seq![Token::E, Token::S],
            seq![Token::E, Token::Dhee, Token::Dhse],
        ],
        HandshakePattern::IK => seq![
            seq![Token::E, Token::Dhes, Token::S, Token::Dhss],
            seq![Token::E, Token::Dhee, Token::Dhse],
        ],
        HandshakePattern::IX => seq![
            seq![Token::E, Token::S],
            seq![Token::E, Token::Dhee, Token::Dhse, Token::S, Token::Dhes],
        ],
    }
}

/// The keys of one side that the other knows before the first message:
/// the static key, for the side that a `K` stands for, and for the
/// responder of `N`, `X`, `NK`, `XK`, `IK`.
pub open spec fn premessage(p: HandshakePattern, initiator: bool) -> Seq<Token> {
    if initiator {
        match p {
            HandshakePattern::K | HandshakePattern::KN | HandshakePattern::KK
            | HandshakePattern::KX => seq![Token::S],
            _ => Seq::<Token>::empty(),
        }
    } else {
        match p {
            HandshakePattern::N | HandshakePattern::K | HandshakePattern::X
            | HandshakePattern::NK | HandshakePattern::XK | HandshakePattern::KK
            | HandshakePattern::IK => seq![Token::S],
            _ => Seq::<Token>::empty(),
        }
    }
}

/// The messages after one modifier is applied. A pre-shared key whose
/// position lies beyond the last message changes nothing.
pub open spec fn apply_modifier(msgs: Seq<Seq<Token>>, m: HandshakeModifier) -> Seq<Seq<Token>> {
    match m {
        HandshakeModifier::Psk(n) => if msgs.len() == 0 || n > msgs.len() {
            msgs
        } else if n == 0 {
            msgs.update(0, seq![Token::Psk(n)] + msgs[0])
        } else {
            msgs.update(n - 1, msgs[n - 1].push(Token::Psk(n)))
        },
        HandshakeModifier::Fallback => msgs,
    }
}

/// The messages after the modifiers are applied in order.
pub open spec fn apply_modifiers(msgs: Seq<Seq<Token>>, mods: Seq<HandshakeModifier>) -> Seq<
    Seq<Token>,
>
    decreases mods.len(),
{
    if mods.len() == 0 {
        msgs
    } else {
        apply_modifier(apply_modifiers(msgs, mods.drop_last()), mods.last())
    }
}

/// The messages of a pattern with its modifiers.
pub open spec fn message_patterns(p: HandshakePattern, mods: Seq<HandshakeModifier>) -> Seq<
    Seq<Token>,
> {
    apply_modifiers(base_messages(p), mods)
}

/// A side sends its static key in one of its own messages.
pub open spec fn sends_static(p: HandshakePattern, initiator: bool) -> bool {
    exists|i: int|
        0 <= i < base_messages(p).len() && (i % 2 == 0) == initiator
            && #[trigger] base_messages(p)[i].contains(Token::S)
}

/// The token sequences that a vector of messages holds.
pub open spec fn tokens_view(msgs: Vec<Vec<Token>>) -> Seq<Seq<Token>> {
    Seq::new(msgs@.len(), |i: int| msgs@[i]@)
}

/// Applying modifiers keeps the number of messages.
pub proof fn lemma_apply_modifiers_len(msgs: Seq<Seq<Token>>, mods: Seq<HandshakeModifier>)
    ensures
        apply_modifiers(msgs, mods).len() == msgs.len(),
    decreases mods.len(),
{
    if mods.len() > 0 {
        lemma_apply_modifiers_len(msgs, mods.drop_last());
    }
}

/// Whether `t` is among `tokens`.
pub fn has_token(tokens: &Vec<Token>, t: Token) -> (found: bool)
    ensures
        found == tokens@.contains(t),
{
    let mut i: usize = 0;
    while i < tokens.len()
        invariant
            i <= tokens@.len(),
            forall|j: int| 0 <= j < i ==> tokens@[j] != t,
        decreases tokens@.len() - i,
    {
        if tokens[i] == t {
            return true;
        }
        i += 1;
    }
    false
}

/// A copy of `tokens`.
pub fn copy_tokens(tokens: &Vec<Token>) -> (out: Vec<Token>)
    ensures
        out@ == tokens@,
{
    let mut out: Vec<Token> = Vec::new();
    let mut i: usize = 0;
    while i < tokens.len()
        invariant
            i <= tokens@.len(),
            out@ == tokens@.take(i as int),
        decreases tokens@.len() - i,
    {
        out.push(tokens[i]);
        assert(out@ =~= tokens@.take(i + 1));
        i += 1;
    }
    assert(out@ =~= tokens@);
    out
}

impl HandshakePattern {
    /// The messages of the base pattern.
    pub fn messages(&self) -> (msgs: Vec<Vec<Token>>)
        ensures
            tokens_view(msgs) == base_messages(*self),
    {
        let msgs = match self {
            HandshakePattern::N => vec![vec![Token::E, Token::Dhes]],
            HandshakePattern::K => vec![vec![Token::E, Token::Dhes, Token::Dhss]],
            HandshakePattern::X => vec![vec![Token::E, Token::Dhes, Token::S, Token::Dhss]],
            HandshakePattern::NN => vec![vec![Token::E], vec![Token::E, Token::Dhee]],
            HandshakePattern::NK => vec![
                vec![Token::E, Token::Dhes],
                vec![Token::E, Token::Dhee],
            ],
            HandshakePattern::NX => vec![
                vec![Token::E],
                vec![Token::E, Token::Dhee, Token::S, Token::Dhes],
            ],
            HandshakePattern::XN => vec![
                vec![Token::E],
                vec![Token::E, Token::Dhee],
                vec![Token::S, Token::Dhse],
            ],
            HandshakePattern::XK => vec![
                vec![Token::E, Token::Dhes],
                vec![Token::E, Token::Dhee],
                vec![Token::S, Token::Dhse],
            ],
            HandshakePattern::XX => vec![
                vec![Token::E],
                vec![Token::E, Token::Dhee, Token::S, Token::Dhes],
                vec![Token::S, Token::Dhse],
            ],
            HandshakePattern::KN => vec![
                vec![Token::E],
                vec![Token::E, Token::Dhee, Token::Dhse],
            ],
            HandshakePattern::KK => vec![
                vec![Token::E, Token::Dhes, Token::Dhss],
                vec![Token::E, Token::Dhee, Token::Dhse],
            ],
            HandshakePattern::KX => vec![
                vec![Token::E],
                vec![Token::E, Token::Dhee, Token::Dhse, Token::S, Token::Dhes],
            ],
            HandshakePattern::IN => vec![
                vec![Token::E, Token::S],
                vec![Token::E, Token::Dhee, Token::Dhse],
            ],
            HandshakePattern::IK => vec![
                vec![Token::E, Token::Dhes, Token::S, Token::Dhss],
                vec![Token::E, Token::Dhee, Token::Dhse],
            ],
            HandshakePattern::IX => vec![
                vec![Token::E, Token::S],
                vec![Token::E, Token::Dhee, Token::Dhse, Token::S, Token::Dhes],
            ],
        };
        assert(tokens_view(msgs).len() == base_messages(*self).len());
        assert forall|i: int| 0 <= i < msgs@.len() implies tokens_view(msgs)[i] =~= base_messages(
            *self,
        )[i] by {}
        assert(tokens_view(msgs) =~= base_messages(*self));
        msgs
    }

    /// The number of messages of the base pattern: one, two or three.
    pub fn message_count(&self) -> (n: usize)
        ensures
            n == base_messages(*self).len(),
            1 <= n <= 3,
    {
        match self {
            HandshakePattern::N | HandshakePattern::K | HandshakePattern::X => 1,
            HandshakePattern::XN | HandshakePattern::XK | HandshakePattern::XX => 3,
            _ => 2,
        }
    }

    /// What the other side knows of this side's keys before the first
    /// message.
    pub fn premessage_tokens(&self, initiator: bool) -> (tokens: Vec<Token>)
        ensures
            tokens@ == premessage(*self, initiator),
    {
        let known = if initiator {
            match self {
                HandshakePattern::K | HandshakePattern::KN | HandshakePattern::KK
                | HandshakePattern::KX => true,
                _ => false,
            }
        } else {
            match self {
                HandshakePattern::N | HandshakePattern::K | HandshakePattern::X
                | HandshakePattern::NK | HandshakePattern::XK | HandshakePattern::KK
                | HandshakePattern::IK => true,
                _ => false,
            }
        };
        let mut tokens: Vec<Token> = Vec::new();
        if known {
            tokens.push(Token::S);
        }
        assert(tokens@ =~= premessage(*self, initiator));
        tokens
    }

    /// A pattern of a single message, after which only the initiator
    /// sends.
    pub open spec fn is_oneway_spec(self) -> bool {
        base_messages(self).len() == 1
    }

    /// Whether the pattern is one-way.
    pub fn is_oneway(&self) -> (b: bool)
        ensures
            b == self.is_oneway_spec(),
    {
        self.message_count() == 1
    }

    /// A side needs a static key of its own where the other side knows it
    /// beforehand or where the side sends it.
    pub open spec fn needs_local_static_key_spec(self, initiator: bool) -> bool {
        premessage(self, initiator).contains(Token::S) || sends_static(self, initiator)
    }

    /// Whether the side in the given role needs a static key of its own.
    pub fn needs_local_static_key(&self, initiator: bool) -> (b: bool)
        ensures
            b == self.needs_local_static_key_spec(initiator),
    {
        let pre = self.premessage_tokens(initiator);
        if has_token(&pre, Token::S) {
            return true;
        }
        let msgs = self.messages();
        let mut i: usize = 0;
        while i < msgs.len()
            invariant
                i <= msgs@.len(),
                tokens_view(msgs) == base_messages(*self),
                forall|j: int|
                    0 <= j < i && (j % 2 == 0) == initiator ==> !(#[trigger] base_messages(
                        *self,
                    )[j]).contains(Token::S),
            decreases msgs@.len() - i,
        {
            assert(tokens_view(msgs)[i as int] == msgs@[i as int]@);
            if (i % 2 == 0) == initiator && has_token(&msgs[i], Token::S) {
                return true;
            }
            i += 1;
        }
        false
    }

    /// A side must know the other's static key beforehand where the pattern
    /// lists it before the first message, so that it is never sent.
    pub open spec fn need_known_remote_pubkey_spec(self, initiator: bool) -> bool {
        premessage(self, !initiator).contains(Token::S)
    }

    /// Whether the side in the given role must know the other side's
    /// static key before the handshake starts.
    pub fn need_known_remote_pubkey(&self, initiator: bool) -> (b: bool)
        ensures
            b == self.need_known_remote_pubkey_spec(initiator),
    {
        let pre = self.premessage_tokens(!initiator);
        has_token(&pre, Token::S)
    }
}

impl HandshakeModifierList {
    /// Whether a pre-shared key is among the modifiers.
    pub open spec fn is_psk_spec(mods: Seq<HandshakeModifier>) -> bool {
        exists|i: int| 0 <= i < mods.len() && #[trigger] mods[i] is Psk
    }
}

impl HandshakeChoice {
    /// Whether the handshake uses a pre-shared key.
    pub fn is_psk(&self) -> (b: bool)
        ensures
            b == HandshakeModifierList::is_psk_spec(self.modifiers.list@),
    {
        let mut i: usize = 0;
        while i < self.modifiers.list.len()
            invariant
                i <= self.modifiers.list@.len(),
                forall|j: int| 0 <= j < i ==> !(#[trigger] self.modifiers.list@[j] is Psk),
            decreases self.modifiers.list@.len() - i,
        {
            match self.modifiers.list[i] {
                HandshakeModifier::Psk(_) => {
                    return true;
                },
                HandshakeModifier::Fallback => {},
            }
            i += 1;
        }
        false
    }
}

/// The tokens of a handshake: those of the base pattern, with a token for
/// each pre-shared key that the modifiers name.
pub fn resolve_handshake_pattern(handshake: &HandshakeChoice) -> (tokens: HandshakeTokens)
    ensures
        tokens.premsg_pattern_i@ == premessage(handshake.pattern, true),
        tokens.premsg_pattern_r@ == premessage(handshake.pattern, false),
        tokens_view(tokens.msg_patterns) == message_patterns(
            handshake.pattern,
            handshake.modifiers.list@,
        ),
        tokens.msg_patterns@.len() == base_messages(handshake.pattern).len(),
{
    proof {
        lemma_apply_modifiers_len(base_messages(handshake.pattern), handshake.modifiers.list@);
    }
    let mut msgs = handshake.pattern.messages();
    let ghost mods = handshake.modifiers.list@;
    let mut i: usize = 0;
    assert(mods.take(0) =~= Seq::<HandshakeModifier>::empty());
    while i < handshake.modifiers.list.len()
        invariant
            i <= mods.len(),
            mods == handshake.modifiers.list@,
            tokens_view(msgs) == apply_modifiers(
                base_messages(handshake.pattern),
                mods.take(i as int),
            ),
        decreases mods.len() - i,
    {
        let ghost before = tokens_view(msgs);
        proof {
            assert(mods.take(i + 1).drop_last() =~= mods.take(i as int));
            assert(mods.take(i + 1).last() == mods[i as int]);
        }
        match handshake.modifiers.list[i] {
            HandshakeModifier::Psk(n) => {
                let at = n as usize;
                if msgs.len() == 0 || at > msgs.len() {
                } else if at == 0 {
                    let mut first: Vec<Token> = Vec::new();
                    first.push(Token::Psk(n));
                    let mut rest = copy_tokens(&msgs[0]);
                    first.append(&mut rest);
                    assert(before[0] == msgs@[0]@);
                    assert(first@ =~= seq![Token::Psk(n)] + before[0]);
                    msgs.set(0, first);
                    assert(tokens_view(msgs) =~= before.update(0, first@));
                } else {
                    let mut longer = copy_tokens(&msgs[at - 1]);
                    longer.push(Token::Psk(n));
                    assert(before[at - 1] == msgs@[at - 1]@);
                    msgs.set(at - 1, longer);
                    assert(tokens_view(msgs) =~= before.update(at - 1, longer@));
                }
            },
            HandshakeModifier::Fallback => {},
        }
        i += 1;
    }
    assert(mods.take(mods.len() as int) =~= mods);
    HandshakeTokens {
        premsg_pattern_i: handshake.pattern.premessage_tokens(true),
        premsg_pattern_r: handshake.pattern.premessage_tokens(false),
        msg_patterns: msgs,
    }
}

} // verus!
