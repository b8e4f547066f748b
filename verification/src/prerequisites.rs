//! The keys that the builder asks for are the keys that the handshake
//! needs: between parties that were built with them, no message is refused
//! for want of a key.

use vstd::prelude::*;
use crate::agreement::{
    cipher_sound, dh_sound, law_built_parties_on_course, lemma_message_agreement,
    lemma_token_agreement, lemma_tokens_agreement, lemma_write_prefix, matching, on_course,
    paired, uses_writer_static,
};
use crate::error::{ErrorKind, StateProblem};
use crate::noise::{build_outcome, BuilderModel, CryptoResolver};
use crate::patterns::{
    apply_modifiers, base_messages, message_patterns, premessage, sends_static,
    HandshakeModifier, HandshakePattern, Token,
};
use crate::protocol::{
    dh_keys, finished, my_turn, patterns, read_from, read_message_spec, read_token, write_from,
    write_message_spec, write_token, HandshakeModel,
};
use crate::symmetricstate::sym_encrypt_and_hash;
use crate::types::Dh;

verus! {

/// Which keys the two parties hold for certain: the static and the
/// ephemeral key of each, and each party's copy of the other's static key.
pub struct Held {
    pub i_s: bool,
    pub r_s: bool,
    pub i_e: bool,
    pub r_e: bool,
    pub i_rs: bool,
    pub r_rs: bool,
}

/// The initiator `i` and the responder `r` hold at least the keys that `h`
/// lists.
pub open spec fn holds(h: Held, i: HandshakeModel, r: HandshakeModel) -> bool {
    &&& h.i_s ==> i.s is Some
    &&& h.r_s ==> r.s is Some
    &&& h.i_e ==> i.e is Some
    &&& h.r_e ==> r.e is Some
    &&& h.i_rs ==> i.rs is Some
    &&& h.r_rs ==> r.rs is Some
}

/// The keys listed are enough for the token, for the party that writes it
/// and the party that reads it. `wi` says whether the initiator writes.
pub open spec fn token_served(t: Token, h: Held, wi: bool) -> bool {
    match t {
        Token::S => if wi {
            h.i_s
        } else {
            h.r_s
        },
        Token::Dhee => h.i_e && h.r_e,
        Token::Dhes => h.i_e && h.i_rs,
        Token::Dhse => h.r_e && h.r_rs,
        Token::Dhss => h.i_rs && h.r_rs,
        _ => true,
    }
}

/// The keys held after the token: an ephemeral key is then held by its
/// writer, a static key that was sent by its reader.
pub open spec fn token_gives(t: Token, h: Held, wi: bool) -> Held {
    match t {
        Token::E => if wi {
            Held { i_e: true, ..h }
        } else {
            Held { r_e: true, ..h }
        },
        Token::S => if wi {
            Held { r_rs: true, ..h }
        } else {
            Held { i_rs: true, ..h }
        },
        _ => h,
    }
}

/// The keys listed, with what the tokens themselves bring, are enough for
/// every token from index `i` on.
pub open spec fn tokens_served(tokens: Seq<Token>, i: nat, wi: bool, h: Held) -> bool
    decreases tokens.len() - i,
{
    if i >= tokens.len() {
        true
    } else {
        token_served(tokens[i as int], h, wi) && tokens_served(
            tokens,
            i + 1,
            wi,
            token_gives(tokens[i as int], h, wi),
        )
    }
}

/// The keys held after the tokens from index `i` on.
pub open spec fn tokens_give(tokens: Seq<Token>, i: nat, wi: bool, h: Held) -> Held
    decreases tokens.len() - i,
{
    if i >= tokens.len() {
        h
    } else {
        tokens_give(tokens, i + 1, wi, token_gives(tokens[i as int], h, wi))
    }
}

/// The keys listed are enough for every message from index `n` on.
pub open spec fn course_served(msgs: Seq<Seq<Token>>, n: nat, h: Held) -> bool
    decreases msgs.len() - n,
{
    if n >= msgs.len() {
        true
    } else {
        tokens_served(msgs[n as int], 0, n % 2 == 0, h) && course_served(
            msgs,
            n + 1,
            tokens_give(msgs[n as int], 0, n % 2 == 0, h),
        )
    }
}

/// The initiator among a writer and a reader.
pub open spec fn initiator_of(w: HandshakeModel, r: HandshakeModel) -> HandshakeModel {
    if w.initiator {
        w
    } else {
        r
    }
}

/// The responder among a writer and a reader.
pub open spec fn responder_of(w: HandshakeModel, r: HandshakeModel) -> HandshakeModel {
    if w.initiator {
        r
    } else {
        w
    }
}

/// A token that is served is not refused for want of a key, and where it
/// is written the reader reads it and the two then hold what the token
/// gives.
pub proof fn lemma_token_served<D: Dh>(
    w: HandshakeModel,
    r: HandshakeModel,
    t: Token,
    fresh: Seq<u8>,
    h: Held,
)
    requires
        paired::<D>(w, r),
        dh_sound::<D>(w.params.dh),
        cipher_sound(w.sym.cipher.choice),
        holds(h, initiator_of(w, r), responder_of(w, r)),
        token_served(t, h, w.initiator),
    ensures
        write_token::<D>(w, t, fresh) != Err::<(HandshakeModel, Seq<u8>), ErrorKind>(
            ErrorKind::State(StateProblem::MissingKeyMaterial),
        ),
        write_token::<D>(w, t, fresh) is Ok ==> {
            let w2 = write_token::<D>(w, t, fresh)->Ok_0.0;
            let out = write_token::<D>(w, t, fresh)->Ok_0.1;
            &&& read_token::<D>(r, t, out) is Ok
            &&& paired::<D>(w2, read_token::<D>(r, t, out)->Ok_0)
            &&& holds(
                token_gives(t, h, w.initiator),
                initiator_of(w2, read_token::<D>(r, t, out)->Ok_0),
                responder_of(w2, read_token::<D>(r, t, out)->Ok_0),
            )
            &&& w2.initiator == w.initiator
            &&& w2.params == w.params
            &&& w2.sym.cipher.choice == w.sym.cipher.choice
        },
{
    let keys = dh_keys(w, t);
    match t {
        Token::Dhee | Token::Dhes | Token::Dhse | Token::Dhss => {
            assert(keys.0 is Some && keys.1 is Some);
        },
        _ => {},
    }
    if write_token::<D>(w, t, fresh) is Ok {
        assert(uses_writer_static(t, w.initiator) ==> r.rs is Some);
        lemma_token_agreement::<D>(w, r, t, fresh);
    }
}

/// Tokens that are served are not refused for want of a key.
pub proof fn lemma_tokens_served<D: Dh>(
    w: HandshakeModel,
    r: HandshakeModel,
    tokens: Seq<Token>,
    i: nat,
    fresh: Seq<u8>,
    acc: Seq<u8>,
    h: Held,
)
    requires
        paired::<D>(w, r),
        dh_sound::<D>(w.params.dh),
        cipher_sound(w.sym.cipher.choice),
        holds(h, initiator_of(w, r), responder_of(w, r)),
        tokens_served(tokens, i, w.initiator, h),
    ensures
        write_from::<D>(w, tokens, i, fresh, acc) != Err::<(HandshakeModel, Seq<u8>), ErrorKind>(
            ErrorKind::State(StateProblem::MissingKeyMaterial),
        ),
    decreases tokens.len() - i,
{
    if i < tokens.len() {
        let t = tokens[i as int];
        lemma_token_served::<D>(w, r, t, fresh, h);
        let step = write_token::<D>(w, t, fresh);
        if step is Ok {
            let w2 = step->Ok_0.0;
            let out = step->Ok_0.1;
            let r2 = read_token::<D>(r, t, out)->Ok_0;
            lemma_tokens_served::<D>(
                w2,
                r2,
                tokens,
                i + 1,
                fresh,
                acc + out,
                token_gives(t, h, w.initiator),
            );
        }
    }
}

/// After the tokens of a message are written by one party and read by the
/// other, the two hold what the tokens give.
pub proof fn lemma_tokens_give<D: Dh>(
    w: HandshakeModel,
    r: HandshakeModel,
    tokens: Seq<Token>,
    i: nat,
    fresh: Seq<u8>,
    acc: Seq<u8>,
    message: Seq<u8>,
    h: Held,
)
    requires
        paired::<D>(w, r),
        dh_sound::<D>(w.params.dh),
        cipher_sound(w.sym.cipher.choice),
        holds(h, initiator_of(w, r), responder_of(w, r)),
        tokens_served(tokens, i, w.initiator, h),
        write_from::<D>(w, tokens, i, fresh, acc) is Ok,
        write_from::<D>(w, tokens, i, fresh, acc)->Ok_0.1.len() <= message.len(),
        message.take(write_from::<D>(w, tokens, i, fresh, acc)->Ok_0.1.len() as int)
            == write_from::<D>(w, tokens, i, fresh, acc)->Ok_0.1,
    ensures
        read_from::<D>(r, tokens, i, message, acc.len()) is Ok,
        holds(
            tokens_give(tokens, i, w.initiator, h),
            initiator_of(
                write_from::<D>(w, tokens, i, fresh, acc)->Ok_0.0,
                read_from::<D>(r, tokens, i, message, acc.len())->Ok_0.0,
            ),
            responder_of(
                write_from::<D>(w, tokens, i, fresh, acc)->Ok_0.0,
                read_from::<D>(r, tokens, i, message, acc.len())->Ok_0.0,
            ),
        ),
    decreases tokens.len() - i,
{
    lemma_served_is_ready(tokens, i, w.initiator, h, r.rs is Some);
    lemma_tokens_agreement::<D>(w, r, tokens, i, fresh, acc, message);
    if i < tokens.len() {
        let t = tokens[i as int];
        lemma_token_served::<D>(w, r, t, fresh, h);
        let step = write_token::<D>(w, t, fresh);
        assert(step is Ok);
        let w2 = step->Ok_0.0;
        let out = step->Ok_0.1;
        let r2 = read_token::<D>(r, t, out)->Ok_0;
        assert((acc + out).len() == acc.len() + out.len());
        lemma_tokens_give::<D>(
            w2,
            r2,
            tokens,
            i + 1,
            fresh,
            acc + out,
            message,
            token_gives(t, h, w.initiator),
        );
    }
}

/// Where the keys listed serve the tokens, the reader has the writer's
/// static key in time for every token that combines it.
pub proof fn lemma_served_is_ready(tokens: Seq<Token>, i: nat, wi: bool, h: Held, known: bool)
    requires
        tokens_served(tokens, i, wi, h),
        (if wi {
            h.r_rs
        } else {
            h.i_rs
        }) ==> known,
    ensures
        crate::agreement::reader_ready(tokens, i, wi, known),
    decreases tokens.len() - i,
{
    if i < tokens.len() {
        let t = tokens[i as int];
        if t == Token::S {
            lemma_served_is_ready(tokens, i + 1, wi, token_gives(t, h, wi), true);
        } else {
            lemma_served_is_ready(tokens, i + 1, wi, token_gives(t, h, wi), known);
        }
    }
}

/// The initiator `i` and the responder `r` hold keys that are enough for
/// what is left of the handshake.
pub open spec fn provisioned(i: HandshakeModel, r: HandshakeModel) -> bool {
    exists|h: Held| holds(h, i, r) && #[trigger] course_served(patterns(i), i.position, h)
}

/// The law of the prerequisites. Between parties on course that hold
/// enough keys, no message is refused for want of a key; and once the
/// message is written and read, the parties again hold enough keys.
pub proof fn law_keys_suffice<D: Dh>(
    i: HandshakeModel,
    r: HandshakeModel,
    payload: Seq<u8>,
    fresh: Seq<u8>,
    room: nat,
    reader_room: nat,
)
    requires
        on_course::<D>(i, r),
        provisioned(i, r),
        dh_sound::<D>(i.params.dh),
        cipher_sound(i.sym.cipher.choice),
        payload.len() <= reader_room,
    ensures
        ({
            let w = if my_turn(i) { i } else { r };
            let rd = if my_turn(i) { r } else { i };
            let written = write_message_spec::<D>(w, payload, fresh, room);
            &&& written != Err::<(HandshakeModel, Seq<u8>), ErrorKind>(
                ErrorKind::State(StateProblem::MissingKeyMaterial),
            )
            &&& written is Ok ==> {
                let read = read_message_spec::<D>(rd, written->Ok_0.1, reader_room);
                &&& read is Ok
                &&& provisioned(
                    if my_turn(i) { written->Ok_0.0 } else { read->Ok_0.0 },
                    if my_turn(i) { read->Ok_0.0 } else { written->Ok_0.0 },
                )
            }
        }),
{
    let w = if my_turn(i) { i } else { r };
    let rd = if my_turn(i) { r } else { i };
    let written = write_message_spec::<D>(w, payload, fresh, room);
    if finished(i) {
    } else {
        let h = choose|h: Held| holds(h, i, r) && #[trigger] course_served(
            patterns(i),
            i.position,
            h,
        );
        let tokens = patterns(i)[i.position as int];
        let empty = Seq::<u8>::empty();
        assert(patterns(w) == patterns(i));
        assert(w.position == i.position);
        assert(w.initiator == (i.position % 2 == 0));
        assert(initiator_of(w, rd) == i && responder_of(w, rd) == r);
        assert(tokens_served(tokens, 0, w.initiator, h));
        if !my_turn(i) {
            assert(paired::<D>(r, i));
        }
        lemma_tokens_served::<D>(w, rd, tokens, 0, fresh, empty, h);
        if written is Ok {
            let parts = write_from::<D>(w, tokens, 0, fresh, empty);
            let head = parts->Ok_0.1;
            let tail = sym_encrypt_and_hash(parts->Ok_0.0.sym, payload)->Ok_0.1;
            let message = head + tail;
            assert(message.take(head.len() as int) =~= head);
            lemma_write_prefix::<D>(w, tokens, 0, fresh, empty);
            lemma_served_is_ready(tokens, 0, w.initiator, h, rd.rs is Some);
            lemma_message_agreement::<D>(w, rd, payload, fresh, room, reader_room);
            lemma_tokens_give::<D>(w, rd, tokens, 0, fresh, empty, message, h);
            let read = read_message_spec::<D>(rd, written->Ok_0.1, reader_room);
            let after = tokens_give(tokens, 0, w.initiator, h);
            let i2 = if my_turn(i) { written->Ok_0.0 } else { read->Ok_0.0 };
            let r2 = if my_turn(i) { read->Ok_0.0 } else { written->Ok_0.0 };
            assert(written->Ok_0.1 == message);
            assert(holds(after, i2, r2));
            assert(patterns(i2) == patterns(i));
            assert(i2.position == i.position + 1);
            assert(course_served(patterns(i2), i2.position, after));
        }
    }
}

/// Two token lists are served by the same keys and give the same keys.
pub open spec fn same_service(a: Seq<Token>, b: Seq<Token>) -> bool {
    forall|wi: bool, h: Held|
        #![trigger tokens_served(a, 0, wi, h)]
        #![trigger tokens_give(a, 0, wi, h)]
        tokens_served(a, 0, wi, h) == tokens_served(b, 0, wi, h) && tokens_give(a, 0, wi, h)
            == tokens_give(b, 0, wi, h)
}

proof fn lemma_shift(x: Token, tokens: Seq<Token>, i: nat, wi: bool, h: Held)
    ensures
        tokens_served(seq![x] + tokens, i + 1, wi, h) == tokens_served(tokens, i, wi, h),
        tokens_give(seq![x] + tokens, i + 1, wi, h) == tokens_give(tokens, i, wi, h),
    decreases tokens.len() - i,
{
    let longer = seq![x] + tokens;
    assert(longer.len() == tokens.len() + 1);
    if i < tokens.len() {
        assert(longer[i as int + 1] == tokens[i as int]);
        lemma_shift(x, tokens, i + 1, wi, token_gives(tokens[i as int], h, wi));
    }
}

proof fn lemma_push(tokens: Seq<Token>, n: u8, i: nat, wi: bool, h: Held)
    requires
        i <= tokens.len(),
    ensures
        tokens_served(tokens.push(Token::Psk(n)), i, wi, h) == tokens_served(tokens, i, wi, h),
        tokens_give(tokens.push(Token::Psk(n)), i, wi, h) == tokens_give(tokens, i, wi, h),
    decreases tokens.len() - i,
{
    let longer = tokens.push(Token::Psk(n));
    if i < tokens.len() {
        assert(longer[i as int] == tokens[i as int]);
        lemma_push(tokens, n, i + 1, wi, token_gives(tokens[i as int], h, wi));
    } else {
        assert(longer[i as int] == Token::Psk(n));
        assert(tokens_served(longer, i + 1, wi, h));
        assert(tokens_give(longer, i + 1, wi, h) == h);
    }
}

/// A token for a pre-shared key, at the front or at the back, asks for no
/// key and gives none.
pub proof fn lemma_psk_same_service(tokens: Seq<Token>, n: u8)
    ensures
        same_service(seq![Token::Psk(n)] + tokens, tokens),
        same_service(tokens.push(Token::Psk(n)), tokens),
{
    let front = seq![Token::Psk(n)] + tokens;
    assert(front[0] == Token::Psk(n));
    assert forall|wi: bool, h: Held|
        #![trigger tokens_served(front, 0, wi, h)]
        #![trigger tokens_give(front, 0, wi, h)]
        tokens_served(front, 0, wi, h) == tokens_served(tokens, 0, wi, h) && tokens_give(
            front,
            0,
            wi,
            h,
        ) == tokens_give(tokens, 0, wi, h) by {
        lemma_shift(Token::Psk(n), tokens, 0, wi, h);
    }
    let back = tokens.push(Token::Psk(n));
    assert forall|wi: bool, h: Held|
        #![trigger tokens_served(back, 0, wi, h)]
        #![trigger tokens_give(back, 0, wi, h)]
        tokens_served(back, 0, wi, h) == tokens_served(tokens, 0, wi, h) && tokens_give(
            back,
            0,
            wi,
            h,
        ) == tokens_give(tokens, 0, wi, h) by {
        lemma_push(tokens, n, 0, wi, h);
    }
}

/// Replacing a message by one of the same service changes nothing.
pub proof fn lemma_update_served(
    msgs: Seq<Seq<Token>>,
    j: int,
    tokens: Seq<Token>,
    n: nat,
    h: Held,
)
    requires
        0 <= j < msgs.len(),
        same_service(tokens, msgs[j]),
    ensures
        course_served(msgs.update(j, tokens), n, h) == course_served(msgs, n, h),
    decreases msgs.len() - n,
{
    let changed = msgs.update(j, tokens);
    if n < msgs.len() {
        let wi = n % 2 == 0;
        assert(tokens_served(changed[n as int], 0, wi, h) == tokens_served(
            msgs[n as int],
            0,
            wi,
            h,
        )) by {
            if n == j {
                assert(tokens_served(tokens, 0, wi, h) == tokens_served(msgs[j], 0, wi, h));
            }
        }
        assert(tokens_give(changed[n as int], 0, wi, h) == tokens_give(msgs[n as int], 0, wi, h))
            by {
            if n == j {
                assert(tokens_give(tokens, 0, wi, h) == tokens_give(msgs[j], 0, wi, h));
            }
        }
        lemma_update_served(msgs, j, tokens, n + 1, tokens_give(msgs[n as int], 0, wi, h));
    }
}

/// Modifiers ask for no key.
pub proof fn lemma_modifiers_served(msgs: Seq<Seq<Token>>, mods: Seq<HandshakeModifier>, h: Held)
    ensures
        course_served(apply_modifiers(msgs, mods), 0, h) == course_served(msgs, 0, h),
    decreases mods.len(),
{
    if mods.len() > 0 {
        lemma_modifiers_served(msgs, mods.drop_last(), h);
        let before = apply_modifiers(msgs, mods.drop_last());
        match mods.last() {
            HandshakeModifier::Psk(n) => {
                if before.len() == 0 || n > before.len() {
                } else if n == 0 {
                    lemma_psk_same_service(before[0], n);
                    lemma_update_served(before, 0, seq![Token::Psk(n)] + before[0], 0, h);
                } else {
                    lemma_psk_same_service(before[n - 1], n);
                    lemma_update_served(
                        before,
                        n - 1,
                        before[n - 1].push(Token::Psk(n)),
                        0,
                        h,
                    );
                }
            },
            HandshakeModifier::Fallback => {},
        }
    }
}

/// The keys with which a handshake of the pattern begins: a static key for
/// each party that sends one or whose key is known beforehand, and the
/// copies that are known beforehand.
pub open spec fn start_held(p: HandshakePattern) -> Held {
    Held {
        i_s: match p {
            HandshakePattern::N | HandshakePattern::NN | HandshakePattern::NK
            | HandshakePattern::NX => false,
            _ => true,
        },
        r_s: match p {
            HandshakePattern::NN | HandshakePattern::XN | HandshakePattern::KN
            | HandshakePattern::IN => false,
            _ => true,
        },
        i_e: false,
        r_e: false,
        i_rs: premessage(p, false).len() == 1,
        r_rs: premessage(p, true).len() == 1,
    }
}

/// In every base pattern the keys of the start are enough.
pub proof fn lemma_base_patterns_served(p: HandshakePattern)
    ensures
        course_served(base_messages(p), 0, start_held(p)),
{
    reveal_with_fuel(tokens_served, 7);
    reveal_with_fuel(tokens_give, 7);
    reveal_with_fuel(course_served, 5);
    match p {
        HandshakePattern::N => {},
        HandshakePattern::K => {},
        HandshakePattern::X => {},
        HandshakePattern::NN => {},
        HandshakePattern::NK => {},
        HandshakePattern::NX => {},
        HandshakePattern::XN => {},
        HandshakePattern::XK => {},
        HandshakePattern::XX => {},
        HandshakePattern::KN => {},
        HandshakePattern::KK => {},
        HandshakePattern::KX => {},
        HandshakePattern::IN => {},
        HandshakePattern::IK => {},
        HandshakePattern::IX => {},
    }
}

/// The keys of the start are keys that the builder asks for.
pub proof fn lemma_start_held_is_asked(p: HandshakePattern)
    ensures
        start_held(p).i_s ==> p.needs_local_static_key_spec(true),
        start_held(p).r_s ==> p.needs_local_static_key_spec(false),
        start_held(p).i_rs ==> p.need_known_remote_pubkey_spec(true),
        start_held(p).r_rs ==> p.need_known_remote_pubkey_spec(false),
{
    let msgs = base_messages(p);
    let pre_i = premessage(p, true);
    let pre_r = premessage(p, false);
    if pre_i.len() == 1 {
        assert(pre_i[0] == Token::S);
    }
    if pre_r.len() == 1 {
        assert(pre_r[0] == Token::S);
    }
    if start_held(p).i_s && pre_i.len() != 1 {
        match p {
            HandshakePattern::X | HandshakePattern::IK => {
                assert(msgs[0][2] == Token::S);
                assert(msgs[0].contains(Token::S));
            },
            HandshakePattern::IN | HandshakePattern::IX => {
                assert(msgs[0][1] == Token::S);
                assert(msgs[0].contains(Token::S));
            },
            _ => {
                assert(msgs[2][0] == Token::S);
                assert(msgs[2].contains(Token::S));
            },
        }
        assert(sends_static(p, true));
    }
    if start_held(p).r_s && pre_r.len() != 1 {
        match p {
            HandshakePattern::NX | HandshakePattern::XX => {
                assert(msgs[1][2] == Token::S);
            },
            _ => {
                assert(msgs[1][3] == Token::S);
            },
        }
        assert(msgs[1].contains(Token::S));
        assert(sends_static(p, false));
    }
}

/// An initiator and a responder that are built from matching material
/// hold enough keys for the whole handshake.
pub proof fn law_built_parties_provisioned<R: CryptoResolver>(
    a: BuilderModel,
    b: BuilderModel,
    initiator_resolver: R,
    responder_resolver: R,
)
    requires
        matching::<R::Dh>(a, b),
        build_outcome::<R>(a, initiator_resolver, true) is Ok,
        build_outcome::<R>(b, responder_resolver, false) is Ok,
    ensures
        on_course::<R::Dh>(
            build_outcome::<R>(a, initiator_resolver, true)->Ok_0,
            build_outcome::<R>(b, responder_resolver, false)->Ok_0,
        ),
        provisioned(
            build_outcome::<R>(a, initiator_resolver, true)->Ok_0,
            build_outcome::<R>(b, responder_resolver, false)->Ok_0,
        ),
{
    law_built_parties_on_course::<R>(a, b, initiator_resolver, responder_resolver);
    let i = build_outcome::<R>(a, initiator_resolver, true)->Ok_0;
    let r = build_outcome::<R>(b, responder_resolver, false)->Ok_0;
    let p = a.params.pattern;
    let h = start_held(p);
    lemma_start_held_is_asked(p);
    lemma_base_patterns_served(p);
    lemma_modifiers_served(base_messages(p), a.params.modifiers, h);
    assert(patterns(i) == message_patterns(p, a.params.modifiers));
    assert(holds(h, i, r));
    assert(course_served(patterns(i), i.position, h));
}

} // verus!
