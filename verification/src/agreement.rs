//! The two parties of a handshake stay in step: what one writes the other
//! reads, and at the end both hold the same transport keys.
//!
//! This rests on two properties of the primitives, which are stated here as
//! conditions: a cipher opens what it sealed, and a key agreement gives both
//! sides the same secret.

use vstd::prelude::*;
use crate::cipherstate::{encrypt_spec, CipherModel};
use crate::constants::TAGLEN;
use crate::error::ErrorKind;
use crate::noise::{build_outcome, BuilderModel, CryptoResolver};
use crate::params::{CipherChoice, DHChoice};
use crate::patterns::{
    apply_modifiers, base_messages, message_patterns, premessage, HandshakeModifier,
    HandshakePattern, Token,
};
use crate::protocol::{
    dh_keys, finished, handshake_start, my_turn, patterns, read_from, read_message_spec,
    read_token, token_len, write_from, write_message_spec, write_token, HandshakeModel,
};
use crate::session::{transport_of, transport_read, transport_write, TransportModel};
use crate::symmetricstate::{sym_decrypt_and_hash, sym_encrypt_and_hash, SymmetricModel};
use crate::types::{dh_len_spec, open_spec, seal_spec, Dh};

verus! {

/// The cipher adds a tag to what it seals and opens it again to the same
/// text.
pub open spec fn cipher_sound(c: CipherChoice) -> bool {
    forall|k: Seq<u8>, n: u64, ad: Seq<u8>, pt: Seq<u8>|
        #![trigger seal_spec(c, k, n, ad, pt)]
        seal_spec(c, k, n, ad, pt).len() == pt.len() + TAGLEN && open_spec(
            c,
            k,
            n,
            ad,
            seal_spec(c, k, n, ad, pt),
        ) == Some(pt)
}

/// Public keys have the length of the key agreement, and two parties that
/// know each other's public key compute the same secret.
pub open spec fn dh_sound<D: Dh>(c: DHChoice) -> bool {
    &&& forall|a: Seq<u8>| (#[trigger] D::pubkey_of(c, a)).len() == dh_len_spec(c)
    &&& forall|a: Seq<u8>, b: Seq<u8>| #[trigger]
        D::shared_of(c, a, D::pubkey_of(c, b)) == D::shared_of(c, b, D::pubkey_of(c, a))
}

/// A public key that one party holds is the public key of the private key
/// that the other holds.
pub open spec fn knows<D: Dh>(c: DHChoice, public: Option<Seq<u8>>, private: Option<Seq<u8>>)
    -> bool {
    public is Some ==> private is Some && public->0 == D::pubkey_of(c, private->0)
}

/// Two parties of one handshake at the same point: one is the initiator and
/// the other the responder of the same descriptor, their symmetric states,
/// pre-shared keys and transport cipher states are equal, each public key
/// that one holds belongs to the other, and each ephemeral key in use is
/// known to the other party.
pub open spec fn paired<D: Dh>(a: HandshakeModel, b: HandshakeModel) -> bool {
    &&& a.params == b.params
    &&& a.initiator != b.initiator
    &&& a.sym == b.sym
    &&& a.psks == b.psks
    &&& a.position == b.position
    &&& a.transport == b.transport
    &&& knows::<D>(a.params.dh, a.rs, b.s)
    &&& knows::<D>(a.params.dh, a.re, b.e)
    &&& knows::<D>(a.params.dh, b.rs, a.s)
    &&& knows::<D>(a.params.dh, b.re, a.e)
    &&& a.e is Some ==> b.re is Some
    &&& b.e is Some ==> a.re is Some
}

/// The token combines the static key of the party that writes it.
pub open spec fn uses_writer_static(t: Token, writer_initiator: bool) -> bool {
    match t {
        Token::Dhss => true,
        Token::Dhse => writer_initiator,
        Token::Dhes => !writer_initiator,
        _ => false,
    }
}

/// The reader knows, or learns in time, the writer's static key for every
/// token from index `i` on that combines it. `known` says whether the
/// reader knows it before token `i`.
pub open spec fn reader_ready(tokens: Seq<Token>, i: nat, writer_initiator: bool, known: bool)
    -> bool
    decreases tokens.len() - i,
{
    if i >= tokens.len() {
        true
    } else if tokens[i as int] == Token::S {
        reader_ready(tokens, i + 1, writer_initiator, true)
    } else {
        (uses_writer_static(tokens[i as int], writer_initiator) ==> known) && reader_ready(
            tokens,
            i + 1,
            writer_initiator,
            known,
        )
    }
}

/// What was encrypted and folded into the running hash decrypts, from the
/// same state, to the same text and the same state.
pub proof fn lemma_sym_round_trip(m: SymmetricModel, plaintext: Seq<u8>)
    requires
        cipher_sound(m.cipher.choice),
        sym_encrypt_and_hash(m, plaintext) is Ok,
    ensures
        sym_decrypt_and_hash(m, sym_encrypt_and_hash(m, plaintext)->Ok_0.1) == Ok::<
            (SymmetricModel, Seq<u8>),
            ErrorKind,
        >((sym_encrypt_and_hash(m, plaintext)->Ok_0.0, plaintext)),
        sym_encrypt_and_hash(m, plaintext)->Ok_0.1.len() == if m.cipher.key is Some {
            plaintext.len() + TAGLEN
        } else {
            plaintext.len() as int
        },
{
    if m.cipher.key is Some {
        let sealed = seal_spec(m.cipher.choice, m.cipher.key->0, m.cipher.n, m.h, plaintext);
        assert(sealed.len() == plaintext.len() + TAGLEN);
        assert(open_spec(m.cipher.choice, m.cipher.key->0, m.cipher.n, m.h, sealed) == Some(
            plaintext,
        ));
    }
}

/// What one party writes for a token, the other reads to the same effect,
/// provided the reader knows the writer's static key where the token
/// combines it.
pub proof fn lemma_token_agreement<D: Dh>(
    w: HandshakeModel,
    r: HandshakeModel,
    t: Token,
    fresh: Seq<u8>,
)
    requires
        paired::<D>(w, r),
        dh_sound::<D>(w.params.dh),
        cipher_sound(w.sym.cipher.choice),
        write_token::<D>(w, t, fresh) is Ok,
        uses_writer_static(t, w.initiator) ==> r.rs is Some,
    ensures
        write_token::<D>(w, t, fresh)->Ok_0.1.len() == token_len(r, t),
        read_token::<D>(r, t, write_token::<D>(w, t, fresh)->Ok_0.1) is Ok,
        paired::<D>(
            write_token::<D>(w, t, fresh)->Ok_0.0,
            read_token::<D>(r, t, write_token::<D>(w, t, fresh)->Ok_0.1)->Ok_0,
        ),
        read_token::<D>(r, t, write_token::<D>(w, t, fresh)->Ok_0.1)->Ok_0.rs is Some == (r.rs
            is Some || t == Token::S),
{
    let c = w.params.dh;
    match t {
        Token::E => {},
        Token::S => {
            lemma_sym_round_trip(w.sym, D::pubkey_of(c, w.s->0));
        },
        Token::Psk(n) => {},
        _ => {
            let wk = dh_keys(w, t);
            let rk = dh_keys(r, t);
            assert(wk.0 is Some && wk.1 is Some);
            assert(rk.0 is Some && rk.1 is Some);
            assert(wk.1->0 == D::pubkey_of(c, rk.0->0));
            assert(rk.1->0 == D::pubkey_of(c, wk.0->0));
            assert(D::shared_of(c, wk.0->0, D::pubkey_of(c, rk.0->0)) == D::shared_of(
                c,
                rk.0->0,
                D::pubkey_of(c, wk.0->0),
            ));
        },
    }
}

/// Writing tokens only appends to what was written before.
pub proof fn lemma_write_prefix<D: Dh>(
    w: HandshakeModel,
    tokens: Seq<Token>,
    i: nat,
    fresh: Seq<u8>,
    acc: Seq<u8>,
)
    requires
        write_from::<D>(w, tokens, i, fresh, acc) is Ok,
    ensures
        write_from::<D>(w, tokens, i, fresh, acc)->Ok_0.1.len() >= acc.len(),
        write_from::<D>(w, tokens, i, fresh, acc)->Ok_0.1.take(acc.len() as int) == acc,
        write_from::<D>(w, tokens, i, fresh, acc)->Ok_0.0.initiator == w.initiator,
        write_from::<D>(w, tokens, i, fresh, acc)->Ok_0.0.params == w.params,
        write_from::<D>(w, tokens, i, fresh, acc)->Ok_0.0.position == w.position,
        write_from::<D>(w, tokens, i, fresh, acc)->Ok_0.0.transport == w.transport,
        write_from::<D>(w, tokens, i, fresh, acc)->Ok_0.0.rs == w.rs,
    decreases tokens.len() - i,
{
    if i >= tokens.len() {
        assert(acc.take(acc.len() as int) =~= acc);
    } else {
        let step = write_token::<D>(w, tokens[i as int], fresh);
        assert(step is Ok);
        let next = step->Ok_0.0;
        let out = step->Ok_0.1;
        lemma_write_prefix::<D>(next, tokens, i + 1, fresh, acc + out);
        let head = write_from::<D>(w, tokens, i, fresh, acc)->Ok_0.1;
        assert(head.take((acc + out).len() as int) == acc + out);
        assert(head.take(acc.len() as int) =~= (acc + out).take(acc.len() as int));
        assert((acc + out).take(acc.len() as int) =~= acc);
    }
}

/// What one party writes for the tokens of a message, the other reads to
/// the same effect and to the same length.
pub proof fn lemma_tokens_agreement<D: Dh>(
    w: HandshakeModel,
    r: HandshakeModel,
    tokens: Seq<Token>,
    i: nat,
    fresh: Seq<u8>,
    acc: Seq<u8>,
    message: Seq<u8>,
)
    requires
        paired::<D>(w, r),
        dh_sound::<D>(w.params.dh),
        cipher_sound(w.sym.cipher.choice),
        write_from::<D>(w, tokens, i, fresh, acc) is Ok,
        write_from::<D>(w, tokens, i, fresh, acc)->Ok_0.1.len() <= message.len(),
        message.take(write_from::<D>(w, tokens, i, fresh, acc)->Ok_0.1.len() as int)
            == write_from::<D>(w, tokens, i, fresh, acc)->Ok_0.1,
        reader_ready(tokens, i, w.initiator, r.rs is Some),
    ensures
        read_from::<D>(r, tokens, i, message, acc.len()) is Ok,
        read_from::<D>(r, tokens, i, message, acc.len())->Ok_0.1 == write_from::<D>(
            w,
            tokens,
            i,
            fresh,
            acc,
        )->Ok_0.1.len(),
        paired::<D>(
            write_from::<D>(w, tokens, i, fresh, acc)->Ok_0.0,
            read_from::<D>(r, tokens, i, message, acc.len())->Ok_0.0,
        ),
        read_from::<D>(r, tokens, i, message, acc.len())->Ok_0.0.rs is Some == (r.rs is Some
            || static_sent(tokens, i)),
        i < tokens.len() ==> read_from::<D>(r, tokens, i, message, acc.len()) == read_from::<D>(
            read_token::<D>(
                r,
                tokens[i as int],
                write_token::<D>(w, tokens[i as int], fresh)->Ok_0.1,
            )->Ok_0,
            tokens,
            i + 1,
            message,
            acc.len() + write_token::<D>(w, tokens[i as int], fresh)->Ok_0.1.len(),
        ),
    decreases tokens.len() - i,
{
    lemma_write_prefix::<D>(w, tokens, i, fresh, acc);
    if i < tokens.len() {
        let t = tokens[i as int];
        let step = write_token::<D>(w, t, fresh);
        assert(step is Ok);
        let w2 = step->Ok_0.0;
        let out = step->Ok_0.1;
        let head = write_from::<D>(w, tokens, i, fresh, acc)->Ok_0.1;
        assert(head == write_from::<D>(w2, tokens, i + 1, fresh, acc + out)->Ok_0.1);
        lemma_token_agreement::<D>(w, r, t, fresh);
        lemma_write_prefix::<D>(w2, tokens, i + 1, fresh, acc + out);
        let at = acc.len() as int;
        let bytes = message.subrange(at, at + out.len());
        assert(bytes =~= out) by {
            assert(head.take((acc + out).len() as int) == acc + out);
            assert forall|j: int| 0 <= j < out.len() implies bytes[j] == out[j] by {
                assert(bytes[j] == message[at + j]);
                assert(message.take(head.len() as int)[at + j] == message[at + j]);
                assert(head[at + j] == head.take((acc + out).len() as int)[at + j]);
                assert((acc + out)[at + j] == out[j]);
            }
        }
        let r2 = read_token::<D>(r, t, out)->Ok_0;
        assert(w2.initiator == w.initiator);
        assert(w2.params == w.params);
        assert(w2.sym.cipher.choice == w.sym.cipher.choice);
        assert((acc + out).len() == acc.len() + out.len());
        lemma_tokens_agreement::<D>(w2, r2, tokens, i + 1, fresh, acc + out, message);
    }
}

/// What one party writes as its next message, the other party reads: it
/// obtains the payload, and the two parties are again at the same point.
/// This needs a buffer that holds the payload, and a reader that knows the
/// writer's static key where a token combines it.
pub proof fn lemma_message_agreement<D: Dh>(
    w: HandshakeModel,
    r: HandshakeModel,
    payload: Seq<u8>,
    fresh: Seq<u8>,
    room: nat,
    reader_room: nat,
)
    requires
        paired::<D>(w, r),
        dh_sound::<D>(w.params.dh),
        cipher_sound(w.sym.cipher.choice),
        write_message_spec::<D>(w, payload, fresh, room) is Ok,
        reader_ready(patterns(w)[w.position as int], 0, w.initiator, r.rs is Some),
        payload.len() <= reader_room,
    ensures
        read_message_spec::<D>(
            r,
            write_message_spec::<D>(w, payload, fresh, room)->Ok_0.1,
            reader_room,
        ) == Ok::<(HandshakeModel, Seq<u8>), ErrorKind>(
            (
                read_message_spec::<D>(
                    r,
                    write_message_spec::<D>(w, payload, fresh, room)->Ok_0.1,
                    reader_room,
                )->Ok_0.0,
                payload,
            ),
        ),
        paired::<D>(
            write_message_spec::<D>(w, payload, fresh, room)->Ok_0.0,
            read_message_spec::<D>(
                r,
                write_message_spec::<D>(w, payload, fresh, room)->Ok_0.1,
                reader_room,
            )->Ok_0.0,
        ),
{
    let tokens = patterns(w)[w.position as int];
    let empty = Seq::<u8>::empty();
    let parts = write_from::<D>(w, tokens, 0, fresh, empty);
    assert(parts is Ok);
    let after = parts->Ok_0.0;
    let head = parts->Ok_0.1;
    let sealed = sym_encrypt_and_hash(after.sym, payload);
    assert(sealed is Ok);
    let tail = sealed->Ok_0.1;
    let message = head + tail;
    assert(write_message_spec::<D>(w, payload, fresh, room)->Ok_0.1 == message);
    assert(message.take(head.len() as int) =~= head);
    lemma_write_prefix::<D>(w, tokens, 0, fresh, empty);
    lemma_tokens_agreement::<D>(w, r, tokens, 0, fresh, empty, message);
    let read = read_from::<D>(r, tokens, 0, message, 0);
    let reader = read->Ok_0.0;
    assert(read->Ok_0.1 == head.len());
    assert(message.subrange(head.len() as int, message.len() as int) =~= tail);
    assert(after.sym.cipher.choice == w.sym.cipher.choice) by {
        lemma_write_keeps_choice::<D>(w, tokens, 0, fresh, empty);
    }
    lemma_sym_round_trip(after.sym, payload);
    assert(reader.sym == after.sym);
    assert(patterns(r) == patterns(w));
}

/// Writing tokens keeps the cipher of the symmetric state.
pub proof fn lemma_write_keeps_choice<D: Dh>(
    w: HandshakeModel,
    tokens: Seq<Token>,
    i: nat,
    fresh: Seq<u8>,
    acc: Seq<u8>,
)
    requires
        write_from::<D>(w, tokens, i, fresh, acc) is Ok,
    ensures
        write_from::<D>(w, tokens, i, fresh, acc)->Ok_0.0.sym.cipher.choice
            == w.sym.cipher.choice,
    decreases tokens.len() - i,
{
    if i < tokens.len() {
        let step = write_token::<D>(w, tokens[i as int], fresh);
        assert(step is Ok);
        lemma_write_keeps_choice::<D>(step->Ok_0.0, tokens, i + 1, fresh, acc + step->Ok_0.1);
    }
}

/// A static key is among the tokens from index `i` on.
pub open spec fn static_sent(tokens: Seq<Token>, i: nat) -> bool
    decreases tokens.len() - i,
{
    if i >= tokens.len() {
        false
    } else {
        tokens[i as int] == Token::S || static_sent(tokens, i + 1)
    }
}

/// From message `n` on, every token that combines a static key comes when
/// the other party knows that key. `i_known` says whether the responder
/// knows the initiator's static key before message `n`, `r_known` whether
/// the initiator knows the responder's.
pub open spec fn messages_ready(msgs: Seq<Seq<Token>>, n: nat, i_known: bool, r_known: bool)
    -> bool
    decreases msgs.len() - n,
{
    if n >= msgs.len() {
        true
    } else if n % 2 == 0 {
        reader_ready(msgs[n as int], 0, true, i_known) && messages_ready(
            msgs,
            n + 1,
            i_known || static_sent(msgs[n as int], 0),
            r_known,
        )
    } else {
        reader_ready(msgs[n as int], 0, false, r_known) && messages_ready(
            msgs,
            n + 1,
            i_known,
            r_known || static_sent(msgs[n as int], 0),
        )
    }
}

/// Two token lists ask the same of the reader and tell it the same.
pub open spec fn same_needs(a: Seq<Token>, b: Seq<Token>) -> bool {
    &&& static_sent(a, 0) == static_sent(b, 0)
    &&& forall|wi: bool, known: bool| #[trigger]
        reader_ready(a, 0, wi, known) == reader_ready(b, 0, wi, known)
}

/// A reader that knows more is ready for at least as much.
pub proof fn lemma_ready_monotone(tokens: Seq<Token>, i: nat, wi: bool)
    requires
        reader_ready(tokens, i, wi, false),
    ensures
        reader_ready(tokens, i, wi, true),
    decreases tokens.len() - i,
{
    if i < tokens.len() {
        if tokens[i as int] != Token::S {
            lemma_ready_monotone(tokens, i + 1, wi);
        }
    }
}

/// Parties that know more are ready for at least as much.
pub proof fn lemma_messages_ready_monotone(
    msgs: Seq<Seq<Token>>,
    n: nat,
    i_known: bool,
    r_known: bool,
    i_more: bool,
    r_more: bool,
)
    requires
        messages_ready(msgs, n, i_known, r_known),
        i_known ==> i_more,
        r_known ==> r_more,
    ensures
        messages_ready(msgs, n, i_more, r_more),
    decreases msgs.len() - n,
{
    if n < msgs.len() {
        let sent = static_sent(msgs[n as int], 0);
        if n % 2 == 0 {
            if !i_known && i_more {
                lemma_ready_monotone(msgs[n as int], 0, true);
            }
            lemma_messages_ready_monotone(
                msgs,
                n + 1,
                i_known || sent,
                r_known,
                i_more || sent,
                r_more,
            );
        } else {
            if !r_known && r_more {
                lemma_ready_monotone(msgs[n as int], 0, false);
            }
            lemma_messages_ready_monotone(
                msgs,
                n + 1,
                i_known,
                r_known || sent,
                i_more,
                r_more || sent,
            );
        }
    }
}

proof fn lemma_shift(x: Token, tokens: Seq<Token>, i: nat, wi: bool, known: bool)
    ensures
        reader_ready(seq![x] + tokens, i + 1, wi, known) == reader_ready(tokens, i, wi, known),
        static_sent(seq![x] + tokens, i + 1) == static_sent(tokens, i),
    decreases tokens.len() - i,
{
    let longer = seq![x] + tokens;
    assert(longer.len() == tokens.len() + 1);
    if i < tokens.len() {
        assert(longer[i as int + 1] == tokens[i as int]);
        lemma_shift(x, tokens, i + 1, wi, known);
        lemma_shift(x, tokens, i + 1, wi, true);
    }
}

proof fn lemma_push(tokens: Seq<Token>, n: u8, i: nat, wi: bool, known: bool)
    requires
        i <= tokens.len(),
    ensures
        reader_ready(tokens.push(Token::Psk(n)), i, wi, known) == reader_ready(
            tokens,
            i,
            wi,
            known,
        ),
        static_sent(tokens.push(Token::Psk(n)), i) == static_sent(tokens, i),
    decreases tokens.len() - i,
{
    let longer = tokens.push(Token::Psk(n));
    if i < tokens.len() {
        assert(longer[i as int] == tokens[i as int]);
        lemma_push(tokens, n, i + 1, wi, known);
        lemma_push(tokens, n, i + 1, wi, true);
    } else {
        assert(longer[i as int] == Token::Psk(n));
        assert(reader_ready(longer, i + 1, wi, known));
        assert(!static_sent(longer, i + 1));
    }
}

/// A token for a pre-shared key, at the front or at the back, changes
/// nothing for the static keys.
pub proof fn lemma_psk_same_needs(tokens: Seq<Token>, n: u8)
    ensures
        same_needs(seq![Token::Psk(n)] + tokens, tokens),
        same_needs(tokens.push(Token::Psk(n)), tokens),
{
    let front = seq![Token::Psk(n)] + tokens;
    assert(front[0] == Token::Psk(n));
    lemma_shift(Token::Psk(n), tokens, 0, true, true);
    assert forall|wi: bool, known: bool| #[trigger]
        reader_ready(front, 0, wi, known) == reader_ready(tokens, 0, wi, known) by {
        lemma_shift(Token::Psk(n), tokens, 0, wi, known);
    }
    lemma_push(tokens, n, 0, true, true);
    assert forall|wi: bool, known: bool| #[trigger]
        reader_ready(tokens.push(Token::Psk(n)), 0, wi, known) == reader_ready(
            tokens,
            0,
            wi,
            known,
        ) by {
        lemma_push(tokens, n, 0, wi, known);
    }
}

/// Replacing a message by one of the same needs changes nothing.
pub proof fn lemma_update_ready(
    msgs: Seq<Seq<Token>>,
    j: int,
    tokens: Seq<Token>,
    n: nat,
    i_known: bool,
    r_known: bool,
)
    requires
        0 <= j < msgs.len(),
        same_needs(tokens, msgs[j]),
    ensures
        messages_ready(msgs.update(j, tokens), n, i_known, r_known) == messages_ready(
            msgs,
            n,
            i_known,
            r_known,
        ),
    decreases msgs.len() - n,
{
    let changed = msgs.update(j, tokens);
    if n < msgs.len() {
        let sent = static_sent(msgs[n as int], 0);
        assert(static_sent(changed[n as int], 0) == sent);
        assert(reader_ready(changed[n as int], 0, true, i_known) == reader_ready(
            msgs[n as int],
            0,
            true,
            i_known,
        ));
        assert(reader_ready(changed[n as int], 0, false, r_known) == reader_ready(
            msgs[n as int],
            0,
            false,
            r_known,
        ));
        if n % 2 == 0 {
            lemma_update_ready(msgs, j, tokens, n + 1, i_known || sent, r_known);
        } else {
            lemma_update_ready(msgs, j, tokens, n + 1, i_known, r_known || sent);
        }
    }
}

/// Modifiers change nothing for the static keys.
pub proof fn lemma_modifiers_ready(
    msgs: Seq<Seq<Token>>,
    mods: Seq<HandshakeModifier>,
    i_known: bool,
    r_known: bool,
)
    ensures
        messages_ready(apply_modifiers(msgs, mods), 0, i_known, r_known) == messages_ready(
            msgs,
            0,
            i_known,
            r_known,
        ),
    decreases mods.len(),
{
    if mods.len() > 0 {
        lemma_modifiers_ready(msgs, mods.drop_last(), i_known, r_known);
        let before = apply_modifiers(msgs, mods.drop_last());
        match mods.last() {
            HandshakeModifier::Psk(n) => {
                if before.len() == 0 || n > before.len() {
                } else if n == 0 {
                    lemma_psk_same_needs(before[0], n);
                    lemma_update_ready(
                        before,
                        0,
                        seq![Token::Psk(n)] + before[0],
                        0,
                        i_known,
                        r_known,
                    );
                } else {
                    lemma_psk_same_needs(before[n - 1], n);
                    lemma_update_ready(
                        before,
                        n - 1,
                        before[n - 1].push(Token::Psk(n)),
                        0,
                        i_known,
                        r_known,
                    );
                }
            },
            HandshakeModifier::Fallback => {},
        }
    }
}

/// In every base pattern a static key is combined only once the other
/// party knows it, from the start or by an earlier token.
pub proof fn lemma_base_patterns_ready(p: HandshakePattern)
    ensures
        messages_ready(
            base_messages(p),
            0,
            premessage(p, true).contains(Token::S),
            premessage(p, false).contains(Token::S),
        ),
{
    reveal_with_fuel(reader_ready, 7);
    reveal_with_fuel(static_sent, 7);
    reveal_with_fuel(messages_ready, 5);
    let msgs = base_messages(p);
    let pre_i = premessage(p, true);
    let pre_r = premessage(p, false);
    assert(pre_i.contains(Token::S) == (pre_i.len() == 1)) by {
        if pre_i.len() == 1 {
            assert(pre_i[0] == Token::S);
        }
    }
    assert(pre_r.contains(Token::S) == (pre_r.len() == 1)) by {
        if pre_r.len() == 1 {
            assert(pre_r[0] == Token::S);
        }
    }
    match p {
        HandshakePattern::N => {},
        HandshakePattern::K => {},
        HandshakePattern::X => {},
        HandshakePattern::NN => {},
        HandshakePattern::NK => {},
        HandshakePattern::NX => {},
        HandshakePattern::XN => {},
        HandshakePattern::XK => {},
        HandshakePattern::XX => {},
        HandshakePattern::KN => {},
        HandshakePattern::KK => {},
        HandshakePattern::KX => {},
        HandshakePattern::IN => {},
        HandshakePattern::IK => {},
        HandshakePattern::IX => {},
    }
}

/// In every pattern, with any modifiers, a static key is combined only
/// once the other party knows it.
pub proof fn lemma_patterns_ready(p: HandshakePattern, mods: Seq<HandshakeModifier>)
    ensures
        messages_ready(
            message_patterns(p, mods),
            0,
            premessage(p, true).contains(Token::S),
            premessage(p, false).contains(Token::S),
        ),
{
    lemma_base_patterns_ready(p);
    lemma_modifiers_ready(
        base_messages(p),
        mods,
        premessage(p, true).contains(Token::S),
        premessage(p, false).contains(Token::S),
    );
}

/// The initiator `i` and the responder `r` of one handshake are at the same
/// point, and in what is left of the handshake every static key is
/// combined only once the other party knows it.
pub open spec fn on_course<D: Dh>(i: HandshakeModel, r: HandshakeModel) -> bool {
    &&& paired::<D>(i, r)
    &&& i.initiator
    &&& messages_ready(patterns(i), i.position, r.rs is Some, i.rs is Some)
}

/// Two parties that are set up for the same descriptor, prologue and
/// pre-shared keys, each with the other's static public key where it has
/// one at all, start on course.
pub proof fn law_start_on_course<D: Dh>(
    params: crate::params::ParamsModel,
    name: Seq<u8>,
    prologue: Seq<u8>,
    initiator_s: Option<Seq<u8>>,
    initiator_rs: Option<Seq<u8>>,
    responder_s: Option<Seq<u8>>,
    responder_rs: Option<Seq<u8>>,
    psks: Seq<Option<Seq<u8>>>,
    transport: (CipherModel, CipherModel),
)
    requires
        knows::<D>(params.dh, initiator_rs, responder_s),
        knows::<D>(params.dh, responder_rs, initiator_s),
        handshake_start::<D>(
            params,
            name,
            true,
            prologue,
            initiator_s,
            None,
            initiator_rs,
            None,
            psks,
            transport,
        ) is Ok,
        handshake_start::<D>(
            params,
            name,
            false,
            prologue,
            responder_s,
            None,
            responder_rs,
            None,
            psks,
            transport,
        ) is Ok,
    ensures
        on_course::<D>(
            handshake_start::<D>(
                params,
                name,
                true,
                prologue,
                initiator_s,
                None,
                initiator_rs,
                None,
                psks,
                transport,
            )->Ok_0,
            handshake_start::<D>(
                params,
                name,
                false,
                prologue,
                responder_s,
                None,
                responder_rs,
                None,
                psks,
                transport,
            )->Ok_0,
        ),
{
    let i = handshake_start::<D>(
        params,
        name,
        true,
        prologue,
        initiator_s,
        None,
        initiator_rs,
        None,
        psks,
        transport,
    )->Ok_0;
    let r = handshake_start::<D>(
        params,
        name,
        false,
        prologue,
        responder_s,
        None,
        responder_rs,
        None,
        psks,
        transport,
    )->Ok_0;
    lemma_patterns_ready(params.pattern, params.modifiers);
    lemma_messages_ready_monotone(
        patterns(i),
        0,
        premessage(params.pattern, true).contains(Token::S),
        premessage(params.pattern, false).contains(Token::S),
        r.rs is Some,
        i.rs is Some,
    );
    assert(i.sym == r.sym);
}

/// The law of the handshake. Where initiator and responder are on course
/// and the party whose turn it is writes a message, the other party reads
/// that message, obtains the payload that was written, and the two are on
/// course again.
pub proof fn law_message_keeps_course<D: Dh>(
    i: HandshakeModel,
    r: HandshakeModel,
    payload: Seq<u8>,
    fresh: Seq<u8>,
    room: nat,
    reader_room: nat,
)
    requires
        on_course::<D>(i, r),
        dh_sound::<D>(i.params.dh),
        cipher_sound(i.sym.cipher.choice),
        payload.len() <= reader_room,
        write_message_spec::<D>(if my_turn(i) { i } else { r }, payload, fresh, room) is Ok,
    ensures
        ({
            let w = if my_turn(i) { i } else { r };
            let rd = if my_turn(i) { r } else { i };
            let written = write_message_spec::<D>(w, payload, fresh, room)->Ok_0;
            let read = read_message_spec::<D>(rd, written.1, reader_room);
            &&& read is Ok
            &&& read->Ok_0.1 == payload
            &&& on_course::<D>(
                if my_turn(i) { written.0 } else { read->Ok_0.0 },
                if my_turn(i) { read->Ok_0.0 } else { written.0 },
            )
        }),
{
    let w = if my_turn(i) { i } else { r };
    let rd = if my_turn(i) { r } else { i };
    let tokens = patterns(i)[i.position as int];
    let empty = Seq::<u8>::empty();
    assert(patterns(w) == patterns(i));
    assert(w.position == i.position);
    assert(!finished(w));
    assert(w.initiator == (i.position % 2 == 0));
    assert(reader_ready(tokens, 0, w.initiator, rd.rs is Some));
    if my_turn(i) {
    } else {
        assert(paired::<D>(r, i));
    }
    lemma_message_agreement::<D>(w, rd, payload, fresh, room, reader_room);
    let parts = write_from::<D>(w, tokens, 0, fresh, empty);
    let head = parts->Ok_0.1;
    let tail = sym_encrypt_and_hash(parts->Ok_0.0.sym, payload)->Ok_0.1;
    let message = head + tail;
    assert(message.take(head.len() as int) =~= head);
    lemma_write_prefix::<D>(w, tokens, 0, fresh, empty);
    lemma_tokens_agreement::<D>(w, rd, tokens, 0, fresh, empty, message);
    let written = write_message_spec::<D>(w, payload, fresh, room)->Ok_0;
    let read = read_message_spec::<D>(rd, written.1, reader_room);
    assert(written.1 == message);
    assert(written.0.rs == w.rs);
    assert(read->Ok_0.0.rs is Some == (rd.rs is Some || static_sent(tokens, 0)));
    assert(written.0.position == i.position + 1);
    assert(patterns(written.0) == patterns(i));
    if !my_turn(i) {
        assert(paired::<D>(read->Ok_0.0, written.0));
    }
}

/// At the end of a handshake on course both parties hold the same pair of
/// transport cipher states, and they enter the transport phase in opposite
/// roles.
pub proof fn law_finished_parties_agree<D: Dh>(i: HandshakeModel, r: HandshakeModel)
    requires
        on_course::<D>(i, r),
    ensures
        finished(i) == finished(r),
        transport_of(i).ciphers == transport_of(r).ciphers,
        transport_of(i).oneway == transport_of(r).oneway,
        transport_of(i).initiator && !transport_of(r).initiator,
{
}

/// What one party encrypts in the transport phase, the other decrypts to
/// the same text, and afterwards the two again hold the same pair of
/// cipher states.
pub proof fn law_transport_round_trip(
    a: TransportModel,
    b: TransportModel,
    payload: Seq<u8>,
    room: nat,
    reader_room: nat,
)
    requires
        a.ciphers == b.ciphers,
        a.initiator != b.initiator,
        a.oneway == b.oneway,
        cipher_sound(a.ciphers.0.choice),
        cipher_sound(a.ciphers.1.choice),
        payload.len() <= reader_room,
        transport_write(a, payload, room) is Ok,
    ensures
        transport_read(b, transport_write(a, payload, room)->Ok_0.1, reader_room) is Ok,
        transport_read(b, transport_write(a, payload, room)->Ok_0.1, reader_room)->Ok_0.1
            == payload,
        transport_read(b, transport_write(a, payload, room)->Ok_0.1, reader_room)->Ok_0.0.ciphers
            == transport_write(a, payload, room)->Ok_0.0.ciphers,
{
    let c = if a.initiator {
        a.ciphers.0
    } else {
        a.ciphers.1
    };
    let empty = Seq::<u8>::empty();
    let sealed = seal_spec(c.choice, c.key->0, c.n, empty, payload);
    assert(encrypt_spec(c, empty, payload) is Ok);
    assert(sealed.len() == payload.len() + TAGLEN);
    assert(open_spec(c.choice, c.key->0, c.n, empty, sealed) == Some(payload));
}

/// Two builders were given matching material: the same descriptor,
/// prologue and pre-shared keys, and for each static public key of the
/// other party the one that belongs to the private key that the other
/// builder was given.
pub open spec fn matching<D: Dh>(a: BuilderModel, b: BuilderModel) -> bool {
    &&& a.params == b.params
    &&& a.name == b.name
    &&& a.psks == b.psks
    &&& a.plog == b.plog || (a.plog is None && b.plog == Some(Seq::<u8>::empty())) || (b.plog
        is None && a.plog == Some(Seq::<u8>::empty()))
    &&& knows::<D>(a.params.dh, a.rs, b.s)
    &&& knows::<D>(a.params.dh, b.rs, a.s)
}

/// An initiator and a responder that are built from matching material
/// start on course.
pub proof fn law_built_parties_on_course<R: CryptoResolver>(
    a: BuilderModel,
    b: BuilderModel,
    initiator_resolver: R,
    responder_resolver: R,
)
    requires
        matching::<R::Dh>(a, b),
        build_outcome::<R>(a, initiator_resolver, true) is Ok,
        build_outcome::<R>(b, responder_resolver, false) is Ok,
    ensures
        on_course::<R::Dh>(
            build_outcome::<R>(a, initiator_resolver, true)->Ok_0,
            build_outcome::<R>(b, responder_resolver, false)->Ok_0,
        ),
{
    let prologue = match a.plog {
        Some(p) => p,
        None => Seq::<u8>::empty(),
    };
    law_start_on_course::<R::Dh>(
        a.params,
        vstd::utf8::encode_utf8(a.name),
        prologue,
        a.s,
        a.rs,
        b.s,
        b.rs,
        a.psks,
        (crate::noise::unkeyed(a.params.cipher), crate::noise::unkeyed(a.params.cipher)),
    );
}

} // verus!
