//! Reading a protocol name.
//!
//! A name is read field by field. That a refused name is the name of no
//! descriptor rests on the fact that no field can hold an underscore, and
//! no modifier a plus sign, so that a name splits in one way only.

use vstd::prelude::*;
use crate::error::{ErrorKind, PatternProblem};
use crate::params::{
    cipher_name, dh_name, digit_char, handshake_name, hash_name, modifier_name, modifier_names,
    modifiers_fit, name_fields, pattern_name, protocol_name, CipherChoice, DHChoice, HashChoice,
    NoiseParams, ParamsModel,
};
use crate::patterns::{
    base_messages, HandshakeChoice, HandshakeModifier, HandshakeModifierList, HandshakePattern,
};
use crate::text::{
    chars_of, is_word, join, lemma_join_no_sep, lemma_join_prefix, lemma_join_split,
    lemma_split_join, no_sep, split, split_chars, sub_chars, words_view,
};

verus! {

/// A letter that pattern names are made of.
pub open spec fn is_pattern_letter(c: char) -> bool {
    c == 'N' || c == 'K' || c == 'X' || c == 'I'
}

/// Every pre-shared key position is a single digit.
pub open spec fn single_digits(mods: Seq<HandshakeModifier>) -> bool {
    forall|i: int|
        0 <= i < mods.len() ==> (#[trigger] mods[i] matches HandshakeModifier::Psk(n) ==> n <= 9)
}

/// A pattern name is one or two pattern letters.
pub proof fn lemma_pattern_names(p: HandshakePattern)
    ensures
        pattern_name(p).len() == 1 || pattern_name(p).len() == 2,
        forall|i: int|
            0 <= i < pattern_name(p).len() ==> is_pattern_letter(#[trigger] pattern_name(p)[i]),
{
    reveal_strlit("N");
    reveal_strlit("X");
    reveal_strlit("K");
    reveal_strlit("NN");
    reveal_strlit("NK");
    reveal_strlit("NX");
    reveal_strlit("XN");
    reveal_strlit("XK");
    reveal_strlit("XX");
    reveal_strlit("KN");
    reveal_strlit("KK");
    reveal_strlit("KX");
    reveal_strlit("IN");
    reveal_strlit("IK");
    reveal_strlit("IX");
}

/// Two patterns of one name are the same pattern.
pub proof fn lemma_pattern_name_injective(p: HandshakePattern, q: HandshakePattern)
    requires
        pattern_name(p) == pattern_name(q),
    ensures
        p == q,
{
    reveal_strlit("N");
    reveal_strlit("X");
    reveal_strlit("K");
    reveal_strlit("NN");
    reveal_strlit("NK");
    reveal_strlit("NX");
    reveal_strlit("XN");
    reveal_strlit("XK");
    reveal_strlit("XX");
    reveal_strlit("KN");
    reveal_strlit("KK");
    reveal_strlit("KX");
    reveal_strlit("IN");
    reveal_strlit("IK");
    reveal_strlit("IX");
    let a = pattern_name(p);
    let b = pattern_name(q);
    assert(a.len() == b.len());
    assert(a[0] == b[0]);
    if a.len() == 2 {
        assert(a[1] == b[1]);
    }
}

/// The name of a modifier with a single digit: it begins with `p` or `f`,
/// holds neither an underscore nor a plus sign, and for a pre-shared key
/// is `psk` and the digit.
pub proof fn lemma_modifier_name(m: HandshakeModifier)
    requires
        m matches HandshakeModifier::Psk(n) ==> n <= 9,
    ensures
        modifier_name(m).len() >= 1,
        modifier_name(m)[0] == 'p' || modifier_name(m)[0] == 'f',
        no_sep(modifier_name(m), '_'),
        no_sep(modifier_name(m), '+'),
        m matches HandshakeModifier::Psk(n) ==> modifier_name(m) == seq![
            'p',
            's',
            'k',
            digit_char(n as nat),
        ],
        m is Fallback ==> modifier_name(m).len() == 8 && modifier_name(m)[0] == 'f',
{
    reveal_strlit("psk");
    reveal_strlit("fallback");
    match m {
        HandshakeModifier::Psk(n) => {
            assert(modifier_name(m) =~= seq!['p', 's', 'k', digit_char(n as nat)]);
        },
        HandshakeModifier::Fallback => {},
    }
}

/// Two single-digit modifiers of one name are the same modifier.
pub proof fn lemma_modifier_name_injective(a: HandshakeModifier, b: HandshakeModifier)
    requires
        a matches HandshakeModifier::Psk(n) ==> n <= 9,
        b matches HandshakeModifier::Psk(n) ==> n <= 9,
        modifier_name(a) == modifier_name(b),
    ensures
        a == b,
{
    lemma_modifier_name(a);
    lemma_modifier_name(b);
    let x = modifier_name(a);
    let y = modifier_name(b);
    assert(x[0] == y[0]);
    assert(x.len() == y.len());
    match (a, b) {
        (HandshakeModifier::Psk(n), HandshakeModifier::Psk(k)) => {
            assert(x[3] == y[3]);
        },
        _ => {},
    }
}

/// The names of single-digit modifiers hold no plus sign and no
/// underscore.
pub proof fn lemma_modifier_names(mods: Seq<HandshakeModifier>)
    requires
        single_digits(mods),
    ensures
        forall|i: int|
            0 <= i < mods.len() ==> no_sep(#[trigger] modifier_names(mods)[i], '+') && no_sep(
                modifier_names(mods)[i],
                '_',
            ) && modifier_names(mods)[i].len() >= 1,
        no_sep(join(modifier_names(mods), '+'), '_'),
        mods.len() >= 1 ==> join(modifier_names(mods), '+').len() >= 1 && (join(
            modifier_names(mods),
            '+',
        )[0] == 'p' || join(modifier_names(mods), '+')[0] == 'f'),
        mods.len() == 0 ==> join(modifier_names(mods), '+').len() == 0,
{
    let names = modifier_names(mods);
    assert forall|i: int| 0 <= i < mods.len() implies no_sep(#[trigger] names[i], '+') && no_sep(
        names[i],
        '_',
    ) && names[i].len() >= 1 by {
        assert(mods[i] matches HandshakeModifier::Psk(n) ==> n <= 9);
        lemma_modifier_name(mods[i]);
    }
    lemma_join_no_sep(names, '+', '_');
    if mods.len() >= 1 {
        lemma_join_prefix(names, '+');
        assert(mods[0] matches HandshakeModifier::Psk(n) ==> n <= 9);
        lemma_modifier_name(mods[0]);
        let joined = join(names, '+');
        assert(joined.take(names[0].len() as int)[0] == joined[0]);
    }
}

/// Two lists of single-digit modifiers that spell the same are the same
/// list.
pub proof fn lemma_modifier_list_unique(a: Seq<HandshakeModifier>, b: Seq<HandshakeModifier>)
    requires
        single_digits(a),
        single_digits(b),
        join(modifier_names(a), '+') == join(modifier_names(b), '+'),
    ensures
        a == b,
{
    lemma_modifier_names(a);
    lemma_modifier_names(b);
    if a.len() == 0 || b.len() == 0 {
        assert(a =~= b);
    } else {
        lemma_split_join(modifier_names(a), '+');
        lemma_split_join(modifier_names(b), '+');
        assert(modifier_names(a) == modifier_names(b));
        assert(a.len() == b.len());
        assert forall|i: int| 0 <= i < a.len() implies a[i] == b[i] by {
            assert(modifier_names(a)[i] == modifier_names(b)[i]);
            assert(a[i] matches HandshakeModifier::Psk(n) ==> n <= 9);
            assert(b[i] matches HandshakeModifier::Psk(n) ==> n <= 9);
            lemma_modifier_name_injective(a[i], b[i]);
        }
        assert(a =~= b);
    }
}

/// How the second field of a name falls into pattern and modifiers.
pub proof fn lemma_handshake_prefix(p: HandshakePattern, mods: Seq<HandshakeModifier>)
    requires
        single_digits(mods),
    ensures
        ({
            let f = handshake_name(p, mods);
            let k = pattern_name(p).len() as int;
            &&& 1 <= k <= 2
            &&& f.len() >= k
            &&& f.take(k) == pattern_name(p)
            &&& f.skip(k) == join(modifier_names(mods), '+')
            &&& k == 1 && f.len() >= 2 ==> f[1] == 'p' || f[1] == 'f'
            &&& k == 2 ==> is_pattern_letter(f[1])
            &&& no_sep(f, '_')
        }),
{
    lemma_pattern_names(p);
    lemma_modifier_names(mods);
    let f = handshake_name(p, mods);
    let k = pattern_name(p).len() as int;
    let tail = join(modifier_names(mods), '+');
    assert(f.take(k) =~= pattern_name(p));
    assert(f.skip(k) =~= tail);
    if k == 1 && f.len() >= 2 {
        assert(f[1] == tail[0]);
    }
    if k == 2 {
        assert(f[1] == pattern_name(p)[1]);
    }
    assert forall|j: int| 0 <= j < f.len() implies f[j] != '_' by {
        if j < k {
            assert(f[j] == pattern_name(p)[j]);
        } else {
            assert(f[j] == tail[j - k]);
        }
    }
}

/// Modifiers that fit a pattern have single digits.
pub proof fn lemma_fit_single_digits(p: HandshakePattern, mods: Seq<HandshakeModifier>)
    requires
        modifiers_fit(p, mods),
    ensures
        single_digits(mods),
{
    assert(base_messages(p).len() <= 3);
    assert forall|i: int| 0 <= i < mods.len() implies (#[trigger] mods[i] matches HandshakeModifier::Psk(
        n,
    ) ==> n <= 9) by {}
}

/// A protocol name splits at its underscores into its five fields.
pub proof fn lemma_name_fields(m: ParamsModel)
    requires
        modifiers_fit(m.pattern, m.modifiers),
    ensures
        split(protocol_name(m), '_') == name_fields(m),
{
    reveal_strlit("Noise");
    reveal_strlit("25519");
    reveal_strlit("448");
    reveal_strlit("ChaChaPoly");
    reveal_strlit("AESGCM");
    reveal_strlit("SHA256");
    reveal_strlit("SHA512");
    reveal_strlit("Blake2s");
    reveal_strlit("Blake2b");
    lemma_fit_single_digits(m.pattern, m.modifiers);
    lemma_handshake_prefix(m.pattern, m.modifiers);
    let f = name_fields(m);
    assert forall|i: int| 0 <= i < f.len() implies no_sep(#[trigger] f[i], '_') by {
        if i == 0 {
            assert(no_sep("Noise"@, '_'));
        } else if i == 1 {
        } else if i == 2 {
            assert(no_sep(dh_name(m.dh), '_'));
        } else if i == 3 {
            assert(no_sep(cipher_name(m.cipher), '_'));
        } else {
            assert(no_sep(hash_name(m.hash), '_'));
        }
    }
    lemma_split_join(f, '_');
}

/// Two descriptors of one protocol name are the same descriptor.
pub proof fn lemma_protocol_name_injective(a: ParamsModel, b: ParamsModel)
    requires
        modifiers_fit(a.pattern, a.modifiers),
        modifiers_fit(b.pattern, b.modifiers),
        protocol_name(a) == protocol_name(b),
    ensures
        a == b,
{
    reveal_strlit("25519");
    reveal_strlit("448");
    reveal_strlit("ChaChaPoly");
    reveal_strlit("AESGCM");
    reveal_strlit("SHA256");
    reveal_strlit("SHA512");
    reveal_strlit("Blake2s");
    reveal_strlit("Blake2b");
    lemma_name_fields(a);
    lemma_name_fields(b);
    let fa = name_fields(a);
    let fb = name_fields(b);
    assert(fa == fb);
    assert(fa[1] == fb[1] && fa[2] == fb[2] && fa[3] == fb[3] && fa[4] == fb[4]);
    assert(dh_name(a.dh)[0] == dh_name(b.dh)[0]);
    assert(cipher_name(a.cipher)[0] == cipher_name(b.cipher)[0]);
    assert(hash_name(a.hash)[0] == hash_name(b.hash)[0]);
    assert(hash_name(a.hash)[3] == hash_name(b.hash)[3]);
    assert(hash_name(a.hash)[6] == hash_name(b.hash)[6]);
    lemma_fit_single_digits(a.pattern, a.modifiers);
    lemma_fit_single_digits(b.pattern, b.modifiers);
    lemma_handshake_prefix(a.pattern, a.modifiers);
    lemma_handshake_prefix(b.pattern, b.modifiers);
    lemma_pattern_name_injective(a.pattern, b.pattern);
    lemma_modifier_list_unique(a.modifiers, b.modifiers);
}

fn digit_of(c: char) -> (d: Option<u8>)
    ensures
        match d {
            Some(v) => v <= 9 && digit_char(v as nat) == c,
            None => forall|v: nat| v <= 9 ==> digit_char(v) != c,
        },
{
    match c {
        '0' => Some(0),
        '1' => Some(1),
        '2' => Some(2),
        '3' => Some(3),
        '4' => Some(4),
        '5' => Some(5),
        '6' => Some(6),
        '7' => Some(7),
        '8' => Some(8),
        '9' => Some(9),
        _ => None,
    }
}

fn pattern_of(word: &Vec<char>) -> (p: Option<HandshakePattern>)
    ensures
        match p {
            Some(q) => pattern_name(q) == word@,
            None => forall|q: HandshakePattern| pattern_name(q) != word@,
        },
{
    if is_word(word, "N") {
        Some(HandshakePattern::N)
    } else if is_word(word, "X") {
        Some(HandshakePattern::X)
    } else if is_word(word, "K") {
        Some(HandshakePattern::K)
    } else if is_word(word, "NN") {
        Some(HandshakePattern::NN)
    } else if is_word(word, "NK") {
        Some(HandshakePattern::NK)
    } else if is_word(word, "NX") {
        Some(HandshakePattern::NX)
    } else if is_word(word, "XN") {
        Some(HandshakePattern::XN)
    } else if is_word(word, "XK") {
        Some(HandshakePattern::XK)
    } else if is_word(word, "XX") {
        Some(HandshakePattern::XX)
    } else if is_word(word, "KN") {
        Some(HandshakePattern::KN)
    } else if is_word(word, "KK") {
        Some(HandshakePattern::KK)
    } else if is_word(word, "KX") {
        Some(HandshakePattern::KX)
    } else if is_word(word, "IN") {
        Some(HandshakePattern::IN)
    } else if is_word(word, "IK") {
        Some(HandshakePattern::IK)
    } else if is_word(word, "IX") {
        Some(HandshakePattern::IX)
    } else {
        None
    }
}

fn dh_of(word: &Vec<char>) -> (c: Option<DHChoice>)
    ensures
        match c {
            Some(d) => dh_name(d) == word@,
            None => forall|d: DHChoice| dh_name(d) != word@,
        },
{
    if is_word(word, "25519") {
        Some(DHChoice::Curve25519)
    } else if is_word(word, "448") {
        Some(DHChoice::Ed448)
    } else {
        None
    }
}

fn cipher_of(word: &Vec<char>) -> (c: Option<CipherChoice>)
    ensures
        match c {
            Some(d) => cipher_name(d) == word@,
            None => forall|d: CipherChoice| cipher_name(d) != word@,
        },
{
    if is_word(word, "ChaChaPoly") {
        Some(CipherChoice::ChaChaPoly)
    } else if is_word(word, "AESGCM") {
        Some(CipherChoice::AESGCM)
    } else {
        None
    }
}

fn hash_of(word: &Vec<char>) -> (c: Option<HashChoice>)
    ensures
        match c {
            Some(d) => hash_name(d) == word@,
            None => forall|d: HashChoice| hash_name(d) != word@,
        },
{
    if is_word(word, "SHA256") {
        Some(HashChoice::SHA256)
    } else if is_word(word, "SHA512") {
        Some(HashChoice::SHA512)
    } else if is_word(word, "Blake2s") {
        Some(HashChoice::Blake2s)
    } else if is_word(word, "Blake2b") {
        Some(HashChoice::Blake2b)
    } else {
        None
    }
}

fn modifier_of(word: &Vec<char>) -> (m: Option<HandshakeModifier>)
    ensures
        match m {
            Some(x) => modifier_name(x) == word@ && (x matches HandshakeModifier::Psk(n) ==> n
                <= 9),
            None => forall|x: HandshakeModifier|
                (x matches HandshakeModifier::Psk(n) ==> n <= 9) ==> #[trigger] modifier_name(x)
                    != word@,
        },
{
    if is_word(word, "fallback") {
        return Some(HandshakeModifier::Fallback);
    }
    if word.len() == 4 && word[0] == 'p' && word[1] == 's' && word[2] == 'k' {
        match digit_of(word[3]) {
            Some(d) => {
                proof {
                    lemma_modifier_name(HandshakeModifier::Psk(d));
                    assert(word@ =~= seq!['p', 's', 'k', digit_char(d as nat)]);
                }
                return Some(HandshakeModifier::Psk(d));
            },
            None => {},
        }
    }
    assert forall|x: HandshakeModifier|
        (x matches HandshakeModifier::Psk(n) ==> n <= 9) implies #[trigger] modifier_name(x)
        != word@ by {
        lemma_modifier_name(x);
        if modifier_name(x) == word@ {
            match x {
                HandshakeModifier::Psk(n) => {
                    assert(word@[3] == digit_char(n as nat));
                },
                HandshakeModifier::Fallback => {},
            }
        }
    }
    None
}

fn modifiers_of(rest: &Vec<char>) -> (r: Option<Vec<HandshakeModifier>>)
    ensures
        match r {
            Some(list) => single_digits(list@) && join(modifier_names(list@), '+') == rest@,
            None => forall|mods: Seq<HandshakeModifier>|
                single_digits(mods) ==> #[trigger] join(modifier_names(mods), '+') != rest@,
        },
{
    let mut list: Vec<HandshakeModifier> = Vec::new();
    if rest.len() == 0 {
        assert(modifier_names(list@) =~= Seq::<Seq<char>>::empty());
        assert(join(modifier_names(list@), '+') =~= rest@);
        return Some(list);
    }
    let fields = split_chars(rest, '+');
    let mut i: usize = 0;
    while i < fields.len()
        invariant
            i <= fields@.len(),
            list@.len() == i,
            single_digits(list@),
            words_view(fields) == split(rest@, '+'),
            rest@.len() > 0,
            forall|j: int| 0 <= j < i ==> modifier_name(#[trigger] list@[j]) == fields@[j]@,
        decreases fields@.len() - i,
    {
        match modifier_of(&fields[i]) {
            Some(m) => {
                list.push(m);
            },
            None => {
                assert forall|mods: Seq<HandshakeModifier>| single_digits(mods) implies #[trigger] join(
                    modifier_names(mods),
                    '+',
                ) != rest@ by {
                    if join(modifier_names(mods), '+') == rest@ {
                        lemma_modifier_names(mods);
                        lemma_split_join(modifier_names(mods), '+');
                        assert(words_view(fields)[i as int] == modifier_names(mods)[i as int]);
                        assert(mods[i as int] matches HandshakeModifier::Psk(n) ==> n <= 9);
                        assert(modifier_name(mods[i as int]) == fields@[i as int]@);
                    }
                }
                return None;
            },
        }
        i += 1;
    }
    proof {
        lemma_join_split(rest@, '+');
        assert(modifier_names(list@) =~= words_view(fields));
    }
    Some(list)
}

fn modifiers_ok(pattern: HandshakePattern, list: &Vec<HandshakeModifier>) -> (ok: bool)
    ensures
        ok == modifiers_fit(pattern, list@),
{
    let count = pattern.message_count();
    let mut i: usize = 0;
    while i < list.len()
        invariant
            i <= list@.len(),
            count == base_messages(pattern).len(),
            forall|a: int|
                0 <= a < i ==> (#[trigger] list@[a] matches HandshakeModifier::Psk(n) ==> n
                    <= count),
            forall|a: int, b: int| 0 <= a < b < i ==> list@[a] != list@[b],
        decreases list@.len() - i,
    {
        match list[i] {
            HandshakeModifier::Psk(n) => {
                if n as usize > count {
                    return false;
                }
            },
            HandshakeModifier::Fallback => {},
        }
        let mut j: usize = 0;
        while j < i
            invariant
                j <= i < list@.len(),
                forall|a: int| 0 <= a < j ==> list@[a] != list@[i as int],
            decreases i - j,
        {
            if list[j] == list[i] {
                return false;
            }
            j += 1;
        }
        i += 1;
    }
    true
}

fn handshake_of(field: &Vec<char>) -> (r: Result<HandshakeChoice, PatternProblem>)
    ensures
        match r {
            Ok(h) => h.wf() && handshake_name(h.pattern, h.modifiers.list@) == field@,
            Err(e) => (e == PatternProblem::UnsupportedHandshakeType || e
                == PatternProblem::UnsupportedModifier) && forall|
                p: HandshakePattern,
                mods: Seq<HandshakeModifier>,
            |
                modifiers_fit(p, mods) ==> #[trigger] handshake_name(p, mods) != field@,
        },
{
    let mut found: Option<HandshakePattern> = None;
    let mut used: usize = 0;
    if field.len() >= 2 {
        let two = sub_chars(field, 0, 2);
        found = pattern_of(&two);
        used = 2;
    }
    let ghost no_two = found.is_none();
    if found.is_none() && field.len() >= 1 {
        let one = sub_chars(field, 0, 1);
        found = pattern_of(&one);
        used = 1;
    }
    let pattern = match found {
        Some(p) => p,
        None => {
            assert forall|p: HandshakePattern, mods: Seq<HandshakeModifier>|
                modifiers_fit(p, mods) implies #[trigger] handshake_name(p, mods) != field@ by {
                if handshake_name(p, mods) == field@ {
                    lemma_fit_single_digits(p, mods);
                    lemma_handshake_prefix(p, mods);
                }
            }
            return Err(PatternProblem::UnsupportedHandshakeType);
        },
    };
    let rest = sub_chars(field, used, field.len());
    assert(rest@ =~= field@.skip(used as int));
    assert(field@.take(used as int) == pattern_name(pattern));
    // Whatever spells this field has this pattern and these modifiers.
    assert forall|p: HandshakePattern, mods: Seq<HandshakeModifier>|
        modifiers_fit(p, mods) && #[trigger] handshake_name(p, mods) == field@ implies p
        == pattern && join(modifier_names(mods), '+') == rest@ by {
        lemma_fit_single_digits(p, mods);
        lemma_handshake_prefix(p, mods);
        lemma_pattern_names(pattern);
        let k = pattern_name(p).len() as int;
        if k != used {
            if used == 2 {
                assert(field@[1] == pattern_name(pattern)[1]);
            } else {
                assert(no_two);
                assert(field@.take(2) == pattern_name(p));
            }
        }
        lemma_pattern_name_injective(p, pattern);
    }
    let list = match modifiers_of(&rest) {
        Some(list) => list,
        None => {
            assert forall|p: HandshakePattern, mods: Seq<HandshakeModifier>|
                modifiers_fit(p, mods) implies #[trigger] handshake_name(p, mods) != field@ by {
                if handshake_name(p, mods) == field@ {
                    lemma_fit_single_digits(p, mods);
                }
            }
            return Err(PatternProblem::UnsupportedModifier);
        },
    };
    if !modifiers_ok(pattern, &list) {
        assert forall|p: HandshakePattern, mods: Seq<HandshakeModifier>|
            modifiers_fit(p, mods) implies #[trigger] handshake_name(p, mods) != field@ by {
            if handshake_name(p, mods) == field@ {
                lemma_fit_single_digits(p, mods);
                lemma_modifier_list_unique(mods, list@);
            }
        }
        return Err(PatternProblem::UnsupportedModifier);
    }
    assert(pattern_name(pattern) + rest@ =~= field@);
    Ok(HandshakeChoice { pattern, modifiers: HandshakeModifierList { list } })
}

impl NoiseParams {
    /// Reads a protocol name. The descriptor that comes back has exactly
    /// this name; a name that is refused is the name of no descriptor.
    pub fn parse(s: &str) -> (r: Result<NoiseParams, ErrorKind>)
        ensures
            match r {
                Ok(params) => params.wf() && params.name@ == s@,
                Err(e) => e is Pattern && forall|m: ParamsModel|
                    modifiers_fit(m.pattern, m.modifiers) ==> #[trigger] protocol_name(m) != s@,
            },
    {
        let chars = chars_of(s);
        let fields = split_chars(&chars, '_');
        proof {
            assert forall|m: ParamsModel|
                modifiers_fit(m.pattern, m.modifiers) && #[trigger] protocol_name(m)
                    == s@ implies words_view(fields) == name_fields(m) by {
                lemma_name_fields(m);
            }
        }
        if fields.len() != 5 {
            return Err(ErrorKind::Pattern(PatternProblem::WrongFieldCount));
        }
        assert(words_view(fields)[0] == fields@[0]@);
        assert(words_view(fields)[1] == fields@[1]@);
        assert(words_view(fields)[2] == fields@[2]@);
        assert(words_view(fields)[3] == fields@[3]@);
        assert(words_view(fields)[4] == fields@[4]@);
        if !is_word(&fields[0], "Noise") {
            return Err(ErrorKind::Pattern(PatternProblem::UnsupportedBaseType));
        }
        let handshake = match handshake_of(&fields[1]) {
            Ok(h) => h,
            Err(e) => {
                return Err(ErrorKind::Pattern(e));
            },
        };
        let dh = match dh_of(&fields[2]) {
            Some(c) => c,
            None => {
                return Err(ErrorKind::Pattern(PatternProblem::UnsupportedDhType));
            },
        };
        let cipher = match cipher_of(&fields[3]) {
            Some(c) => c,
            None => {
                return Err(ErrorKind::Pattern(PatternProblem::UnsupportedCipherType));
            },
        };
        let hash = match hash_of(&fields[4]) {
            Some(c) => c,
            None => {
                return Err(ErrorKind::Pattern(PatternProblem::UnsupportedHashType));
            },
        };
        let params = NoiseParams::new(handshake, dh, cipher, hash);
        proof {
            lemma_join_split(s@, '_');
            assert(name_fields(params@) =~= words_view(fields));
        }
        Ok(params)
    }
}

impl core::str::FromStr for NoiseParams {
    type Err = ErrorKind;

    /// The same as `NoiseParams::parse`: the descriptor of exactly this
    /// name, or a refusal where the name is the name of no descriptor.
    fn from_str(s: &str) -> (r: Result<NoiseParams, ErrorKind>)
        ensures
            match r {
                Ok(params) => params.wf() && params.name@ == s@,
                Err(e) => e is Pattern && forall|m: ParamsModel|
                    modifiers_fit(m.pattern, m.modifiers) ==> #[trigger] protocol_name(m) != s@,
            },
    {
        NoiseParams::parse(s)
    }
}

} // verus!
