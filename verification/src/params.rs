//! The protocol descriptor: algorithm choices, handshake patterns and the
//! grammar of protocol names.

use vstd::prelude::*;
use vstd::string::StringExecFns;
use crate::patterns::{base_messages, HandshakeChoice, HandshakeModifier, HandshakePattern};
use crate::text::join;

verus! {

/// The first field of every protocol name.
#[derive(Clone, Copy, Debug, PartialEq, Eq, Structural)]
pub enum BaseChoice {
    Noise,
}

/// The Diffie-Hellman functions that a protocol name can select.
#[derive(Clone, Copy, Debug, PartialEq, Eq, Structural)]
pub enum DHChoice {
    Curve25519,
    Ed448,
}

/// The ciphers that a protocol name can select.
#[derive(Clone, Copy, Debug, PartialEq, Eq, Structural)]
pub enum CipherChoice {
    ChaChaPoly,
    AESGCM,
}

/// The hash functions that a protocol name can select.
#[derive(Clone, Copy, Debug, PartialEq, Eq, Structural)]
pub enum HashChoice {
    SHA256,
    SHA512,
    Blake2s,
    Blake2b,
}

/// The name of a base pattern.
pub open spec fn pattern_name(p: HandshakePattern) -> Seq<char> {
    match p {
        HandshakePattern::N => "N"@,
        HandshakePattern::X => "X"@,
        HandshakePattern::K => "K"@,
        HandshakePattern::NN => "NN"@,
        HandshakePattern::NK => "NK"@,
        HandshakePattern::NX => "NX"@,
        HandshakePattern::XN => "XN"@,
        HandshakePattern::XK => "XK"@,
        HandshakePattern::XX => "XX"@,
        HandshakePattern::KN => "KN"@,
        HandshakePattern::KK => "KK"@,
        HandshakePattern::KX => "KX"@,
        HandshakePattern::IN => "IN"@,
        HandshakePattern::IK => "IK"@,
        HandshakePattern::IX => "IX"@,
    }
}

/// The name of a Diffie-Hellman function.
pub open spec fn dh_name(c: DHChoice) -> Seq<char> {
    match c {
        DHChoice::Curve25519 => "25519"@,
        DHChoice::Ed448 => "448"@,
    }
}

/// The name of a cipher.
pub open spec fn cipher_name(c: CipherChoice) -> Seq<char> {
    match c {
        CipherChoice::ChaChaPoly => "ChaChaPoly"@,
        CipherChoice::AESGCM => "AESGCM"@,
    }
}

/// The name of a hash function.
pub open spec fn hash_name(c: HashChoice) -> Seq<char> {
    match c {
        HashChoice::SHA256 => "SHA256"@,
        HashChoice::SHA512 => "SHA512"@,
        HashChoice::Blake2s => "Blake2s"@,
        HashChoice::Blake2b => "Blake2b"@,
    }
}

/// The character of a decimal digit.
pub open spec fn digit_char(d: nat) -> char {
    if d == 0 {
        '0'
    } else if d == 1 {
        '1'
    } else if d == 2 {
        '2'
    } else if d == 3 {
        '3'
    } else if d == 4 {
        '4'
    } else if d == 5 {
        '5'
    } else if d == 6 {
        '6'
    } else if d == 7 {
        '7'
    } else if d == 8 {
        '8'
    } else {
        '9'
    }
}

/// A number in decimal, without leading zeros.
pub open spec fn decimal(n: nat) -> Seq<char>
    decreases n,
{
    if n < 10 {
        seq![digit_char(n)]
    } else {
        decimal(n / 10).push(digit_char(n % 10))
    }
}

/// The name of a modifier.
pub open spec fn modifier_name(m: HandshakeModifier) -> Seq<char> {
    match m {
        HandshakeModifier::Psk(n) => "psk"@ + decimal(n as nat),
        HandshakeModifier::Fallback => "fallback"@,
    }
}

/// The names of the modifiers, in order.
pub open spec fn modifier_names(mods: Seq<HandshakeModifier>) -> Seq<Seq<char>> {
    Seq::new(mods.len(), |i: int| modifier_name(mods[i]))
}

/// The second field of a protocol name: the base pattern, directly followed
/// by the modifiers with a `+` between each two.
pub open spec fn handshake_name(p: HandshakePattern, mods: Seq<HandshakeModifier>) -> Seq<char> {
    pattern_name(p) + join(modifier_names(mods), '+')
}

/// The modifiers fit the base pattern: a pre-shared key stands at the start
/// of the first message or at the end of a message that the pattern has,
/// and no modifier occurs twice.
pub open spec fn modifiers_fit(p: HandshakePattern, mods: Seq<HandshakeModifier>) -> bool {
    &&& forall|i: int|
        0 <= i < mods.len() ==> (#[trigger] mods[i] matches HandshakeModifier::Psk(n) ==> n
            <= base_messages(p).len())
    &&& forall|i: int, j: int| 0 <= i < j < mods.len() ==> mods[i] != mods[j]
}

/// What a protocol name says.
pub struct ParamsModel {
    pub pattern: HandshakePattern,
    pub modifiers: Seq<HandshakeModifier>,
    pub dh: DHChoice,
    pub cipher: CipherChoice,
    pub hash: HashChoice,
}

/// The five fields of a protocol name.
pub open spec fn name_fields(m: ParamsModel) -> Seq<Seq<char>> {
    seq![
        "Noise"@,
        handshake_name(m.pattern, m.modifiers),
        dh_name(m.dh),
        cipher_name(m.cipher),
        hash_name(m.hash),
    ]
}

/// The protocol name: the five fields with an underscore between each two.
pub open spec fn protocol_name(m: ParamsModel) -> Seq<char> {
    join(name_fields(m), '_')
}

/// A protocol descriptor.
pub struct NoiseParams {
    pub name: String,
    pub base: BaseChoice,
    pub handshake: HandshakeChoice,
    pub dh: DHChoice,
    pub cipher: CipherChoice,
    pub hash: HashChoice,
}

impl View for NoiseParams {
    type V = ParamsModel;

    open spec fn view(&self) -> ParamsModel {
        ParamsModel {
            pattern: self.handshake.pattern,
            modifiers: self.handshake.modifiers.list@,
            dh: self.dh,
            cipher: self.cipher,
            hash: self.hash,
        }
    }
}

impl HandshakePattern {
    /// The name of the pattern.
    pub fn as_str(&self) -> (s: &'static str)
        ensures
            s@ == pattern_name(*self),
    {
        match self {
            HandshakePattern::N => "N",
            HandshakePattern::X => "X",
            HandshakePattern::K => "K",
            HandshakePattern::NN => "NN",
            HandshakePattern::NK => "NK",
            HandshakePattern::NX => "NX",
            HandshakePattern::XN => "XN",
            HandshakePattern::XK => "XK",
            HandshakePattern::XX => "XX",
            HandshakePattern::KN => "KN",
            HandshakePattern::KK => "KK",
            HandshakePattern::KX => "KX",
            HandshakePattern::IN => "IN",
            HandshakePattern::IK => "IK",
            HandshakePattern::IX => "IX",
        }
    }
}

impl DHChoice {
    /// The name of the function.
    pub fn as_str(&self) -> (s: &'static str)
        ensures
            s@ == dh_name(*self),
    {
        match self {
            DHChoice::Curve25519 => "25519",
            DHChoice::Ed448 => "448",
        }
    }
}

impl CipherChoice {
    /// The name of the cipher.
    pub fn as_str(&self) -> (s: &'static str)
        ensures
            s@ == cipher_name(*self),
    {
        match self {
            CipherChoice::ChaChaPoly => "ChaChaPoly",
            CipherChoice::AESGCM => "AESGCM",
        }
    }
}

impl HashChoice {
    /// The name of the hash function.
    pub fn as_str(&self) -> (s: &'static str)
        ensures
            s@ == hash_name(*self),
    {
        match self {
            HashChoice::SHA256 => "SHA256",
            HashChoice::SHA512 => "SHA512",
            HashChoice::Blake2s => "Blake2s",
            HashChoice::Blake2b => "Blake2b",
        }
    }
}

fn digit_str(d: u8) -> (s: &'static str)
    requires
        d <= 9,
    ensures
        s@ == decimal(d as nat),
{
    proof {
        reveal_strlit("0");
        reveal_strlit("1");
        reveal_strlit("2");
        reveal_strlit("3");
        reveal_strlit("4");
        reveal_strlit("5");
        reveal_strlit("6");
        reveal_strlit("7");
        reveal_strlit("8");
        reveal_strlit("9");
    }
    let s = match d {
        0 => "0",
        1 => "1",
        2 => "2",
        3 => "3",
        4 => "4",
        5 => "5",
        6 => "6",
        7 => "7",
        8 => "8",
        _ => "9",
    };
    assert(s@ =~= seq![digit_char(d as nat)]);
    s
}

/// Joining one more field appends a separator and the field, unless it is
/// the first.
pub proof fn lemma_join_push(fields: Seq<Seq<char>>, last: Seq<char>, sep: char)
    ensures
        join(fields.push(last), sep) == if fields.len() == 0 {
            last
        } else {
            join(fields, sep) + seq![sep] + last
        },
    decreases fields.len(),
{
    let all = fields.push(last);
    if fields.len() == 0 {
    } else if fields.len() == 1 {
        assert(all.drop_first() =~= seq![last]);
        assert(join(all.drop_first(), sep) == last);
    } else {
        let rest = fields.drop_first();
        lemma_join_push(rest, last, sep);
        assert(all.drop_first() =~= rest.push(last));
        assert(join(all, sep) =~= join(fields, sep) + seq![sep] + last);
    }
}

/// The five fields joined, written out.
pub proof fn lemma_join_five(f: Seq<Seq<char>>, sep: char)
    requires
        f.len() == 5,
    ensures
        join(f, sep) == f[0] + seq![sep] + f[1] + seq![sep] + f[2] + seq![sep] + f[3] + seq![sep]
            + f[4],
{
    let f1 = f.drop_first();
    let f2 = f1.drop_first();
    let f3 = f2.drop_first();
    let f4 = f3.drop_first();
    assert(join(f4, sep) == f[4]);
    assert(join(f3, sep) == f[3] + seq![sep] + f[4]);
    assert(join(f2, sep) == f[2] + seq![sep] + join(f3, sep));
    assert(join(f1, sep) == f[1] + seq![sep] + join(f2, sep));
    assert(join(f, sep) =~= f[0] + seq![sep] + f[1] + seq![sep] + f[2] + seq![sep] + f[3]
        + seq![sep] + f[4]);
}

impl HandshakeChoice {
    /// The modifiers fit the base pattern.
    pub open spec fn wf(&self) -> bool {
        modifiers_fit(self.pattern, self.modifiers.list@)
    }

    /// The second field of the protocol name.
    pub fn name(&self) -> (name: String)
        requires
            self.wf(),
        ensures
            name@ == handshake_name(self.pattern, self.modifiers.list@),
    {
        let mut name = String::from_str(self.pattern.as_str());
        let ghost mods = self.modifiers.list@;
        let ghost names = modifier_names(mods);
        let mut i: usize = 0;
        assert(names.take(0) =~= Seq::<Seq<char>>::empty());
        assert(name@ =~= pattern_name(self.pattern) + join(names.take(0), '+'));
        while i < self.modifiers.list.len()
            invariant
                i <= mods.len(),
                mods == self.modifiers.list@,
                names == modifier_names(mods),
                self.wf(),
                name@ == pattern_name(self.pattern) + join(names.take(i as int), '+'),
            decreases mods.len() - i,
        {
            proof {
                reveal_strlit("+");
                lemma_join_push(names.take(i as int), names[i as int], '+');
                assert(names.take(i + 1) =~= names.take(i as int).push(names[i as int]));
                assert("+"@ =~= seq!['+']);
            }
            if i > 0 {
                name.append("+");
            }
            match self.modifiers.list[i] {
                HandshakeModifier::Psk(n) => {
                    assert(mods[i as int] matches HandshakeModifier::Psk(k) ==> k <= base_messages(
                        self.pattern,
                    ).len());
                    assert(base_messages(self.pattern).len() <= 3);
                    name.append("psk");
                    name.append(digit_str(n));
                },
                HandshakeModifier::Fallback => {
                    name.append("fallback");
                },
            }
            assert(name@ =~= pattern_name(self.pattern) + join(names.take(i + 1), '+'));
            i += 1;
        }
        assert(names.take(mods.len() as int) =~= names);
        name
    }
}

impl NoiseParams {
    /// The modifiers fit the base pattern, and the name is the protocol
    /// name of the choices.
    pub open spec fn wf(&self) -> bool {
        &&& self.handshake.wf()
        &&& self.name@ == protocol_name(self@)
    }

    /// The descriptor of the given choices, under its protocol name.
    pub fn new(handshake: HandshakeChoice, dh: DHChoice, cipher: CipherChoice, hash: HashChoice)
        -> (params: Self)
        requires
            handshake.wf(),
        ensures
            params.wf(),
            params.handshake == handshake,
            params.dh == dh,
            params.cipher == cipher,
            params.hash == hash,
    {
        let mut name = String::from_str("Noise");
        name.append("_");
        let field = handshake.name();
        name.append(field.as_str());
        name.append("_");
        name.append(dh.as_str());
        name.append("_");
        name.append(cipher.as_str());
        name.append("_");
        name.append(hash.as_str());
        let params = NoiseParams { name, base: BaseChoice::Noise, handshake, dh, cipher, hash };
        proof {
            reveal_strlit("_");
            assert("_"@ =~= seq!['_']);
            lemma_join_five(name_fields(params@), '_');
        }
        params
    }
}

} // verus!
