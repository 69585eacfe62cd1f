//! The chain-native public-key encoding: a type discriminator and the raw key
//! bytes in Base64, exported as JSON and as that JSON quoted once more.
use vstd::prelude::*;
use subtle_encoding::base64;
use crate::keys::Keypair;

verus! {

/// The character of a 6-bit value in the standard Base64 alphabet
/// (`A`-`Z`, `a`-`z`, `0`-`9`, `+`, `/`).
pub open spec fn base64_char(v: int) -> char {
    if v < 26 {
        ((v + 65) as u8) as char
    } else if v < 52 {
        ((v - 26 + 97) as u8) as char
    } else if v < 62 {
        ((v - 52 + 48) as u8) as char
    } else if v == 62 {
        '+'
    } else {
        '/'
    }
}

/// Standard Base64 of `b`, padded with `=`: each group of three bytes gives
/// four characters, six bits each, high bits first.
pub open spec fn base64_of(b: Seq<u8>) -> Seq<char>
    decreases b.len(),
{
    if b.len() == 0 {
        Seq::empty()
    } else {
        let x = b[0] as int;
        let y = if b.len() > 1 { b[1] as int } else { 0 };
        let z = if b.len() > 2 { b[2] as int } else { 0 };
        let c0 = base64_char(x / 4);
        let c1 = base64_char((x % 4) * 16 + y / 16);
        let c2 = base64_char((y % 16) * 4 + z / 64);
        let c3 = base64_char(z % 64);
        if b.len() == 1 {
            seq![c0, c1, '=', '=']
        } else if b.len() == 2 {
            seq![c0, c1, c2, '=']
        } else {
            seq![c0, c1, c2, c3] + base64_of(b.skip(3))
        }
    }
}

/// Base64 text has four characters for each started group of three bytes.
pub proof fn lemma_base64_len(b: Seq<u8>)
    ensures
        base64_of(b).len() == 4 * ((b.len() + 2) / 3),
    decreases b.len(),
{
    if b.len() >= 3 {
        lemma_base64_len(b.skip(3));
        let n = b.len() as int;
        assert(4 * ((n + 2) / 3) == 4 + 4 * ((n - 3 + 2) / 3)) by (nonlinear_arith)
            requires
                n >= 3,
        ;
    }
}

#[verifier::external_body]
fn base64_text(b: &[u8]) -> (r: String)
    ensures
        r@ == base64_of(b@),
{
    String::from_utf8(base64::encode(b)).unwrap()
}

/// A public key tagged with its scheme.
#[non_exhaustive]
pub enum CosmosPublicKey {
    /// Ed25519 keys
    Ed25519([u8; 32]),
}

/// The discriminator of Ed25519 keys.
pub open spec fn ed25519_tag() -> Seq<char> {
    "/cosmos.crypto.ed25519.PubKey"@
}

/// `{"@type":"<tag>","key":"<key>"}`.
pub open spec fn json_text(tag: Seq<char>, key: Seq<char>) -> Seq<char> {
    "{\"@type\":\""@ + tag + "\",\"key\":\""@ + key + "\"}"@
}

/// `s` with a backslash before each `"` and each `\`.
pub open spec fn escaped(s: Seq<char>) -> Seq<char>
    decreases s.len(),
{
    if s.len() == 0 {
        Seq::empty()
    } else if s.last() == '"' || s.last() == '\\' {
        escaped(s.drop_last()) + seq!['\\', s.last()]
    } else {
        escaped(s.drop_last()).push(s.last())
    }
}

/// `s` escaped and between double quotes. Only `"` and `\` are escaped, so
/// this is a string literal holding `s` for text without control characters
/// (such as the JSON form, which has none); other characters stand as they are.
pub open spec fn quoted(s: Seq<char>) -> Seq<char> {
    seq!['"'] + escaped(s) + seq!['"']
}

impl CosmosPublicKey {
    /// The raw key bytes.
    pub open spec fn key_bytes(&self) -> Seq<u8> {
        match self {
            CosmosPublicKey::Ed25519(b) => b@,
        }
    }

    /// The type discriminator.
    pub open spec fn tag_text(&self) -> Seq<char> {
        match self {
            CosmosPublicKey::Ed25519(_) => ed25519_tag(),
        }
    }

    /// The JSON form.
    pub open spec fn json(&self) -> Seq<char> {
        json_text(self.tag_text(), base64_of(self.key_bytes()))
    }

    /// The encoding of an Ed25519 public key.
    pub fn encode(public: [u8; 32]) -> (r: CosmosPublicKey)
        ensures
            r == CosmosPublicKey::Ed25519(public),
            r.key_bytes() == public@,
            r.tag_text() == ed25519_tag(),
    {
        CosmosPublicKey::Ed25519(public)
    }

    /// The encoding of a keypair's public key.
    pub fn of_keypair(k: &Keypair) -> (r: CosmosPublicKey)
        ensures
            r.key_bytes() == k.public_bytes(),
            r.tag_text() == ed25519_tag(),
    {
        CosmosPublicKey::Ed25519(k.public_key())
    }

    /// The type discriminator.
    pub fn type_tag(&self) -> (r: &'static str)
        ensures
            r@ == self.tag_text(),
    {
        match self {
            CosmosPublicKey::Ed25519(_) => "/cosmos.crypto.ed25519.PubKey",
        }
    }

    /// The key bytes in Base64: 44 characters.
    pub fn key_base64(&self) -> (r: String)
        ensures
            r@ == base64_of(self.key_bytes()),
            r@.len() == 44,
    {
        proof {
            lemma_base64_len(self.key_bytes());
        }
        match self {
            CosmosPublicKey::Ed25519(b) => base64_text(b),
        }
    }

    /// `{"@type":"<discriminator>","key":"<Base64 of the key>"}`.
    pub fn to_json(&self) -> (r: String)
        ensures
            r@ == self.json(),
    {
        let key = self.key_base64();
        let mut s = "{\"@type\":\"".to_owned();
        s.append(self.type_tag());
        s.append("\",\"key\":\"");
        s.append(key.as_str());
        s.append("\"}");
        proof {
            assert(s@ =~= self.json());
        }
        s
    }

    /// The JSON form quoted once more, the text form of the export.
    pub fn to_export_text(&self) -> (r: String)
        ensures
            r@ == quoted(self.json()),
    {
        let json = self.to_json();
        quote(json.as_str())
    }
}

/// `s` between double quotes, with `"` and `\` escaped and nothing else.
pub fn quote(s: &str) -> (r: String)
    ensures
        r@ == quoted(s@),
{
    let n = s.unicode_len();
    let mut out = "\"".to_owned();
    proof {
        reveal_strlit("\"");
        assert(s@.take(0) =~= Seq::<char>::empty());
        assert(out@ =~= seq!['"'] + escaped(s@.take(0)));
    }
    let mut i: usize = 0;
    while i < n
        invariant
            n == s@.len(),
            i <= n,
            out@ == seq!['"'] + escaped(s@.take(i as int)),
        decreases n - i,
    {
        let c = s.get_char(i);
        proof {
            assert(s@.take(i + 1).drop_last() =~= s@.take(i as int));
            assert(s@.take(i + 1).last() == c);
        }
        if c == '"' {
            proof {
                reveal_strlit("\\\"");
            }
            out.append("\\\"");
        } else if c == '\\' {
            proof {
                reveal_strlit("\\\\");
            }
            out.append("\\\\");
        } else {
            out.append(s.substring_char(i, i + 1));
            proof {
                assert(s@.subrange(i as int, i + 1) =~= seq![c]);
            }
        }
        proof {
            assert(out@ =~= seq!['"'] + escaped(s@.take(i + 1)));
        }
        i = i + 1;
    }
    out.append("\"");
    proof {
        reveal_strlit("\"");
        assert(s@.take(n as int) =~= s@);
        assert(out@ =~= quoted(s@));
    }
    out
}

} // verus!
