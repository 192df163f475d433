//! Canonical JSON text for the wire and for key export. The writer is
//! verified down to the character: object scaffolding in fixed field
//! order, string values escaped per JSON (quote, backslash, and control
//! characters as `\u00XX`). Reading inbound frames back into values is
//! plain parsing work left outside the library.

use crate::keygen::Identity;
use crate::message::{MessageEnvelope, VaultsynTransport};
use vstd::prelude::*;
use vstd::string::*;

verus! {

/// The lowercase hex digit for one nibble.
pub open spec fn hex_digit(n: u32) -> char {
    if n < 10 {
        ((48 + n) as u8) as char
    } else {
        ((87 + n) as u8) as char
    }
}

/// How one character appears inside a JSON string literal: quote and
/// backslash escaped, control characters as `\u00XX`, everything else as
/// itself.
pub open spec fn json_escaped_char(c: char) -> Seq<char> {
    if c == '"' {
        seq!['\\', '"']
    } else if c == '\\' {
        seq!['\\', '\\']
    } else if (c as u32) < 32 {
        seq!['\\', 'u', '0', '0', hex_digit((c as u32) / 16), hex_digit((c as u32) % 16)]
    } else {
        seq![c]
    }
}

/// A whole string's characters, escaped.
pub open spec fn json_escaped(s: Seq<char>) -> Seq<char>
    decreases s.len(),
{
    if s.len() == 0 {
        Seq::empty()
    } else {
        json_escaped_char(s[0]) + json_escaped(s.drop_first())
    }
}

/// Escaping distributes over concatenation.
pub(crate) proof fn lemma_json_escaped_concat(a: Seq<char>, b: Seq<char>)
    ensures
        json_escaped(a + b) == json_escaped(a) + json_escaped(b),
    decreases a.len(),
{
    if a.len() == 0 {
        assert(a + b =~= b);
        assert(json_escaped(a) + json_escaped(b) =~= json_escaped(b));
    } else {
        assert((a + b).drop_first() =~= a.drop_first() + b);
        lemma_json_escaped_concat(a.drop_first(), b);
        assert(json_escaped(a + b) =~= json_escaped(a) + json_escaped(b));
    }
}

/// Appends the escaped form of `s` to `out`.
fn push_escaped(out: &mut String, s: &str)
    ensures
        final(out)@ == old(out)@ + json_escaped(s@),
{
    let n = s.unicode_len();
    let mut i: usize = 0;
    while i < n
        invariant
            0 <= i <= n,
            n == s@.len(),
            out@ == old(out)@ + json_escaped(s@.subrange(0, i as int)),
        decreases n - i,
    {
        let c = s.get_char(i);
        let code = c as u32;
        if c == '"' {
            out.push('\\');
            out.push('"');
        } else if c == '\\' {
            out.push('\\');
            out.push('\\');
        } else if code < 32 {
            out.push('\\');
            out.push('u');
            out.push('0');
            out.push('0');
            let hi = (code / 16) as u8;
            let lo = (code % 16) as u8;
            out.push(if hi < 10 {
                (48 + hi) as char
            } else {
                (87 + hi) as char
            });
            out.push(if lo < 10 {
                (48 + lo) as char
            } else {
                (87 + lo) as char
            });
        } else {
            out.push(c);
        }
        proof {
            assert(s@.subrange(0, i as int).push(s@[i as int]) =~= s@.subrange(0, i + 1 as int));
            lemma_json_escaped_concat(s@.subrange(0, i as int), seq![s@[i as int]]);
            assert(seq![s@[i as int]].drop_first() =~= Seq::<char>::empty());
            assert(json_escaped(seq![s@[i as int]]) == json_escaped_char(s@[i as int])
                + json_escaped(Seq::<char>::empty()));
            assert(json_escaped_char(s@[i as int]) + Seq::<char>::empty() =~= json_escaped_char(
                s@[i as int],
            ));
            assert(s@.subrange(0, i as int) + seq![s@[i as int]] =~= s@.subrange(0, i + 1 as int));
            assert(out@ =~= old(out)@ + json_escaped(s@.subrange(0, i + 1 as int)));
        }
        i = i + 1;
    }
    proof {
        assert(s@.subrange(0, n as int) =~= s@);
    }
}

/// The exported public view of an identity, as one JSON object:
/// `{"username":...,"ed25519_public":...,"x25519_public":...}`. Private
/// key material never appears in it.
pub open spec fn public_info_json_of(
    username: Seq<char>,
    ed25519_public: Seq<char>,
    x25519_public: Seq<char>,
) -> Seq<char> {
    "{\"username\":\""@ + json_escaped(username) + "\",\"ed25519_public\":\""@ + json_escaped(
        ed25519_public,
    ) + "\",\"x25519_public\":\""@ + json_escaped(x25519_public) + "\"}"@
}

impl Identity {
    /// The identity's public half as JSON text: username and the two
    /// public keys, nothing private.
    pub fn public_info_json(&self) -> (r: String)
        ensures
            r@ == public_info_json_of(self.username@, self.ed25519_public@, self.x25519_public@),
    {
        let mut out = String::new();
        out.append("{\"username\":\"");
        push_escaped(&mut out, self.username.as_str());
        out.append("\",\"ed25519_public\":\"");
        push_escaped(&mut out, self.ed25519_public.as_str());
        out.append("\",\"x25519_public\":\"");
        push_escaped(&mut out, self.x25519_public.as_str());
        out.append("\"}");
        proof {
            assert(out@ =~= public_info_json_of(
                self.username@,
                self.ed25519_public@,
                self.x25519_public@,
            ));
        }
        out
    }
}

/// An envelope as one JSON object, fields in wire order.
pub open spec fn envelope_json_of(env: MessageEnvelope) -> Seq<char> {
    "{\"from\":\""@ + json_escaped(env.from@) + "\",\"to\":\""@ + json_escaped(env.to@)
        + "\",\"ciphertext\":\""@ + json_escaped(env.ciphertext@) + "\",\"nonce\":\""@
        + json_escaped(env.nonce@) + "\",\"signature\":\""@ + json_escaped(env.signature@)
        + "\"}"@
}

/// A transport frame as one JSON object: the envelope and the sender's
/// two public keys, fields in wire order.
pub open spec fn transport_json_of(t: VaultsynTransport) -> Seq<char> {
    "{\"envelope\":"@ + envelope_json_of(t.envelope) + ",\"sender_ed25519_pub\":\""@
        + json_escaped(t.sender_ed25519_pub@) + "\",\"sender_x25519_pub\":\""@ + json_escaped(
        t.sender_x25519_pub@,
    ) + "\"}"@
}

/// Writes an envelope as JSON text, exactly `envelope_json_of`.
pub fn envelope_to_json(env: &MessageEnvelope) -> (r: String)
    ensures
        r@ == envelope_json_of(*env),
{
    let mut out = String::new();
    out.append("{\"from\":\"");
    push_escaped(&mut out, env.from.as_str());
    out.append("\",\"to\":\"");
    push_escaped(&mut out, env.to.as_str());
    out.append("\",\"ciphertext\":\"");
    push_escaped(&mut out, env.ciphertext.as_str());
    out.append("\",\"nonce\":\"");
    push_escaped(&mut out, env.nonce.as_str());
    out.append("\",\"signature\":\"");
    push_escaped(&mut out, env.signature.as_str());
    out.append("\"}");
    proof {
        assert(out@ =~= envelope_json_of(*env));
    }
    out
}

/// Writes a transport frame as JSON text, exactly `transport_json_of`:
/// what the session broadcasts for one outgoing message.
pub fn transport_to_json(t: &VaultsynTransport) -> (r: String)
    ensures
        r@ == transport_json_of(*t),
{
    let mut out = String::new();
    out.append("{\"envelope\":");
    let envelope_json = envelope_to_json(&t.envelope);
    out.append(envelope_json.as_str());
    out.append(",\"sender_ed25519_pub\":\"");
    push_escaped(&mut out, t.sender_ed25519_pub.as_str());
    out.append("\",\"sender_x25519_pub\":\"");
    push_escaped(&mut out, t.sender_x25519_pub.as_str());
    out.append("\"}");
    proof {
        assert(out@ =~= transport_json_of(*t));
    }
    out
}

} // verus!

