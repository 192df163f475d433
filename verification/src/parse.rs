//! Strict reader for the canonical wire JSON: it accepts exactly what the
//! writer in `json` produces, field for field and escape for escape, and
//! hands back the parsed frame. Soundness and completeness are both in the
//! contracts: whatever parses is the canonical text of its result, and
//! every canonical text parses to the frame it was written from.

use crate::json::{hex_digit, json_escaped, json_escaped_char, lemma_json_escaped_concat, transport_json_of};
use crate::message::{MessageEnvelope, VaultsynTransport};
use vstd::prelude::*;
use vstd::string::*;

verus! {

/// `t` occurs in `s` at position `i`.
pub open spec fn tail_matches(s: Seq<char>, i: int, t: Seq<char>) -> bool {
    &&& i + t.len() <= s.len()
    &&& s.subrange(i, i + t.len()) == t
}

/// One escaped character pulled off the front of an escaped stream.
proof fn lemma_json_escaped_split(u: Seq<char>, k: int)
    requires
        0 <= k < u.len(),
    ensures
        json_escaped(u) == json_escaped(u.subrange(0, k)) + json_escaped_char(u[k])
            + json_escaped(u.subrange(k + 1, u.len() as int)),
{
    let a = u.subrange(0, k);
    let m = seq![u[k]];
    let b = u.subrange(k + 1, u.len() as int);
    assert(u =~= (a + m) + b);
    lemma_json_escaped_concat(a + m, b);
    lemma_json_escaped_concat(a, m);
    assert(m.drop_first() =~= Seq::<char>::empty());
    assert(json_escaped(m) == json_escaped_char(u[k]) + json_escaped(Seq::<char>::empty()));
    assert(json_escaped_char(u[k]) + Seq::<char>::empty() =~= json_escaped_char(u[k]));
}

/// Distinct nibbles have distinct hex digits.
proof fn lemma_hex_digit_inj(a: u32, b: u32)
    requires
        a < 16,
        b < 16,
        hex_digit(a) == hex_digit(b),
    ensures
        a == b,
{
}

/// The value of one lowercase hex digit.
fn hex_val(c: char) -> (r: Option<u8>)
    ensures
        r matches Some(v) ==> v < 16 && c == hex_digit(v as u32),
        r is None ==> forall|x: u32| x < 16 ==> c != hex_digit(x),
{
    let code = c as u32;
    if 48 <= code && code <= 57 {
        Some((code - 48) as u8)
    } else if 97 <= code && code <= 102 {
        Some((code - 87) as u8)
    } else {
        None
    }
}

/// Consumes `lit` at position `i`, or answers that it is not there.
fn expect_lit(s: &str, i: usize, lit: &str) -> (r: Option<usize>)
    requires
        i <= s@.len(),
    ensures
        r matches Some(j) ==> j == i + lit@.len() && j <= s@.len() && s@.subrange(
            i as int,
            j as int,
        ) == lit@,
        r is None ==> !tail_matches(s@, i as int, lit@),
{
    let n = s.unicode_len();
    let m = lit.unicode_len();
    if m > n - i {
        return None;
    }
    let mut k: usize = 0;
    while k < m
        invariant
            0 <= k <= m,
            i + m <= n,
            n == s@.len(),
            m == lit@.len(),
            forall|jj: int| 0 <= jj < k ==> s@[i + jj] == lit@[jj],
        decreases m - k,
    {
        if s.get_char(i + k) != lit.get_char(k) {
            proof {
                assert(s@.subrange(i as int, i + m as int)[k as int] == s@[i + k]);
            }
            return None;
        }
        k = k + 1;
    }
    proof {
        assert(s@.subrange(i as int, i + m as int) =~= lit@);
    }
    Some(i + m)
}

/// Reads an escaped string body starting at `i` (just past the opening
/// quote) up to and including its closing quote, undoing the writer's
/// escapes exactly: `\"`, `\\`, and `\u00XX` for control characters;
/// anything else fails.
fn parse_string_body(s: &str, i: usize) -> (r: Option<(String, usize)>)
    requires
        i <= s@.len(),
    ensures
        r matches Some(p) ==> i <= p.1 <= s@.len() && s@.subrange(i as int, p.1 as int)
            == json_escaped(p.0@) + seq!['"'],
        forall|u: Seq<char>, rest: Seq<char>|
            s@.subrange(i as int, s@.len() as int) == json_escaped(u) + seq!['"'] + rest ==> (
            r matches Some(p) && p.0@ == u && p.1 == i + json_escaped(u).len() + 1),
{
    let n = s.unicode_len();
    let mut acc = String::new();
    let mut pos: usize = i;
    loop
        invariant
            i <= pos <= n,
            n == s@.len(),
            s@.subrange(i as int, pos as int) == json_escaped(acc@),
            forall|u: Seq<char>, rest: Seq<char>|
                s@.subrange(i as int, n as int) == json_escaped(u) + seq!['"'] + rest ==> (acc@.len()
                    <= u.len() && acc@ == u.subrange(0, acc@.len() as int)),
        decreases n - pos,
    {
        proof {
            // For any decomposition still in play, the consumed prefix is
            // the escape of a prefix of u, so the cursor sits either on the
            // first char of u's next escape or on the closing quote.
            assert forall|u: Seq<char>, rest: Seq<char>|
                s@.subrange(i as int, n as int) == json_escaped(u) + seq!['"'] + rest implies ({
                &&& n - i == json_escaped(u).len() + 1 + rest.len()
                &&& pos - i <= json_escaped(u).len()
                &&& pos < n
                &&& acc@.len() < u.len() ==> ({
                    let esc = json_escaped_char(u[acc@.len() as int]);
                    &&& pos - i + esc.len() <= json_escaped(u).len()
                    &&& esc.len() >= 1
                    &&& s@[pos as int] == esc[0]
                    &&& esc.len() >= 2 ==> s@[pos + 1] == esc[1]
                    &&& esc.len() == 6 ==> s@[pos + 2] == esc[2] && s@[pos + 3] == esc[3] && s@[pos
                        + 4] == esc[4] && s@[pos + 5] == esc[5]
                })
                &&& acc@.len() == u.len() ==> pos - i == json_escaped(u).len() && s@[pos as int]
                    == '"'
            }) by {
                let k = acc@.len() as int;
                assert(acc@ == u.subrange(0, k));
                assert(s@.subrange(i as int, n as int).len() == n - i);
                if k < u.len() {
                    lemma_json_escaped_split(u, k);
                    let esc = json_escaped_char(u[k]);
                    let pre = json_escaped(u.subrange(0, k));
                    assert(pos - i == pre.len());
                    assert forall|jj: int| 0 <= jj < esc.len() implies s@[pos + jj] == esc[jj] by {
                        assert(s@.subrange(i as int, n as int)[pos - i + jj] == s@[pos + jj]);
                        assert((json_escaped(u) + seq!['"'] + rest)[pre.len() + jj] == esc[jj]);
                    }
                } else {
                    assert(u.subrange(0, k) =~= u);
                    assert(json_escaped(u) == json_escaped(acc@));
                    assert(s@.subrange(i as int, n as int)[pos - i] == s@[pos as int]);
                    assert((json_escaped(u) + seq!['"'] + rest)[json_escaped(u).len() as int]
                        == '"');
                }
            }
        }
        if pos >= n {
            // Any live decomposition still owes at least the closing quote.
            return None;
        }
        let c = s.get_char(pos);
        let ghost old_acc = acc@;
        let ghost old_pos = pos as int;
        if c == '"' {
            proof {
                assert(s@.subrange(i as int, pos + 1 as int) =~= json_escaped(acc@) + seq!['"']);
                assert forall|u: Seq<char>, rest: Seq<char>|
                    s@.subrange(i as int, n as int) == json_escaped(u) + seq!['"'] + rest
                        implies acc@ == u && pos + 1 == i + json_escaped(u).len() + 1 by {
                    let k = acc@.len() as int;
                    if k < u.len() {
                        // u's next escape would start here, and no escape
                        // starts with a quote.
                        let esc = json_escaped_char(u[k]);
                        assert(s@[pos as int] == esc[0]);
                        assert(esc[0] != '"');
                        assert(false);
                    }
                    assert(u.subrange(0, k) =~= u);
                    assert(acc@ =~= u);
                }
            }
            return Some((acc, pos + 1));
        } else if c == '\\' {
            if n - pos < 2 {
                return None;
            }
            let d = s.get_char(pos + 1);
            if d == '"' || d == '\\' {
                let unescaped = if d == '"' {
                    '"'
                } else {
                    '\\'
                };
                acc.push(unescaped);
                pos = pos + 2;
                proof {
                    lemma_json_escaped_concat(old_acc, seq![unescaped]);
                    assert(seq![unescaped].drop_first() =~= Seq::<char>::empty());
                    assert(json_escaped_char(unescaped) + json_escaped(Seq::<char>::empty())
                        =~= json_escaped_char(unescaped));
                    assert(acc@ =~= old_acc + seq![unescaped]);
                    assert(s@.subrange(i as int, pos as int) =~= json_escaped(old_acc)
                        + json_escaped_char(unescaped));
                    assert forall|u: Seq<char>, rest: Seq<char>|
                        s@.subrange(i as int, n as int) == json_escaped(u) + seq!['"'] + rest
                            implies acc@.len() <= u.len() && acc@ == u.subrange(
                        0,
                        acc@.len() as int,
                    ) by {
                        let k = old_acc.len() as int;
                        if k == u.len() {
                            assert(s@[old_pos] == '"');
                            assert(false);
                        }
                        let esc = json_escaped_char(u[k]);
                        assert(s@[old_pos] == esc[0]);
                        assert(s@[old_pos + 1] == esc[1]) by {
                            assert(esc.len() >= 2);
                        }
                        assert(u[k] == unescaped);
                        assert(acc@ =~= u.subrange(0, k + 1));
                    }
                }
            } else if d == 'u' {
                if n - pos < 6 {
                    return None;
                }
                if s.get_char(pos + 2) != '0' || s.get_char(pos + 3) != '0' {
                    return None;
                }
                let hi = match hex_val(s.get_char(pos + 4)) {
                    Some(v) => v,
                    None => {
                        return None;
                    },
                };
                let lo = match hex_val(s.get_char(pos + 5)) {
                    Some(v) => v,
                    None => {
                        return None;
                    },
                };
                let code: u8 = hi * 16 + lo;
                if code >= 32 {
                    return None;
                }
                let unescaped = code as char;
                proof {
                    assert((unescaped as u32) == code as u32);
                    assert(hex_digit((unescaped as u32) / 16) == hex_digit(hi as u32)) by {
                        assert((code as u32) / 16 == hi as u32) by (nonlinear_arith)
                            requires
                                hi < 16,
                                lo < 16,
                                code == hi * 16 + lo,
                        ;
                    }
                    assert(hex_digit((unescaped as u32) % 16) == hex_digit(lo as u32)) by {
                        assert((code as u32) % 16 == lo as u32) by (nonlinear_arith)
                            requires
                                hi < 16,
                                lo < 16,
                                code == hi * 16 + lo,
                        ;
                    }
                    assert(json_escaped_char(unescaped) =~= seq![
                        '\\',
                        'u',
                        '0',
                        '0',
                        hex_digit(hi as u32),
                        hex_digit(lo as u32),
                    ]);
                }
                acc.push(unescaped);
                pos = pos + 6;
                proof {
                    lemma_json_escaped_concat(old_acc, seq![unescaped]);
                    assert(seq![unescaped].drop_first() =~= Seq::<char>::empty());
                    assert(json_escaped_char(unescaped) + json_escaped(Seq::<char>::empty())
                        =~= json_escaped_char(unescaped));
                    assert(acc@ =~= old_acc + seq![unescaped]);
                    assert(s@.subrange(i as int, pos as int) =~= json_escaped(old_acc)
                        + json_escaped_char(unescaped));
                    assert forall|u: Seq<char>, rest: Seq<char>|
                        s@.subrange(i as int, n as int) == json_escaped(u) + seq!['"'] + rest
                            implies acc@.len() <= u.len() && acc@ == u.subrange(
                        0,
                        acc@.len() as int,
                    ) by {
                        let k = old_acc.len() as int;
                        if k == u.len() {
                            assert(s@[old_pos] == '"');
                            assert(false);
                        }
                        let esc = json_escaped_char(u[k]);
                        assert(s@[old_pos] == esc[0]);
                        assert(s@[old_pos + 1] == esc[1]) by {
                            assert(esc.len() >= 2);
                        }
                        // The escape is a \u00XX form; its hex digits pin
                        // the code point.
                        assert(u[k] != '"' && u[k] != '\\');
                        assert((u[k] as u32) < 32);
                        assert(s@[old_pos + 4] == esc[4] && s@[old_pos + 5] == esc[5]);
                        assert((u[k] as u32) / 16 < 16 && (u[k] as u32) % 16 < 16) by (nonlinear_arith)
                            requires
                                (u[k] as u32) < 32,
                        ;
                        assert(hex_digit((u[k] as u32) / 16) == hex_digit(hi as u32));
                        lemma_hex_digit_inj((u[k] as u32) / 16, hi as u32);
                        assert(hex_digit((u[k] as u32) % 16) == hex_digit(lo as u32));
                        lemma_hex_digit_inj((u[k] as u32) % 16, lo as u32);
                        assert((u[k] as u32) == (hi as u32) * 16 + lo as u32) by (nonlinear_arith)
                            requires
                                (u[k] as u32) / 16 == hi as u32,
                                (u[k] as u32) % 16 == lo as u32,
                        ;
                        assert((u[k] as u32) == code as u32);
                        vstd::utf8::char_u32_cast(u[k], u[k] as u32);
                        vstd::utf8::char_u32_cast(unescaped, unescaped as u32);
                        assert(u[k] == unescaped);
                        assert(acc@ =~= u.subrange(0, k + 1));
                    }
                }
            } else {
                return None;
            }
        } else {
            let code = c as u32;
            if code < 32 {
                return None;
            }
            acc.push(c);
            pos = pos + 1;
            proof {
                lemma_json_escaped_concat(old_acc, seq![c]);
                assert(seq![c].drop_first() =~= Seq::<char>::empty());
                assert(json_escaped_char(c) + json_escaped(Seq::<char>::empty())
                    =~= json_escaped_char(c));
                assert(acc@ =~= old_acc + seq![c]);
                assert(json_escaped_char(c) =~= seq![c]);
                assert(s@.subrange(i as int, pos as int) =~= json_escaped(old_acc)
                    + json_escaped_char(c));
                assert forall|u: Seq<char>, rest: Seq<char>|
                    s@.subrange(i as int, n as int) == json_escaped(u) + seq!['"'] + rest
                        implies acc@.len() <= u.len() && acc@ == u.subrange(
                    0,
                    acc@.len() as int,
                ) by {
                    let k = old_acc.len() as int;
                    if k == u.len() {
                        assert(s@[old_pos] == '"');
                        assert(false);
                    }
                    let esc = json_escaped_char(u[k]);
                    assert(s@[old_pos] == esc[0]);
                    assert(u[k] == c);
                    assert(acc@ =~= u.subrange(0, k + 1));
                }
            }
        }
    }
}

/// One field of an object: a fixed scaffold (everything from the previous
/// value up to and including this value's opening quote), then an escaped
/// string value with its closing quote.
fn parse_field(s: &str, q: usize, lit: &str) -> (r: Option<(String, usize)>)
    requires
        q <= s@.len(),
    ensures
        r matches Some(p) ==> q <= p.1 <= s@.len() && s@.subrange(q as int, p.1 as int) == lit@
            + json_escaped(p.0@) + seq!['"'],
        forall|u: Seq<char>, rest: Seq<char>|
            s@.subrange(q as int, s@.len() as int) == lit@ + (json_escaped(u) + seq!['"']) + rest
                ==> (r matches Some(p) && p.0@ == u && p.1 == q + lit@.len()
                + json_escaped(u).len() + 1),
{
    let ghost n = s@.len() as int;
    let j = match expect_lit(s, q, lit) {
        Some(j) => j,
        None => {
            proof {
                assert forall|u: Seq<char>, rest: Seq<char>|
                    s@.subrange(q as int, n) == lit@ + (json_escaped(u) + seq!['"']) + rest
                        implies false by {
                    assert(s@.subrange(q as int, n).len() == n - q);
                    assert((lit@ + (json_escaped(u) + seq!['"']) + rest).len() == lit@.len() + (
                    json_escaped(u) + seq!['"']).len() + rest.len());
                    assert(n - q == lit@.len() + (json_escaped(u) + seq!['"']).len()
                        + rest.len());
                    assert forall|jj: int|
                        0 <= jj < lit@.len() implies s@.subrange(
                        q as int,
                        q + lit@.len(),
                    )[jj] == lit@[jj] by {
                        assert(s@.subrange(q as int, n)[jj] == (lit@ + (json_escaped(u)
                            + seq!['"']) + rest)[jj]);
                        assert(s@.subrange(q as int, n)[jj] == s@[q + jj]);
                        assert(s@.subrange(q as int, q + lit@.len())[jj] == s@[q + jj]);
                    }
                    assert(s@.subrange(q as int, q + lit@.len()) =~= lit@);
                    assert(tail_matches(s@, q as int, lit@));
                }
            }
            return None;
        },
    };
    proof {
        assert forall|u: Seq<char>, rest: Seq<char>|
            s@.subrange(q as int, n) == lit@ + (json_escaped(u) + seq!['"']) + rest
                implies s@.subrange(j as int, n) == json_escaped(u) + seq!['"'] + rest by {
            assert(s@.subrange(q as int, n).len() == n - q);
            assert((lit@ + (json_escaped(u) + seq!['"']) + rest).len() == lit@.len() + (
            json_escaped(u) + seq!['"']).len() + rest.len());
            assert(n - q == lit@.len() + (json_escaped(u) + seq!['"']).len() + rest.len());
            assert(s@.subrange(j as int, n).len() == n - j);
            assert forall|jj: int|
                0 <= jj < n - j implies s@.subrange(j as int, n)[jj] == (json_escaped(u)
                + seq!['"'] + rest)[jj] by {
                assert(s@.subrange(q as int, n)[lit@.len() + jj] == (lit@ + (json_escaped(u)
                    + seq!['"']) + rest)[lit@.len() + jj]);
                assert(s@.subrange(q as int, n)[lit@.len() + jj] == s@[q + lit@.len() + jj]);
                assert(s@.subrange(j as int, n)[jj] == s@[j + jj]);
            }
            assert(s@.subrange(j as int, n) =~= json_escaped(u) + seq!['"'] + rest);
        }
    }
    let body = match parse_string_body(s, j) {
        Some(p) => p,
        None => {
            proof {
                assert forall|u: Seq<char>, rest: Seq<char>|
                    s@.subrange(q as int, n) == lit@ + (json_escaped(u) + seq!['"']) + rest
                        implies false by {
                    assert(s@.subrange(j as int, n) == json_escaped(u) + seq!['"'] + rest);
                }
            }
            return None;
        },
    };
    let (value, end) = body;
    proof {
        assert(q <= j <= end <= s@.len());
        assert(s@.subrange(q as int, end as int).len() == end - q);
        assert(s@.subrange(q as int, j as int).len() == lit@.len());
        assert(s@.subrange(j as int, end as int).len() == json_escaped(value@).len() + 1);
        assert forall|jj: int|
            0 <= jj < end - q implies s@.subrange(q as int, end as int)[jj] == (lit@
            + json_escaped(value@) + seq!['"'])[jj] by {
            assert(s@.subrange(q as int, end as int)[jj] == s@[q + jj]);
            if jj < lit@.len() {
                assert(s@.subrange(q as int, j as int)[jj] == s@[q + jj]);
            } else {
                assert(s@.subrange(j as int, end as int)[jj - lit@.len()] == s@[j + (jj
                    - lit@.len())]);
                assert((json_escaped(value@) + seq!['"'])[jj - lit@.len()] == (lit@
                    + json_escaped(value@) + seq!['"'])[jj]);
            }
        }
        assert(s@.subrange(q as int, end as int) =~= lit@ + json_escaped(value@) + seq!['"']);
        assert forall|u: Seq<char>, rest: Seq<char>|
            s@.subrange(q as int, n) == lit@ + (json_escaped(u) + seq!['"']) + rest
                implies value@ == u && end == q + lit@.len() + json_escaped(u).len() + 1 by {
            assert(s@.subrange(j as int, n) == json_escaped(u) + seq!['"'] + rest);
        }
    }
    Some((value, end))
}

/// An escaped string value with its closing quote.
pub open spec fn quoted_value(v: Seq<char>) -> Seq<char> {
    json_escaped(v) + seq!['"']
}

/// The canonical frame from the sender X25519 field on.
spec fn tail_sender_x(t: VaultsynTransport) -> Seq<char> {
    ",\"sender_x25519_pub\":\""@ + quoted_value(t.sender_x25519_pub@) + "}"@
}

/// The canonical frame from the close of the envelope object on.
spec fn frame_after_signature(t: VaultsynTransport) -> Seq<char> {
    "},\"sender_ed25519_pub\":\""@ + quoted_value(t.sender_ed25519_pub@) + tail_sender_x(t)
}

/// The canonical frame from the signature field on.
spec fn tail_signature(t: VaultsynTransport) -> Seq<char> {
    ",\"signature\":\""@ + quoted_value(t.envelope.signature@) + frame_after_signature(t)
}

/// The canonical frame from the nonce field on.
spec fn tail_nonce(t: VaultsynTransport) -> Seq<char> {
    ",\"nonce\":\""@ + quoted_value(t.envelope.nonce@) + tail_signature(t)
}

/// The canonical frame from the ciphertext field on.
spec fn tail_ciphertext(t: VaultsynTransport) -> Seq<char> {
    ",\"ciphertext\":\""@ + quoted_value(t.envelope.ciphertext@) + tail_nonce(t)
}

/// The canonical frame from the `to` field on.
spec fn tail_to(t: VaultsynTransport) -> Seq<char> {
    ",\"to\":\""@ + quoted_value(t.envelope.to@) + tail_ciphertext(t)
}

/// A canonical frame, flattened into the parser's own steps: one scaffold
/// and one quoted value per field. Equal to `transport_json_of`.
spec fn transport_json_flat(t: VaultsynTransport) -> Seq<char> {
    "{\"envelope\":{\"from\":\""@ + quoted_value(t.envelope.from@) + tail_to(t)
}

/// The writer's grouping and the parser's grouping are the same text.
#[verifier::rlimit(100)]
#[verifier::spinoff_prover]
proof fn lemma_transport_json_flat(t: VaultsynTransport)
    ensures
        transport_json_of(t) == transport_json_flat(t),
{
    reveal_strlit("{\"envelope\":");
    reveal_strlit("{\"from\":\"");
    reveal_strlit("{\"envelope\":{\"from\":\"");
    reveal_strlit("\",\"to\":\"");
    reveal_strlit(",\"to\":\"");
    reveal_strlit("\",\"ciphertext\":\"");
    reveal_strlit(",\"ciphertext\":\"");
    reveal_strlit("\",\"nonce\":\"");
    reveal_strlit(",\"nonce\":\"");
    reveal_strlit("\",\"signature\":\"");
    reveal_strlit(",\"signature\":\"");
    reveal_strlit("\"}");
    reveal_strlit(",\"sender_ed25519_pub\":\"");
    reveal_strlit("},\"sender_ed25519_pub\":\"");
    reveal_strlit("\",\"sender_x25519_pub\":\"");
    reveal_strlit(",\"sender_x25519_pub\":\"");
    reveal_strlit("}");
    assert("{\"envelope\":"@ + "{\"from\":\""@ =~= "{\"envelope\":{\"from\":\""@);
    assert("\",\"to\":\""@ =~= seq!['"'] + ",\"to\":\""@);
    assert("\",\"ciphertext\":\""@ =~= seq!['"'] + ",\"ciphertext\":\""@);
    assert("\",\"nonce\":\""@ =~= seq!['"'] + ",\"nonce\":\""@);
    assert("\",\"signature\":\""@ =~= seq!['"'] + ",\"signature\":\""@);
    assert("\"}"@ + ",\"sender_ed25519_pub\":\""@ =~= seq!['"']
        + "},\"sender_ed25519_pub\":\""@);
    assert("\",\"sender_x25519_pub\":\""@ =~= seq!['"'] + ",\"sender_x25519_pub\":\""@);
    assert("\"}"@ =~= seq!['"'] + "}"@);
    assert(transport_json_of(t) =~= transport_json_flat(t));
}

/// Dropping a consumed scaffold-and-value prefix leaves the rest.
proof fn lemma_drop_scaffold(s: Seq<char>, q: int, lit: Seq<char>, val: Seq<char>, nxt: Seq<char>, q2: int)
    requires
        0 <= q <= s.len(),
        s.subrange(q, s.len() as int) == lit + (json_escaped(val) + seq!['"']) + nxt,
        q2 == q + lit.len() + json_escaped(val).len() + 1,
    ensures
        q <= q2 <= s.len(),
        s.subrange(q2, s.len() as int) == nxt,
{
    let n = s.len() as int;
    assert(s.subrange(q, n).len() == n - q);
    assert((lit + (json_escaped(val) + seq!['"']) + nxt).len() == lit.len() + (json_escaped(val)
        + seq!['"']).len() + nxt.len());
    assert forall|jj: int| 0 <= jj < n - q2 implies s.subrange(q2, n)[jj] == nxt[jj] by {
        assert(s.subrange(q, n)[q2 - q + jj] == (lit + (json_escaped(val) + seq!['"'])
            + nxt)[q2 - q + jj]);
        assert(s.subrange(q, n)[q2 - q + jj] == s[q2 + jj]);
        assert(s.subrange(q2, n)[jj] == s[q2 + jj]);
    }
    assert(s.subrange(q2, n) =~= nxt);
}

/// Consecutive spans concatenate.
proof fn lemma_subrange_join(s: Seq<char>, a: int, b: int, c: int)
    requires
        0 <= a <= b <= c <= s.len(),
    ensures
        s.subrange(a, c) == s.subrange(a, b) + s.subrange(b, c),
{
    assert(s.subrange(a, c) =~= s.subrange(a, b) + s.subrange(b, c));
}

/// The flattened frame, regrouped around the parser's spans.
#[verifier::rlimit(100)]
#[verifier::spinoff_prover]
proof fn lemma_regroup(t: VaultsynTransport)
    ensures
        transport_json_flat(t) == ("{\"envelope\":{\"from\":\""@ + json_escaped(
            t.envelope.from@,
        ) + seq!['"']) + (",\"to\":\""@ + json_escaped(t.envelope.to@) + seq!['"']) + (
        ",\"ciphertext\":\""@ + json_escaped(t.envelope.ciphertext@) + seq!['"']) + (
        ",\"nonce\":\""@ + json_escaped(t.envelope.nonce@) + seq!['"']) + (
        ",\"signature\":\""@ + json_escaped(t.envelope.signature@) + seq!['"']) + (
        "},\"sender_ed25519_pub\":\""@ + json_escaped(t.sender_ed25519_pub@) + seq!['"']) + (
        ",\"sender_x25519_pub\":\""@ + json_escaped(t.sender_x25519_pub@) + seq!['"']) + "}"@,
{
    reveal_strlit("{\"envelope\":{\"from\":\"");
    reveal_strlit(",\"to\":\"");
    reveal_strlit(",\"ciphertext\":\"");
    reveal_strlit(",\"nonce\":\"");
    reveal_strlit(",\"signature\":\"");
    reveal_strlit("},\"sender_ed25519_pub\":\"");
    reveal_strlit(",\"sender_x25519_pub\":\"");
    reveal_strlit("}");
    assert(transport_json_flat(t) =~= ("{\"envelope\":{\"from\":\""@ + json_escaped(
        t.envelope.from@,
    ) + seq!['"']) + (",\"to\":\""@ + json_escaped(t.envelope.to@) + seq!['"']) + (
    ",\"ciphertext\":\""@ + json_escaped(t.envelope.ciphertext@) + seq!['"']) + (
    ",\"nonce\":\""@ + json_escaped(t.envelope.nonce@) + seq!['"']) + (",\"signature\":\""@
        + json_escaped(t.envelope.signature@) + seq!['"']) + ("},\"sender_ed25519_pub\":\""@
        + json_escaped(t.sender_ed25519_pub@) + seq!['"']) + (",\"sender_x25519_pub\":\""@
        + json_escaped(t.sender_x25519_pub@) + seq!['"']) + "}"@);
}

/// Stitches the parsed spans back into one canonical frame.
proof fn lemma_assemble_frame(
    s: Seq<char>,
    q1: int,
    q2: int,
    q3: int,
    q4: int,
    q5: int,
    q6: int,
    q7: int,
    t: VaultsynTransport,
)
    requires
        0 <= q1 <= q2 <= q3 <= q4 <= q5 <= q6 <= q7 <= s.len(),
        s.subrange(0, q1) == "{\"envelope\":{\"from\":\""@ + json_escaped(t.envelope.from@)
            + seq!['"'],
        s.subrange(q1, q2) == ",\"to\":\""@ + json_escaped(t.envelope.to@) + seq!['"'],
        s.subrange(q2, q3) == ",\"ciphertext\":\""@ + json_escaped(t.envelope.ciphertext@)
            + seq!['"'],
        s.subrange(q3, q4) == ",\"nonce\":\""@ + json_escaped(t.envelope.nonce@) + seq!['"'],
        s.subrange(q4, q5) == ",\"signature\":\""@ + json_escaped(t.envelope.signature@)
            + seq!['"'],
        s.subrange(q5, q6) == "},\"sender_ed25519_pub\":\""@ + json_escaped(
            t.sender_ed25519_pub@,
        ) + seq!['"'],
        s.subrange(q6, q7) == ",\"sender_x25519_pub\":\""@ + json_escaped(t.sender_x25519_pub@)
            + seq!['"'],
        s.subrange(q7, s.len() as int) == "}"@,
    ensures
        s == transport_json_flat(t),
{
    let n = s.len() as int;
    lemma_subrange_join(s, 0, q1, q2);
    lemma_subrange_join(s, 0, q2, q3);
    lemma_subrange_join(s, 0, q3, q4);
    lemma_subrange_join(s, 0, q4, q5);
    lemma_subrange_join(s, 0, q5, q6);
    lemma_subrange_join(s, 0, q6, q7);
    lemma_subrange_join(s, 0, q7, n);
    assert(s =~= s.subrange(0, n));
    lemma_regroup(t);
}

/// Reads one canonical wire frame back into a transport. Strict: it
/// accepts exactly the text that `transport_to_json` writes — same field
/// order, no extra whitespace, escapes as the writer makes them — and on
/// such text it recovers every field verbatim. Anything else is refused,
/// which is what a malformed transport means on this wire.
#[verifier::rlimit(100)]
pub fn parse_transport(s: &str) -> (r: Option<VaultsynTransport>)
    ensures
        r matches Some(t) ==> s@ == transport_json_of(t),
        forall|t: VaultsynTransport| #[trigger] transport_json_of(t) == s@ ==> (r matches Some(t2)
            && t2.envelope.from@ == t.envelope.from@ && t2.envelope.to@ == t.envelope.to@
            && t2.envelope.ciphertext@ == t.envelope.ciphertext@ && t2.envelope.nonce@
            == t.envelope.nonce@ && t2.envelope.signature@ == t.envelope.signature@
            && t2.sender_ed25519_pub@ == t.sender_ed25519_pub@ && t2.sender_x25519_pub@
            == t.sender_x25519_pub@),
{
    let ghost n = s@.len() as int;
    let total = s.unicode_len();
    proof {
        assert forall|t: VaultsynTransport| transport_json_of(t) == s@
            implies s@.subrange(0, n) == transport_json_flat(t) by {
            lemma_transport_json_flat(t);
            assert(s@.subrange(0, n) =~= s@);
        }
    }
    let (from_v, q1) = match parse_field(s, 0, "{\"envelope\":{\"from\":\"") {
        Some(p) => p,
        None => {
            proof {
                assert forall|t: VaultsynTransport| transport_json_of(t) == s@ implies false by {
                    assert(s@.subrange(0 as int, n) == "{\"envelope\":{\"from\":\""@ + (json_escaped(t.envelope.from@)
                        + seq!['"']) + tail_to(t));
                }
            }
            return None;
        },
    };
    proof {
        assert forall|t: VaultsynTransport| transport_json_of(t) == s@ implies from_v@ == t.envelope.from@
            && s@.subrange(q1 as int, n) == tail_to(t) by {
            assert(s@.subrange(0 as int, n) == "{\"envelope\":{\"from\":\""@ + (json_escaped(t.envelope.from@)
                + seq!['"']) + tail_to(t));
            assert(from_v@ == t.envelope.from@ && q1 == 0 + "{\"envelope\":{\"from\":\""@.len() + json_escaped(t.envelope.from@).len()
                + 1);
            lemma_drop_scaffold(s@, 0 as int, "{\"envelope\":{\"from\":\""@, t.envelope.from@, tail_to(t), q1 as int);
        }
    }
    let (to_v, q2) = match parse_field(s, q1, ",\"to\":\"") {
        Some(p) => p,
        None => {
            proof {
                assert forall|t: VaultsynTransport| transport_json_of(t) == s@ implies false by {
                    assert(s@.subrange(q1 as int, n) == ",\"to\":\""@ + (json_escaped(t.envelope.to@)
                        + seq!['"']) + tail_ciphertext(t));
                }
            }
            return None;
        },
    };
    proof {
        assert forall|t: VaultsynTransport| transport_json_of(t) == s@ implies to_v@ == t.envelope.to@
            && s@.subrange(q2 as int, n) == tail_ciphertext(t) by {
            assert(s@.subrange(q1 as int, n) == ",\"to\":\""@ + (json_escaped(t.envelope.to@)
                + seq!['"']) + tail_ciphertext(t));
            assert(to_v@ == t.envelope.to@ && q2 == q1 + ",\"to\":\""@.len() + json_escaped(t.envelope.to@).len()
                + 1);
            lemma_drop_scaffold(s@, q1 as int, ",\"to\":\""@, t.envelope.to@, tail_ciphertext(t), q2 as int);
        }
    }
    let (ciphertext_v, q3) = match parse_field(s, q2, ",\"ciphertext\":\"") {
        Some(p) => p,
        None => {
            proof {
                assert forall|t: VaultsynTransport| transport_json_of(t) == s@ implies false by {
                    assert(s@.subrange(q2 as int, n) == ",\"ciphertext\":\""@ + (json_escaped(t.envelope.ciphertext@)
                        + seq!['"']) + tail_nonce(t));
                }
            }
            return None;
        },
    };
    proof {
        assert forall|t: VaultsynTransport| transport_json_of(t) == s@ implies ciphertext_v@ == t.envelope.ciphertext@
            && s@.subrange(q3 as int, n) == tail_nonce(t) by {
            assert(s@.subrange(q2 as int, n) == ",\"ciphertext\":\""@ + (json_escaped(t.envelope.ciphertext@)
                + seq!['"']) + tail_nonce(t));
            assert(ciphertext_v@ == t.envelope.ciphertext@ && q3 == q2 + ",\"ciphertext\":\""@.len() + json_escaped(t.envelope.ciphertext@).len()
                + 1);
            lemma_drop_scaffold(s@, q2 as int, ",\"ciphertext\":\""@, t.envelope.ciphertext@, tail_nonce(t), q3 as int);
        }
    }
    let (nonce_v, q4) = match parse_field(s, q3, ",\"nonce\":\"") {
        Some(p) => p,
        None => {
            proof {
                assert forall|t: VaultsynTransport| transport_json_of(t) == s@ implies false by {
                    assert(s@.subrange(q3 as int, n) == ",\"nonce\":\""@ + (json_escaped(t.envelope.nonce@)
                        + seq!['"']) + tail_signature(t));
                }
            }
            return None;
        },
    };
    proof {
        assert forall|t: VaultsynTransport| transport_json_of(t) == s@ implies nonce_v@ == t.envelope.nonce@
            && s@.subrange(q4 as int, n) == tail_signature(t) by {
            assert(s@.subrange(q3 as int, n) == ",\"nonce\":\""@ + (json_escaped(t.envelope.nonce@)
                + seq!['"']) + tail_signature(t));
            assert(nonce_v@ == t.envelope.nonce@ && q4 == q3 + ",\"nonce\":\""@.len() + json_escaped(t.envelope.nonce@).len()
                + 1);
            lemma_drop_scaffold(s@, q3 as int, ",\"nonce\":\""@, t.envelope.nonce@, tail_signature(t), q4 as int);
        }
    }
    let (signature_v, q5) = match parse_field(s, q4, ",\"signature\":\"") {
        Some(p) => p,
        None => {
            proof {
                assert forall|t: VaultsynTransport| transport_json_of(t) == s@ implies false by {
                    assert(s@.subrange(q4 as int, n) == ",\"signature\":\""@ + (json_escaped(t.envelope.signature@)
                        + seq!['"']) + frame_after_signature(t));
                }
            }
            return None;
        },
    };
    proof {
        assert forall|t: VaultsynTransport| transport_json_of(t) == s@ implies signature_v@ == t.envelope.signature@
            && s@.subrange(q5 as int, n) == frame_after_signature(t) by {
            assert(s@.subrange(q4 as int, n) == ",\"signature\":\""@ + (json_escaped(t.envelope.signature@)
                + seq!['"']) + frame_after_signature(t));
            assert(signature_v@ == t.envelope.signature@ && q5 == q4 + ",\"signature\":\""@.len() + json_escaped(t.envelope.signature@).len()
                + 1);
            lemma_drop_scaffold(s@, q4 as int, ",\"signature\":\""@, t.envelope.signature@, frame_after_signature(t), q5 as int);
        }
    }
    let (se_v, q6) = match parse_field(s, q5, "},\"sender_ed25519_pub\":\"") {
        Some(p) => p,
        None => {
            proof {
                assert forall|t: VaultsynTransport| transport_json_of(t) == s@ implies false by {
                    assert(s@.subrange(q5 as int, n) == "},\"sender_ed25519_pub\":\""@ + (json_escaped(t.sender_ed25519_pub@)
                        + seq!['"']) + tail_sender_x(t));
                }
            }
            return None;
        },
    };
    proof {
        assert forall|t: VaultsynTransport| transport_json_of(t) == s@ implies se_v@ == t.sender_ed25519_pub@
            && s@.subrange(q6 as int, n) == tail_sender_x(t) by {
            assert(s@.subrange(q5 as int, n) == "},\"sender_ed25519_pub\":\""@ + (json_escaped(t.sender_ed25519_pub@)
                + seq!['"']) + tail_sender_x(t));
            assert(se_v@ == t.sender_ed25519_pub@ && q6 == q5 + "},\"sender_ed25519_pub\":\""@.len() + json_escaped(t.sender_ed25519_pub@).len()
                + 1);
            lemma_drop_scaffold(s@, q5 as int, "},\"sender_ed25519_pub\":\""@, t.sender_ed25519_pub@, tail_sender_x(t), q6 as int);
        }
    }
    let (sx_v, q7) = match parse_field(s, q6, ",\"sender_x25519_pub\":\"") {
        Some(p) => p,
        None => {
            proof {
                assert forall|t: VaultsynTransport| transport_json_of(t) == s@ implies false by {
                    assert(s@.subrange(q6 as int, n) == ",\"sender_x25519_pub\":\""@ + (json_escaped(t.sender_x25519_pub@)
                        + seq!['"']) + "}"@);
                }
            }
            return None;
        },
    };
    proof {
        assert forall|t: VaultsynTransport| transport_json_of(t) == s@ implies sx_v@ == t.sender_x25519_pub@
            && s@.subrange(q7 as int, n) == "}"@ by {
            assert(s@.subrange(q6 as int, n) == ",\"sender_x25519_pub\":\""@ + (json_escaped(t.sender_x25519_pub@)
                + seq!['"']) + "}"@);
            assert(sx_v@ == t.sender_x25519_pub@ && q7 == q6 + ",\"sender_x25519_pub\":\""@.len() + json_escaped(t.sender_x25519_pub@).len()
                + 1);
            lemma_drop_scaffold(s@, q6 as int, ",\"sender_x25519_pub\":\""@, t.sender_x25519_pub@, "}"@, q7 as int);
        }
    }
    let q8 = match expect_lit(s, q7, "}") {
        Some(j) => j,
        None => {
            proof {
                reveal_strlit("}");
                assert forall|t: VaultsynTransport| transport_json_of(t) == s@ implies false by {
                    assert(s@.subrange(q7 as int, n).len() == n - q7);
                    assert(s@.subrange(q7 as int, q7 + 1) =~= s@.subrange(q7 as int, n));
                    assert(tail_matches(s@, q7 as int, "}"@));
                }
            }
            return None;
        },
    };
    if q8 != total {
        proof {
            reveal_strlit("}");
            assert forall|t: VaultsynTransport| transport_json_of(t) == s@ implies false by {
                assert(s@.subrange(q7 as int, n).len() == n - q7);
            }
        }
        return None;
    }
    let t2 = VaultsynTransport {
        envelope: MessageEnvelope {
            from: from_v,
            to: to_v,
            ciphertext: ciphertext_v,
            nonce: nonce_v,
            signature: signature_v,
        },
        sender_ed25519_pub: se_v,
        sender_x25519_pub: sx_v,
    };
    proof {
        reveal_strlit("}");
        assert(s@.subrange(q7 as int, n) =~= "}"@);
        lemma_assemble_frame(
            s@,
            q1 as int,
            q2 as int,
            q3 as int,
            q4 as int,
            q5 as int,
            q6 as int,
            q7 as int,
            t2,
        );
        lemma_transport_json_flat(t2);
    }
    Some(t2)
}

} // verus!
