//! The chat session's decisions. A session runs two concurrent units over
//! one relay connection: the receive unit turns each inbound frame into a
//! `RecvOutcome`, the send unit turns each line of input into a
//! `SendDecision`. The units here are pure decisions from plain values;
//! the surrounding program does the network reads and writes and shows the
//! outcomes, serializing its console output.

use crate::encoding::b64_decode_of;
use crate::keygen::{ed_secret_of, private_keys_wf, x_secret_of, Identity};
use crate::message::{
    decrypt_verify_spec, dh_private_wf, sealed_with, try_decrypt_and_verify_message,
    try_encrypt_and_sign_message, DecodeError, VaultsynTransport,
};
use crate::crypto::MAX_PLAINTEXT_BYTES;
use vstd::prelude::*;
use vstd::string::*;
use vstd::utf8::encode_utf8;

verus! {

/// What the receive unit does with one inbound frame.
pub enum RecvOutcome {
    /// The relay reflected this session's own broadcast back (the fan-out
    /// set includes the sender's own sink): discard without showing it.
    SelfEcho,
    /// A decrypted, verified message to display.
    Shown { from: String, plaintext: String },
    /// A failure to warn about; the session carries on.
    Warn { error: DecodeError },
}

/// The receive unit's decision for one frame. `frame` is `None` when the
/// wire payload did not parse as a transport. A frame whose sender signing
/// key equals the local identity's own is a self-echo and is discarded —
/// and nothing else is: see the second `ensures` clause. Everything else
/// is opened with `decrypt_verify_spec`, and every failure is shown as a
/// warning, never silently dropped.
pub fn receive_action(local: &Identity, frame: Option<&VaultsynTransport>) -> (r: RecvOutcome)
    ensures
        frame is None ==> (r matches RecvOutcome::Warn { error } && error
            == DecodeError::MalformedTransport),
        (frame matches Some(t) && t.sender_ed25519_pub@ == local.ed25519_public@) <==> r
            is SelfEcho,
        frame matches Some(t) ==> t.sender_ed25519_pub@ != local.ed25519_public@ ==> {
            &&& !dh_private_wf(*local) ==> (r matches RecvOutcome::Warn { error } && error
                == DecodeError::KeyDecodeError)
            &&& dh_private_wf(*local) ==> {
                let spec_r = decrypt_verify_spec(
                    t.envelope,
                    x_secret_of(*local),
                    t.sender_ed25519_pub@,
                    t.sender_x25519_pub@,
                );
                &&& (r matches RecvOutcome::Shown { from, plaintext } ==> spec_r == Ok::<
                    Seq<char>,
                    DecodeError,
                >(plaintext@) && from@ == t.envelope.from@)
                &&& (r matches RecvOutcome::Warn { error } ==> spec_r == Err::<
                    Seq<char>,
                    DecodeError,
                >(error))
                &&& !(r is SelfEcho)
            }
        },
{
    let transport = match frame {
        Some(t) => t,
        None => {
            return RecvOutcome::Warn { error: DecodeError::MalformedTransport };
        },
    };
    if transport.sender_ed25519_pub == local.ed25519_public {
        return RecvOutcome::SelfEcho;
    }
    match try_decrypt_and_verify_message(
        &transport.envelope,
        local,
        transport.sender_ed25519_pub.as_str(),
        transport.sender_x25519_pub.as_str(),
    ) {
        Ok(plaintext) => RecvOutcome::Shown { from: transport.envelope.from.clone(), plaintext },
        Err(error) => RecvOutcome::Warn { error },
    }
}

/// ASCII whitespace, as line trimming counts it.
pub open spec fn is_ascii_ws(b: u8) -> bool {
    b == 32 || b == 9 || b == 10 || b == 13
}

/// A line's bytes with leading ASCII whitespace dropped.
pub open spec fn drop_leading_ws(s: Seq<u8>) -> Seq<u8>
    decreases s.len(),
{
    if s.len() > 0 && is_ascii_ws(s[0]) {
        drop_leading_ws(s.drop_first())
    } else {
        s
    }
}

/// A line's bytes with trailing ASCII whitespace dropped.
pub open spec fn drop_trailing_ws(s: Seq<u8>) -> Seq<u8>
    decreases s.len(),
{
    if s.len() > 0 && is_ascii_ws(s[s.len() - 1]) {
        drop_trailing_ws(s.drop_last())
    } else {
        s
    }
}

/// A line's bytes trimmed of ASCII whitespace on both ends.
pub open spec fn trim_ws(s: Seq<u8>) -> Seq<u8> {
    drop_trailing_ws(drop_leading_ws(s))
}

/// The bytes of the exit command, `/exit`.
pub open spec fn exit_command() -> Seq<u8> {
    seq![47u8, 101u8, 120u8, 105u8, 116u8]
}

/// What one line of interactive input is.
#[derive(Clone, Copy, Debug, PartialEq, Eq, Structural)]
pub enum LineKind {
    /// The exit command: the send unit stops.
    Exit,
    /// Nothing but whitespace: ignored.
    Blank,
    /// A message to encrypt and broadcast.
    Text,
}

/// Classification of a line by its trimmed bytes.
pub open spec fn line_kind(s: Seq<u8>) -> LineKind {
    if trim_ws(s) == exit_command() {
        LineKind::Exit
    } else if trim_ws(s).len() == 0 {
        LineKind::Blank
    } else {
        LineKind::Text
    }
}

proof fn lemma_drop_leading_ws_at(s: Seq<u8>, i: int)
    requires
        0 <= i <= s.len(),
        forall|j: int| 0 <= j < i ==> is_ascii_ws(s[j]),
        i < s.len() ==> !is_ascii_ws(s[i]),
    ensures
        drop_leading_ws(s) == s.subrange(i, s.len() as int),
    decreases i,
{
    if i == 0 {
        if s.len() > 0 && is_ascii_ws(s[0]) {
            assert(false);
        }
        assert(s.subrange(0, s.len() as int) =~= s);
    } else {
        assert(is_ascii_ws(s[0]));
        let t = s.drop_first();
        assert(forall|j: int| 0 <= j < i - 1 ==> is_ascii_ws(#[trigger] t[j]));
        lemma_drop_leading_ws_at(t, i - 1);
        assert(t.subrange(i - 1, t.len() as int) =~= s.subrange(i, s.len() as int));
    }
}

proof fn lemma_drop_trailing_ws_at(s: Seq<u8>, i: int)
    requires
        0 <= i <= s.len(),
        forall|j: int| i <= j < s.len() ==> is_ascii_ws(s[j]),
        i > 0 ==> !is_ascii_ws(s[i - 1]),
    ensures
        drop_trailing_ws(s) == s.subrange(0, i),
    decreases s.len() - i,
{
    if i == s.len() {
        if s.len() > 0 && is_ascii_ws(s[s.len() - 1]) {
            assert(false);
        }
        assert(s.subrange(0, s.len() as int) =~= s);
    } else {
        assert(is_ascii_ws(s[s.len() - 1]));
        let t = s.drop_last();
        lemma_drop_trailing_ws_at(t, i);
        assert(t.subrange(0, i) =~= s.subrange(0, i));
    }
}

/// Decides what one line of input is: the exit command, blank, or text.
/// Trimming counts ASCII whitespace (space, tab, carriage return, line
/// feed).
pub fn classify_line(line: &Vec<u8>) -> (k: LineKind)
    ensures
        k == line_kind(line@),
{
    let n = line.len();
    let mut a: usize = 0;
    while a < n && (line[a] == 32 || line[a] == 9 || line[a] == 10 || line[a] == 13)
        invariant
            0 <= a <= n,
            n == line@.len(),
            forall|j: int| 0 <= j < a ==> is_ascii_ws(line@[j]),
        decreases n - a,
    {
        a = a + 1;
    }
    let mut b: usize = n;
    while b > a && (line[b - 1] == 32 || line[b - 1] == 9 || line[b - 1] == 10 || line[b - 1]
        == 13)
        invariant
            a <= b <= n,
            n == line@.len(),
            forall|j: int| 0 <= j < a ==> is_ascii_ws(line@[j]),
            a < n ==> !is_ascii_ws(line@[a as int]),
            forall|j: int| b <= j < n ==> is_ascii_ws(line@[j]),
        decreases b,
    {
        b = b - 1;
    }
    proof {
        lemma_drop_leading_ws_at(line@, a as int);
        if a == b {
            lemma_drop_trailing_ws_at(line@.subrange(a as int, n as int), 0);
        } else {
            lemma_drop_trailing_ws_at(line@.subrange(a as int, n as int), b - a);
        }
        assert(trim_ws(line@) =~= line@.subrange(a as int, b as int));
    }
    let len = b - a;
    if len == 5 && line[a] == 47 && line[a + 1] == 101 && line[a + 2] == 120 && line[a + 3] == 105
        && line[a + 4] == 116 {
        proof {
            assert(trim_ws(line@) =~= exit_command());
        }
        LineKind::Exit
    } else if len == 0 {
        proof {
            assert(trim_ws(line@) != exit_command());
        }
        LineKind::Blank
    } else {
        proof {
            if trim_ws(line@) == exit_command() {
                assert(trim_ws(line@).len() == 5);
                assert(line@[a as int] == exit_command()[0]);
                assert(line@[a as int + 1] == exit_command()[1]);
                assert(line@[a as int + 2] == exit_command()[2]);
                assert(line@[a as int + 3] == exit_command()[3]);
                assert(line@[a as int + 4] == exit_command()[4]);
            }
        }
        LineKind::Text
    }
}

/// What the send unit does with one line of input.
pub enum SendDecision {
    /// The exit command: the send unit terminates.
    Exit,
    /// A blank line: nothing is sent, the unit keeps reading.
    Ignore,
    /// A frame to broadcast: the sealed envelope with the local identity's
    /// public keys attached.
    Dispatch { transport: VaultsynTransport },
    /// The line could not be sealed (bad key material or an over-long
    /// message); the unit reports the error.
    Reject { error: DecodeError },
}

/// The sealing preconditions the send unit checks for itself.
pub open spec fn can_seal(local: Identity, receiver_public: Seq<char>, line: Seq<char>) -> bool {
    &&& private_keys_wf(local)
    &&& b64_decode_of(receiver_public) matches Some(p) && p.len() == 32
    &&& encode_utf8(line).len() <= MAX_PLAINTEXT_BYTES
}

/// The send unit's decision for one line of input: stop on the exit
/// command, ignore blank lines, and otherwise seal the whole line (as
/// typed, untrimmed) for the configured peer and wrap it in a transport
/// carrying the local identity's public keys.
pub fn send_step(local: &Identity, receiver_public: &str, line: &str) -> (d: SendDecision)
    ensures
        d is Exit <==> line_kind(encode_utf8(line@)) == LineKind::Exit,
        d is Ignore <==> line_kind(encode_utf8(line@)) == LineKind::Blank,
        line_kind(encode_utf8(line@)) == LineKind::Text && can_seal(
            *local,
            receiver_public@,
            line@,
        ) ==> (d matches SendDecision::Dispatch { transport } && {
            &&& sealed_with(
                transport.envelope,
                x_secret_of(*local),
                ed_secret_of(*local),
                b64_decode_of(receiver_public@).unwrap(),
                line@,
            )
            &&& transport.envelope.from@ == local.username@
            &&& transport.sender_ed25519_pub@ == local.ed25519_public@
            &&& transport.sender_x25519_pub@ == local.x25519_public@
        }),
        line_kind(encode_utf8(line@)) == LineKind::Text && !can_seal(
            *local,
            receiver_public@,
            line@,
        ) ==> (d matches SendDecision::Reject { error } && error == DecodeError::KeyDecodeError),
{
    let bytes = line.as_bytes_vec();
    match classify_line(&bytes) {
        LineKind::Exit => SendDecision::Exit,
        LineKind::Blank => SendDecision::Ignore,
        LineKind::Text => {
            match try_encrypt_and_sign_message(local, receiver_public, line) {
                Some(envelope) => SendDecision::Dispatch {
                    transport: VaultsynTransport {
                        envelope,
                        sender_ed25519_pub: local.ed25519_public.clone(),
                        sender_x25519_pub: local.x25519_public.clone(),
                    },
                },
                None => SendDecision::Reject { error: DecodeError::KeyDecodeError },
            }
        },
    }
}

} // verus!
