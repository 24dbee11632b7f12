//! The password handshake that opens a session.
//!
//! The viewer sends the digest of its password: eight bytes. The host
//! compares them with the digest of its own password and answers with one
//! byte, or closes without an answer where it could not read eight bytes.
//! There is one exchange and no second try. The digest is a fixed-seed,
//! non-cryptographic hash: the exchange guards against a wrong password,
//! not against an attacker.

use crate::wire::be_bytes;
use crate::wire::u64_to_bytes;
use std::collections::hash_map::DefaultHasher;
use std::hash::Hasher;
use vstd::prelude::*;
use vstd::std_specs::hash::DefaultHasherAdditionalSpecFns;
use vstd::string::StringSliceAdditionalSpecFns;

verus! {

/// Size of a password digest.
pub const DIGEST_LEN: usize = 8;

/// The host's answer to a matching digest.
pub const AUTH_OK: u8 = 1;

/// The host's answer to a digest that does not match.
pub const AUTH_MISMATCH: u8 = 2;

/// The 64-bit hash of a password's bytes: what the standard library's
/// default hasher, freshly made, returns after one write of those bytes.
pub open spec fn password_hash(password: Seq<u8>) -> u64 {
    DefaultHasher::spec_finish(seq![password])
}

/// The digest of a password's bytes: its hash, most significant byte first.
pub open spec fn digest_of(password: Seq<u8>) -> Seq<u8> {
    be_bytes(password_hash(password) as nat, 8)
}

/// Computes the digest of a password. The result is a function of the
/// password's UTF-8 bytes alone, so that two calls on one password agree.
pub fn digest(password: &str) -> (out: [u8; 8])
    ensures
        out@ == digest_of(vstd::utf8::encode_utf8(password@)),
{
    let mut hasher: DefaultHasher = DefaultHasher::new();
    hasher.write(password.as_bytes());
    let hash: u64 = hasher.finish();
    proof {
        assert(hasher@ =~= seq![password.spec_bytes()]);
    }
    u64_to_bytes(hash)
}

/// Compares two digests.
pub fn digests_equal(a: &[u8; 8], b: &[u8; 8]) -> (same: bool)
    ensures
        same == (a@ == b@),
{
    let mut i: usize = 0;
    while i < 8
        invariant
            i <= 8,
            forall|j: int| 0 <= j < i ==> a@[j] == b@[j],
        decreases 8 - i,
    {
        if a[i] != b[i] {
            return false;
        }
        i = i + 1;
    }
    proof {
        assert(a@ =~= b@);
    }
    true
}

/// What the host got when it tried to read the viewer's digest.
#[derive(Clone, Copy, Debug)]
pub enum Attempt {
    /// Eight bytes arrived.
    Digest([u8; 8]),
    /// The read failed or the connection closed first.
    Unreadable,
}

/// What the host does with a connection after the attempt.
#[derive(Clone, Copy, Debug, PartialEq, Eq, Structural)]
pub enum Verdict {
    /// The digests match: answer `AUTH_OK` and start the session.
    Accepted,
    /// The digests differ: answer `AUTH_MISMATCH` and close.
    Rejected,
    /// No digest could be read: close without an answer.
    Malformed,
}

/// How the handshake ended for the viewer.
#[derive(Clone, Copy, Debug, PartialEq, Eq, Structural)]
pub enum Outcome {
    /// The host accepted: the session goes on.
    Proceed,
    /// The host refused the password: the session is over.
    PasswordError,
    /// The host answered with anything else, or not at all: the session is over.
    ProtocolError,
}

/// The host's rule: the verdict on the digest that arrived, if one did.
pub open spec fn verdict_for(own: Seq<u8>, received: Option<Seq<u8>>) -> Verdict {
    match received {
        None => Verdict::Malformed,
        Some(digest) => if digest == own {
            Verdict::Accepted
        } else {
            Verdict::Rejected
        },
    }
}

/// The viewer's rule: the outcome for the byte that arrived, if one did.
pub open spec fn outcome_for(reply: Option<u8>) -> Outcome {
    match reply {
        Some(byte) => if byte == AUTH_OK {
            Outcome::Proceed
        } else if byte == AUTH_MISMATCH {
            Outcome::PasswordError
        } else {
            Outcome::ProtocolError
        },
        None => Outcome::ProtocolError,
    }
}

impl Attempt {
    /// The digest that arrived, if one did.
    pub open spec fn received(self) -> Option<Seq<u8>> {
        match self {
            Attempt::Digest(bytes) => Some(bytes@),
            Attempt::Unreadable => None,
        }
    }
}

impl Verdict {
    /// The byte that the host writes, if it writes one.
    pub open spec fn reply(self) -> Option<u8> {
        match self {
            Verdict::Accepted => Some(AUTH_OK),
            Verdict::Rejected => Some(AUTH_MISMATCH),
            Verdict::Malformed => None,
        }
    }

    /// Whether frames and commands may flow on this connection.
    pub open spec fn opens_session(self) -> bool {
        self == Verdict::Accepted
    }

    /// The byte to write to the viewer, if any.
    pub fn reply_byte(&self) -> (byte: Option<u8>)
        ensures
            byte == self.reply(),
    {
        match *self {
            Verdict::Accepted => Some(AUTH_OK),
            Verdict::Rejected => Some(AUTH_MISMATCH),
            Verdict::Malformed => None,
        }
    }

    /// Whether to start the session's workers; otherwise the connection is closed.
    pub fn starts_session(&self) -> (open: bool)
        ensures
            open == self.opens_session(),
    {
        match *self {
            Verdict::Accepted => true,
            _ => false,
        }
    }
}

/// Reads the host's answer on the viewer's side. `None` stands for a read
/// that failed.
pub fn interpret_reply(reply: Option<u8>) -> (outcome: Outcome)
    ensures
        outcome == outcome_for(reply),
{
    match reply {
        Some(byte) => {
            if byte == AUTH_OK {
                Outcome::Proceed
            } else if byte == AUTH_MISMATCH {
                Outcome::PasswordError
            } else {
                Outcome::ProtocolError
            }
        },
        None => Outcome::ProtocolError,
    }
}

/// The host: the port it listens on and the digest of its password.
pub struct Server {
    port: u16,
    pwd: [u8; 8],
}

impl Server {
    /// The port to listen on.
    pub closed spec fn port(self) -> u16 {
        self.port
    }

    /// The digest that a viewer must present.
    pub closed spec fn digest(self) -> Seq<u8> {
        self.pwd@
    }

    /// A host for `port` that admits viewers who know `pwd`.
    pub fn new(port: u16, pwd: String) -> (server: Server)
        ensures
            server.port() == port,
            server.digest() == digest_of(vstd::utf8::encode_utf8(pwd@)),
    {
        let pwd: [u8; 8] = digest(pwd.as_str());
        Server { port, pwd }
    }

    /// The port to listen on.
    pub fn listen_port(&self) -> (port: u16)
        ensures
            port == self.port(),
    {
        self.port
    }

    /// The digest that a viewer must present.
    pub fn expected_digest(&self) -> (digest: [u8; 8])
        ensures
            digest@ == self.digest(),
    {
        self.pwd
    }

    /// Judges one connection by what was read from it.
    pub fn check_pwd(&self, attempt: &Attempt) -> (verdict: Verdict)
        ensures
            verdict == verdict_for(self.digest(), attempt.received()),
    {
        match attempt {
            Attempt::Digest(check) => {
                if digests_equal(check, &self.pwd) {
                    Verdict::Accepted
                } else {
                    Verdict::Rejected
                }
            },
            Attempt::Unreadable => Verdict::Malformed,
        }
    }
}

/// Host and viewer agree on how the handshake ended. Where the viewer's
/// digest is the host's, the host answers `AUTH_OK`, opens the session, and
/// the viewer proceeds. Where it is not, the host answers `AUTH_MISMATCH`,
/// opens no session, and the viewer ends with a password error. Where no
/// digest arrived, the host answers nothing and the viewer ends with a
/// protocol error.
pub proof fn lemma_handshake_agreement(own: Seq<u8>, received: Option<Seq<u8>>)
    ensures
        received == Some(own) ==> {
            &&& verdict_for(own, received).reply() == Some(AUTH_OK)
            &&& verdict_for(own, received).opens_session()
            &&& outcome_for(verdict_for(own, received).reply()) == Outcome::Proceed
        },
        received is Some && received != Some(own) ==> {
            &&& verdict_for(own, received).reply() == Some(AUTH_MISMATCH)
            &&& !verdict_for(own, received).opens_session()
            &&& outcome_for(verdict_for(own, received).reply()) == Outcome::PasswordError
        },
        received is None ==> {
            &&& verdict_for(own, received).reply() is None
            &&& !verdict_for(own, received).opens_session()
            &&& outcome_for(verdict_for(own, received).reply()) == Outcome::ProtocolError
        },
{
}

/// Two sides that start from the same password present the same digest.
pub proof fn lemma_same_password_is_accepted(host_password: Seq<u8>, viewer_password: Seq<u8>)
    requires
        host_password == viewer_password,
    ensures
        verdict_for(digest_of(host_password), Some(digest_of(viewer_password)))
            == Verdict::Accepted,
{
}

} // verus!
