//! One connection from its first chunk to its end: the peer proves that it
//! knows the secret, then each chunk is read as one command.

use crate::auth::{hmac_sha256, verify_hash, verify_hash_spec, AuthError, Key, MAX_INPUT_LEN};
use crate::protocol::{
    bytes_as_numerical_i16, bytes_as_numerical_u8, decode, kb_message, lemma_first_token,
    mb_message, pointer_message, rest_after, special_message, split_tokens, Command, DecodeError,
    Tokens, MOUSE, POINTER, SPECIAL, TEXT,
};
use crate::x11::key::{mousecode_from_u8, special_from_bytes};
use vstd::pervasive::unreached;
use vstd::prelude::*;

verus! {

/// Seconds that a peer is given to send its proof, and that the notice of a
/// refusal may take to leave.
pub const AUTH_TIMEOUT_SECS: u64 = 5;

/// The least number of bytes of signed data that a proof holds.
pub const MIN_AUTH_DATA: usize = 10;

/// Why a peer was turned away.
#[derive(Copy, Clone, Debug, PartialEq, Eq, Structural)]
pub enum AuthFailure {
    /// Nothing could be read in time.
    ReadTimeout,
    /// The chunk holds the data alone, without a tag.
    NoMac,
    /// The data is too short to be worth checking.
    DataTooSmall,
    /// The tag is not the tag of the data.
    Invalid,
    /// The tag could not be checked.
    Error(AuthError),
}

impl AuthFailure {
    /// The notice of the refusal.
    pub fn message(&self) -> (text: &'static str)
        ensures
            text@ == match *self {
                AuthFailure::ReadTimeout => "Read timeout"@,
                AuthFailure::NoMac => "Invalid auth, no MAC"@,
                AuthFailure::DataTooSmall => "Invalid auth, data too small"@,
                AuthFailure::Invalid => "Invalid auth"@,
                AuthFailure::Error(AuthError::MissingData) => "Auth error: Body is required"@,
                AuthFailure::Error(AuthError::MissingTag) => "Auth error: MAC is required"@,
            },
    {
        match self {
            AuthFailure::ReadTimeout => "Read timeout",
            AuthFailure::NoMac => "Invalid auth, no MAC",
            AuthFailure::DataTooSmall => "Invalid auth, data too small",
            AuthFailure::Invalid => "Invalid auth",
            AuthFailure::Error(AuthError::MissingData) => "Auth error: Body is required",
            AuthFailure::Error(AuthError::MissingTag) => "Auth error: MAC is required",
        }
    }
}

/// Where a connection stands.
#[derive(Copy, Clone, Debug, PartialEq, Eq, Structural)]
pub enum Phase {
    /// The peer has yet to prove that it knows the secret.
    Authenticating,
    /// The peer is trusted and sends commands.
    Streaming,
    /// The connection is over.
    Closed,
}

/// Why a connection ended.
#[derive(Copy, Clone, Debug, PartialEq, Eq, Structural)]
pub enum Ending {
    /// The peer was turned away.
    Rejected(AuthFailure),
    /// The peer closed the connection.
    ConnectionGone,
    /// A read failed.
    ReadError,
}

/// What one read came to.
#[derive(Copy, Clone, Debug, PartialEq, Eq, Structural)]
pub enum Step {
    /// The peer is trusted from now on; nothing is sent back.
    Accepted,
    /// A command to hand on.
    Command(Command),
    /// A chunk that spelled no command; the session goes on.
    Skipped(DecodeError),
    /// The connection is to be closed.
    Closed(Ending),
}

/// What a read gave, as plain bytes: nothing where it failed.
pub open spec fn read_view(read: Option<&[u8]>) -> Option<Seq<u8>> {
    match read {
        Some(chunk) => Some(chunk@),
        None => None,
    }
}

/// What the outcome of a check means for the peer.
pub open spec fn judge_spec(verdict: Result<bool, AuthError>) -> Result<(), AuthFailure> {
    match verdict {
        Ok(true) => Ok(()),
        Ok(false) => Err(AuthFailure::Invalid),
        Err(e) => Err(AuthFailure::Error(e)),
    }
}

/// Whether the first read of a connection proves that the peer knows
/// `secret`: the chunk is the data, whitespace, and the tag of the data.
pub open spec fn authorize_spec(read: Option<Seq<u8>>, secret: Seq<u8>) -> Result<
    (),
    AuthFailure,
> {
    match read {
        None => Err(AuthFailure::ReadTimeout),
        Some(chunk) => {
            let tokens = split_tokens(chunk);
            if tokens.len() < 2 {
                Err(AuthFailure::NoMac)
            } else if tokens[0].len() < MIN_AUTH_DATA {
                Err(AuthFailure::DataTooSmall)
            } else {
                judge_spec(verify_hash_spec(tokens[0], tokens[1], secret))
            }
        },
    }
}

/// What a read from a trusted peer comes to.
pub open spec fn read_spec(read: Option<Seq<u8>>) -> Step {
    match read {
        None => Step::Closed(Ending::ReadError),
        Some(chunk) => if chunk.len() == 0 {
            Step::Closed(Ending::ConnectionGone)
        } else {
            match decode(chunk) {
                Ok(command) => Step::Command(command),
                Err(e) => Step::Skipped(e),
            }
        },
    }
}

/// The phase after a read in `phase`, and what the read came to.
pub open spec fn step_spec(phase: Phase, read: Option<Seq<u8>>, secret: Seq<u8>) -> (Phase, Step) {
    match phase {
        Phase::Authenticating => match authorize_spec(read, secret) {
            Ok(()) => (Phase::Streaming, Step::Accepted),
            Err(failure) => (Phase::Closed, Step::Closed(Ending::Rejected(failure))),
        },
        Phase::Streaming => {
            let step = read_spec(read);
            (
                if step is Closed {
                    Phase::Closed
                } else {
                    Phase::Streaming
                },
                step,
            )
        },
        Phase::Closed => (Phase::Closed, Step::Closed(Ending::ConnectionGone)),
    }
}

/// A peer is trusted exactly when its first chunk holds at least ten bytes
/// of data, whitespace, and then the tag of that data under the secret.
pub proof fn lemma_accepted_peer_sent_the_tag(chunk: Seq<u8>, secret: Seq<u8>)
    ensures
        authorize_spec(Some(chunk), secret) is Ok <==> {
            let tokens = split_tokens(chunk);
            &&& tokens.len() >= 2
            &&& MIN_AUTH_DATA <= tokens[0].len() <= MAX_INPUT_LEN
            &&& secret.len() <= MAX_INPUT_LEN
            &&& tokens[1].len() > 0
            &&& tokens[1] == hmac_sha256(secret, tokens[0])
        },
{
}

/// No command comes out of a connection before its peer is trusted, a
/// connection becomes trusted by its proof alone, and one that is closed
/// stays closed.
pub proof fn lemma_commands_follow_the_proof(phase: Phase, read: Option<Seq<u8>>, secret: Seq<u8>)
    ensures
        step_spec(phase, read, secret).1 is Command ==> phase is Streaming,
        step_spec(phase, read, secret).1 is Accepted <==> phase is Authenticating
            && authorize_spec(read, secret) is Ok,
        step_spec(phase, read, secret).0 is Streaming ==> phase is Streaming
            || step_spec(phase, read, secret).1 is Accepted,
        phase is Closed ==> step_spec(phase, read, secret).0 is Closed,
        step_spec(phase, read, secret).1 is Closed <==> step_spec(phase, read, secret).0 is Closed,
{
}

/// A chunk that spells no command never ends the session.
pub proof fn lemma_bad_chunks_are_skipped(chunk: Seq<u8>, secret: Seq<u8>)
    ensures
        chunk.len() > 0 ==> step_spec(Phase::Streaming, Some(chunk), secret).0 is Streaming,
{
}

/// Whether `token` is the one byte `kind`.
fn is_kind(token: &[u8], kind: u8) -> (r: bool)
    ensures
        r == (token@ == seq![kind]),
{
    if token.len() == 1 && token[0] == kind {
        assert(token@ =~= seq![kind]);
        true
    } else {
        false
    }
}

/// The keeper of one connection.
pub struct Server {
    phase: Phase,
}

impl View for Server {
    type V = Phase;

    /// Where the connection stands.
    closed spec fn view(&self) -> Phase {
        self.phase
    }
}

impl Server {
    /// The keeper of a connection that was just accepted.
    pub fn new() -> (server: Server)
        ensures
            server@ == Phase::Authenticating,
    {
        Server { phase: Phase::Authenticating }
    }

    /// Where the connection stands.
    pub fn phase(&self) -> (phase: Phase)
        ensures
            phase == self@,
    {
        self.phase
    }

    /// Takes what the next read gave, `None` where it failed, and says what
    /// is to be done. The first read is held to be the peer's proof; no
    /// command is read before it was accepted, and none after the end.
    pub fn step(&mut self, read: Option<&[u8]>, key: &Key) -> (step: Step)
        ensures
            (final(self)@, step) == step_spec(old(self)@, read_view(read), key@),
    {
        match self.phase {
            Phase::Authenticating => match Self::authorize_conn(read, key) {
                Ok(()) => {
                    self.phase = Phase::Streaming;
                    Step::Accepted
                },
                Err(failure) => {
                    self.phase = Phase::Closed;
                    Step::Closed(Ending::Rejected(failure))
                },
            },
            Phase::Streaming => {
                let step = Self::read_loop(read);
                if let Step::Closed(_) = step {
                    self.phase = Phase::Closed;
                }
                step
            },
            Phase::Closed => Step::Closed(Ending::ConnectionGone),
        }
    }

    /// What the outcome of a check means for the peer.
    pub fn judge(verdict: Result<bool, AuthError>) -> (r: Result<(), AuthFailure>)
        ensures
            r == judge_spec(verdict),
    {
        match verdict {
            Ok(true) => Ok(()),
            Ok(false) => Err(AuthFailure::Invalid),
            Err(e) => Err(AuthFailure::Error(e)),
        }
    }

    /// Check that a connection is authorized before processing its stream.
    pub fn authorize_conn(read: Option<&[u8]>, key: &Key) -> (r: Result<(), AuthFailure>)
        ensures
            r == authorize_spec(read_view(read), key@),
    {
        let chunk = match read {
            Some(chunk) => chunk,
            None => {
                return Err(AuthFailure::ReadTimeout);
            },
        };
        // Split into "{data} {MAC}"
        let mut it = Tokens::new(chunk);
        proof {
            lemma_first_token(chunk@);
        }
        let data = match it.next() {
            Some(data) => data,
            None => unreached(),
        };
        let mac = match it.next() {
            Some(mac) => mac,
            None => {
                return Err(AuthFailure::NoMac);
            },
        };
        if data.len() < MIN_AUTH_DATA {
            return Err(AuthFailure::DataTooSmall);
        }
        // Verify the data is signed with the same key before accepting stream.
        Self::judge(verify_hash(data, mac, key))
    }

    /// Core loop: what one read from a trusted peer comes to.
    pub fn read_loop(read: Option<&[u8]>) -> (step: Step)
        ensures
            step == read_spec(read_view(read)),
    {
        match read {
            Some(chunk) => {
                if chunk.len() > 0 {
                    match Self::handle_incoming(chunk) {
                        Ok(command) => Step::Command(command),
                        Err(e) => Step::Skipped(e),
                    }
                } else {
                    Step::Closed(Ending::ConnectionGone)
                }
            },
            None => Step::Closed(Ending::ReadError),
        }
    }

    /// Handles incoming stream messages.
    pub fn handle_incoming(buf: &[u8]) -> (r: Result<Command, DecodeError>)
        ensures
            r == decode(buf@),
    {
        let mut it = Tokens::new(buf);
        proof {
            lemma_first_token(buf@);
        }
        match it.next() {
            Some(ev) => {
                if is_kind(ev, TEXT) {
                    Self::on_kb_message(&mut it)
                } else if is_kind(ev, MOUSE) {
                    Self::on_mb_message(&mut it)
                } else if is_kind(ev, POINTER) {
                    Self::on_pointer_message(&mut it)
                } else if is_kind(ev, SPECIAL) {
                    Self::on_special_message(&mut it)
                } else {
                    Err(DecodeError::Hard)
                }
            },
            None => Err(DecodeError::Hard),
        }
    }

    /// Interpret next bytes as a string containing a special keypress.
    pub fn on_special_message(it: &mut Tokens) -> (r: Result<Command, DecodeError>)
        ensures
            r == special_message(old(it)@),
            final(it)@ == rest_after(old(it)@, 1),
    {
        let key = match it.next() {
            Some(key) => key,
            None => {
                return Err(DecodeError::Hard);
            },
        };
        if key.len() < 1 {
            return Err(DecodeError::Hard);
        }
        match special_from_bytes(key) {
            Some(name) => Ok(Command::Special { name }),
            None => Err(DecodeError::Soft),
        }
    }

    /// Interpret next bytes as a keypress.
    pub fn on_kb_message(it: &mut Tokens) -> (r: Result<Command, DecodeError>)
        ensures
            r == kb_message(old(it)@),
            final(it)@ == rest_after(old(it)@, 1),
    {
        let key = match it.next() {
            Some(key) => key,
            None => {
                return Err(DecodeError::Hard);
            },
        };
        if key.len() > 0 {
            Ok(Command::KeyPress { key: key[0] as char })
        } else {
            Err(DecodeError::Soft)
        }
    }

    /// Interpret next bytes as the number of a mouse button.
    pub fn on_mb_message(it: &mut Tokens) -> (r: Result<Command, DecodeError>)
        ensures
            r == mb_message(old(it)@),
            final(it)@ == rest_after(old(it)@, 1),
    {
        // Fetch next bytes from message
        let button = match it.next() {
            Some(button) => button,
            None => {
                return Err(DecodeError::Hard);
            },
        };
        if button.len() < 1 {
            return Err(DecodeError::Hard);
        }
        // Interpret as a numerical string
        let button = match bytes_as_numerical_u8(button) {
            Some(b) => b,
            None => {
                return Err(DecodeError::Soft);
            },
        };
        // Parse as a mouse code
        match mousecode_from_u8(button) {
            Ok(code) => Ok(Command::MouseButton { code }),
            Err(_) => Err(DecodeError::Soft),
        }
    }

    /// Take next two slices as x, y coords.
    pub fn on_pointer_message(it: &mut Tokens) -> (r: Result<Command, DecodeError>)
        ensures
            r == pointer_message(old(it)@),
            final(it)@ == rest_after(old(it)@, 2),
    {
        let x_bytes = match it.next() {
            Some(x_bytes) => x_bytes,
            None => {
                return Err(DecodeError::Hard);
            },
        };
        let y_bytes = match it.next() {
            Some(y_bytes) => y_bytes,
            None => {
                return Err(DecodeError::Hard);
            },
        };
        assert(old(it)@.drop_first().drop_first() =~= old(it)@.skip(2));
        let x = match bytes_as_numerical_i16(x_bytes) {
            Some(x) => x,
            None => {
                return Err(DecodeError::Soft);
            },
        };
        let y = match bytes_as_numerical_i16(y_bytes) {
            Some(y) => y,
            None => {
                return Err(DecodeError::Soft);
            },
        };
        Ok(Command::PointerMove { x, y })
    }
}

} // verus!
