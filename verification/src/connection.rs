//! The SMTP connection state machine.
//!
//! SMTP is strictly half-duplex: every operation writes one command and then
//! waits for the matching reply before anything else may be sent. The machine
//! here makes each of those decisions: the caller (an I/O driver) performs the
//! returned `Action` — upgrade the transport, write a command line and read a
//! reply, stream the message body — and feeds the outcome back in through
//! `on_response`, `on_upgrade_result` or `on_transport_error`. Every
//! protocol-level failure marks the connection broken and asks the driver for
//! a best-effort QUIT before the error is surfaced; a broken connection
//! accepts no further operation.

use vstd::prelude::*;
use crate::bytes::clone_bytes;
use crate::capabilities::Extension;
use crate::capabilities::Mechanism;
use crate::capabilities::ServerCapabilities;
use crate::capabilities::auth_from;
use crate::capabilities::eight_bit_mime_token;
use crate::capabilities::first_compatible;
use crate::capabilities::has_keyword;
use crate::capabilities::starttls_token;
use crate::commands::Command;
use crate::commands::Credentials;
use crate::commands::auth_challenge_reply;
use crate::commands::auth_initial_command;
use crate::commands::b64_of;
use crate::commands::plain_blob;
use crate::commands::spec_challenge_reply;
use crate::response::Response;

verus! {

/// The sender (empty for the null sender) and the ordered recipients of one
/// message, as SMTP addresses them; distinct from any header fields.
pub struct Envelope {
    pub sender: Option<Vec<u8>>,
    pub recipients: Vec<Vec<u8>>,
}

pub open spec fn opt_bytes(o: Option<Vec<u8>>) -> Option<Seq<u8>> {
    match o {
        Option::Some(v) => Option::Some(v@),
        Option::None => Option::None,
    }
}

impl Envelope {
    pub open spec fn spec_recipients(self) -> Seq<Seq<u8>> {
        self.recipients@.map_values(|v: Vec<u8>| v@)
    }
}

/// Where the session stands; the `*Wait` phases name what the driver was
/// asked to do and what event is expected next.
#[derive(Clone, Copy, Debug, PartialEq, Eq, Structural)]
pub enum Phase {
    /// Nothing has happened yet.
    Start,
    /// Implicit-TLS upgrade in flight, before any bytes are exchanged.
    TlsUpgradeWait,
    /// Awaiting the server's greeting banner.
    BannerWait,
    /// Awaiting the reply to the first EHLO.
    EhloWait,
    /// Awaiting the reply to STARTTLS.
    StartTlsWait,
    /// Opportunistic upgrade in flight, after a positive STARTTLS reply.
    StartTlsUpgradeWait,
    /// Awaiting the reply to the EHLO reissued over the encrypted channel.
    EhloAgainWait,
    /// Handshake finished; capabilities are known.
    Ready,
    /// Awaiting an authentication reply (initial or challenge).
    AuthWait,
    /// Authentication accepted.
    Authenticated,
    /// Awaiting the reply to MAIL FROM.
    MailWait,
    /// Awaiting the reply to one RCPT TO.
    RcptWait,
    /// Awaiting the reply to DATA.
    DataWait,
    /// Awaiting the final reply after the message body.
    BodyWait,
    /// Awaiting the reply to QUIT.
    QuitWait,
    /// QUIT acknowledged; the connection is done.
    Closed,
    /// Broken: a step failed and the connection was aborted.
    Failed,
}

/// The errors a session surfaces, telling transport trouble, server
/// rejection, authentication failure and client-side configuration apart.
#[derive(Clone, Copy, Debug, PartialEq, Eq, Structural)]
pub enum SmtpError {
    /// The transport failed to read or write.
    Transport,
    /// The server answered a command with a non-positive reply code.
    Negative(u16),
    /// The TLS upgrade handshake failed.
    UpgradeFailed,
    /// No candidate mechanism is also advertised by the server.
    NoCompatibleMechanism,
    /// The server kept issuing 334 challenges past the budget.
    TooManyChallenges,
    /// The final authentication reply was negative.
    AuthRejected(u16),
    /// A reply line could not be parsed.
    BadResponse,
}

/// What the machine asks the driver to do next.
#[derive(Debug)]
pub enum Action {
    /// Perform the TLS upgrade handshake, then report `on_upgrade_result`.
    Upgrade,
    /// Read one reply, then report it through `on_response`.
    ReadReply,
    /// Write the rendered command line, read one reply, report it.
    Send(Command),
    /// Stream the stored body through the codec with its terminator, read
    /// one reply, report it.
    SendBody,
    /// The connection is broken: write a best-effort QUIT, ignore its
    /// outcome, and surface the error.
    Abort(SmtpError),
    /// Surface the error; nothing was or is to be sent.
    Fail(SmtpError),
    /// The running operation finished successfully.
    Done,
}

/// The maximum number of extra challenge-response round-trips one AUTH
/// exchange may take; it bounds an otherwise unbounded loop against a
/// misbehaving server.
pub const CHALLENGE_BUDGET: u8 = 10;

pub struct Connection {
    pub phase: Phase,
    pub caps: ServerCapabilities,
    pub encrypted: bool,
    pub broken: bool,
    pub client_id: Vec<u8>,
    pub creds: Credentials,
    pub mech: Mechanism,
    pub budget: u8,
    pub envelope: Envelope,
    pub body: Vec<u8>,
    pub rcpt_index: usize,
}

impl Connection {
    pub open spec fn wf(self) -> bool {
        &&& self.budget <= CHALLENGE_BUDGET
        &&& self.broken <==> self.phase == Phase::Failed
        &&& self.phase == Phase::RcptWait ==> self.rcpt_index < self.envelope.recipients@.len()
    }

    /// A failed transition: the connection is broken for good.
    pub open spec fn spec_failed(self) -> bool {
        self.phase == Phase::Failed && self.broken
    }

    /// Opportunistic encryption is an option only while the channel is still
    /// plain and the server advertised it.
    pub open spec fn spec_can_starttls(self) -> bool {
        !self.encrypted && self.caps.starttls
    }

    /// The first text line of a reply, empty if there is none: AUTH
    /// challenges carry their payload there.
    pub open spec fn first_text(r: Response) -> Seq<u8> {
        if r.message@.len() > 0 {
            r.message@[0]@
        } else {
            Seq::empty()
        }
    }

    /// The capability snapshot `r` advertises, exactly as
    /// `ServerCapabilities::from_ehlo_texts` reads it.
    pub open spec fn caps_match(caps: ServerCapabilities, r: Response) -> bool {
        &&& caps.starttls == has_keyword(r.spec_texts(), starttls_token())
        &&& caps.eight_bit_mime == has_keyword(r.spec_texts(), eight_bit_mime_token())
        &&& caps.auth@ == auth_from(r.spec_texts(), 1)
    }

    /// Everything an ordinary reply transition leaves alone.
    pub open spec fn same_session(self, o: Connection) -> bool {
        &&& self.encrypted == o.encrypted
        &&& self.client_id@ == o.client_id@
        &&& self.creds.username@ == o.creds.username@
        &&& self.creds.secret@ == o.creds.secret@
        &&& self.mech == o.mech
        &&& self.body@ == o.body@
        &&& opt_bytes(self.envelope.sender) == opt_bytes(o.envelope.sender)
        &&& self.envelope.spec_recipients() == o.envelope.spec_recipients()
    }

    /// A fresh connection over a transport that is already encrypted or not.
    pub fn new(already_encrypted: bool) -> (c: Connection)
        ensures
            c.wf(),
            c.phase == Phase::Start,
            !c.broken,
            c.encrypted == already_encrypted,
            !c.caps.starttls,
            !c.caps.eight_bit_mime,
            c.caps.auth@ == Seq::<Mechanism>::empty(),
    {
        Connection {
            phase: Phase::Start,
            caps: ServerCapabilities::none(),
            encrypted: already_encrypted,
            broken: false,
            client_id: Vec::new(),
            creds: Credentials { username: Vec::new(), secret: Vec::new() },
            mech: Mechanism::Plain,
            budget: CHALLENGE_BUDGET,
            envelope: Envelope { sender: Option::None, recipients: Vec::new() },
            body: Vec::new(),
            rcpt_index: 0,
        }
    }

    pub fn has_broken(&self) -> (r: bool)
        ensures
            r == self.broken,
    {
        self.broken
    }

    pub fn is_encrypted(&self) -> (r: bool)
        ensures
            r == self.encrypted,
    {
        self.encrypted
    }

    pub fn can_starttls(&self) -> (r: bool)
        ensures
            r == self.spec_can_starttls(),
    {
        !self.encrypted && self.caps.starttls
    }

    pub fn supports(&self, e: Extension) -> (r: bool)
        ensures
            r == self.caps.spec_supports(e),
    {
        self.caps.supports_feature(e)
    }

    pub fn server_info(&self) -> (r: &ServerCapabilities)
        ensures
            r.starttls == self.caps.starttls,
            r.eight_bit_mime == self.caps.eight_bit_mime,
            r.auth@ == self.caps.auth@,
    {
        &self.caps
    }

    /// Begins the handshake. In implicit-TLS mode over a still-plain
    /// transport the upgrade comes before any bytes; otherwise the server's
    /// banner is awaited at once.
    pub fn handshake_start(&mut self, is_smtps: bool, client_id: Vec<u8>) -> (a: Action)
        requires
            old(self).wf(),
            old(self).phase == Phase::Start,
        ensures
            final(self).wf(),
            final(self).client_id@ == client_id@,
            final(self).encrypted == old(self).encrypted,
            !final(self).broken,
            is_smtps && !old(self).encrypted ==> final(self).phase == Phase::TlsUpgradeWait && (
            a matches Action::Upgrade),
            !(is_smtps && !old(self).encrypted) ==> final(self).phase == Phase::BannerWait && (
            a matches Action::ReadReply),
    {
        self.client_id = client_id;
        if is_smtps && !self.encrypted {
            self.phase = Phase::TlsUpgradeWait;
            Action::Upgrade
        } else {
            self.phase = Phase::BannerWait;
            Action::ReadReply
        }
    }

    /// The driver reports how the requested TLS upgrade went. Success makes
    /// the channel encrypted; in the opportunistic path the EHLO is then
    /// reissued, since capabilities advertised over the plain channel must
    /// not be trusted. Failure is fatal: a half-done TLS handshake cannot
    /// fall back to plaintext.
    pub fn on_upgrade_result(&mut self, ok: bool) -> (a: Action)
        requires
            old(self).wf(),
            old(self).phase == Phase::TlsUpgradeWait || old(self).phase
                == Phase::StartTlsUpgradeWait,
        ensures
            final(self).wf(),
            final(self).client_id@ == old(self).client_id@,
            ok ==> final(self).encrypted,
            ok && old(self).phase == Phase::TlsUpgradeWait ==> final(self).phase
                == Phase::BannerWait && (a matches Action::ReadReply),
            ok && old(self).phase == Phase::StartTlsUpgradeWait ==> final(self).phase
                == Phase::EhloAgainWait && (a matches Action::Send(c) && c matches Command::Ehlo {
                client_id,
            } && client_id@ == old(self).client_id@),
            !ok ==> final(self).spec_failed() && (a matches Action::Abort(e) && e
                == SmtpError::UpgradeFailed),
    {
        if ok {
            self.encrypted = true;
            if self.phase == Phase::TlsUpgradeWait {
                self.phase = Phase::BannerWait;
                Action::ReadReply
            } else {
                self.phase = Phase::EhloAgainWait;
                Action::Send(Command::Ehlo { client_id: clone_bytes(&self.client_id) })
            }
        } else {
            self.broken = true;
            self.phase = Phase::Failed;
            Action::Abort(SmtpError::UpgradeFailed)
        }
    }

    /// The driver reports that the transport itself failed: fatal, with a
    /// best-effort QUIT.
    pub fn on_transport_error(&mut self) -> (a: Action)
        requires
            old(self).wf(),
        ensures
            final(self).wf(),
            final(self).spec_failed(),
            a matches Action::Abort(e) && e == SmtpError::Transport,
    {
        self.broken = true;
        self.phase = Phase::Failed;
        Action::Abort(SmtpError::Transport)
    }

    /// The driver reports that a reply could not be parsed: fatal.
    pub fn on_bad_response(&mut self) -> (a: Action)
        requires
            old(self).wf(),
        ensures
            final(self).wf(),
            final(self).spec_failed(),
            a matches Action::Abort(e) && e == SmtpError::BadResponse,
    {
        self.broken = true;
        self.phase = Phase::Failed;
        Action::Abort(SmtpError::BadResponse)
    }

    /// The driver hands in the reply it read; the machine decides the next
    /// step of whichever operation is under way. A non-positive reply to any
    /// command is fatal, with two exceptions: the AUTH exchange names its
    /// own errors, and a refused QUIT merely closes the connection.
    pub fn on_response(&mut self, r: &Response) -> (a: Action)
        requires
            old(self).wf(),
            r.wf(),
            old(self).phase == Phase::BannerWait || old(self).phase == Phase::EhloWait || old(self).phase == Phase::StartTlsWait || old(self).phase == Phase::EhloAgainWait || old(self).phase == Phase::AuthWait || old(self).phase == Phase::MailWait || old(self).phase
                == Phase::RcptWait || old(self).phase == Phase::DataWait || old(self).phase
                == Phase::BodyWait || old(self).phase == Phase::QuitWait,
        ensures
            final(self).wf(),
            final(self).same_session(*old(self)),
            // capabilities change only when a positive EHLO reply replaces them
            (old(self).phase != Phase::EhloWait && old(self).phase != Phase::EhloAgainWait)
                || !r.spec_positive() ==> final(self).caps.starttls == old(self).caps.starttls
                && final(self).caps.eight_bit_mime == old(self).caps.eight_bit_mime
                && final(self).caps.auth@ == old(self).caps.auth@,
            // the challenge budget is spent only inside the AUTH exchange
            old(self).phase != Phase::AuthWait ==> final(self).budget == old(self).budget,
            // banner
            old(self).phase == Phase::BannerWait && r.spec_positive() ==> final(self).phase
                == Phase::EhloWait && (a matches Action::Send(c) && c matches Command::Ehlo {
                client_id,
            } && client_id@ == old(self).client_id@),
            old(self).phase == Phase::BannerWait && !r.spec_positive() ==> final(self).spec_failed() && (a matches Action::Abort(e) && e == SmtpError::Negative(r.code)),
            // first EHLO: capabilities replaced wholesale by this reply alone
            old(self).phase == Phase::EhloWait && r.spec_positive() ==> Self::caps_match(
                final(self).caps,
                *r,
            ) && (if !old(self).encrypted && has_keyword(r.spec_texts(), starttls_token()) {
                final(self).phase == Phase::StartTlsWait && (a matches Action::Send(c)
                    && c matches Command::StartTls)
            } else {
                final(self).phase == Phase::Ready && (a matches Action::Done)
            }),
            old(self).phase == Phase::EhloWait && !r.spec_positive() ==> final(self).spec_failed()
                && (a matches Action::Abort(e) && e == SmtpError::Negative(r.code)),
            // STARTTLS accepted: upgrade now
            old(self).phase == Phase::StartTlsWait && r.spec_positive() ==> final(self).phase
                == Phase::StartTlsUpgradeWait && (a matches Action::Upgrade),
            old(self).phase == Phase::StartTlsWait && !r.spec_positive() ==> final(self).spec_failed() && (a matches Action::Abort(e) && e == SmtpError::Negative(r.code)),
            // second EHLO: capabilities replaced wholesale again
            old(self).phase == Phase::EhloAgainWait && r.spec_positive() ==> Self::caps_match(
                final(self).caps,
                *r,
            ) && final(self).phase == Phase::Ready && (a matches Action::Done),
            old(self).phase == Phase::EhloAgainWait && !r.spec_positive() ==> final(self).spec_failed() && (a matches Action::Abort(e) && e == SmtpError::Negative(r.code)),
            // AUTH: 334 is a challenge; each one spends budget
            old(self).phase == Phase::AuthWait && r.code == 334 && old(self).budget > 0 ==> final(self).phase == Phase::AuthWait && final(self).budget == old(self).budget - 1 && (
            a matches Action::Send(c) && c matches Command::AuthData { payload } && payload@
                == spec_challenge_reply(
                old(self).mech,
                old(self).creds.username@,
                old(self).creds.secret@,
                Self::first_text(*r),
            )),
            old(self).phase == Phase::AuthWait && r.code == 334 && old(self).budget == 0 ==> final(self).spec_failed() && (a matches Action::Abort(e) && e == SmtpError::TooManyChallenges),
            old(self).phase == Phase::AuthWait && r.code != 334 && r.spec_positive() ==> final(self).phase == Phase::Authenticated && (a matches Action::Done),
            old(self).phase == Phase::AuthWait && r.code != 334 && !r.spec_positive() ==> final(self).spec_failed() && (a matches Action::Abort(e) && e == SmtpError::AuthRejected(r.code)),
            // MAIL FROM accepted: first recipient, or straight to DATA
            old(self).phase == Phase::MailWait && r.spec_positive() && old(self).envelope.recipients@.len() > 0 ==> final(self).phase == Phase::RcptWait && final(self).rcpt_index == 0 && (a matches Action::Send(c) && c matches Command::Rcpt { to } && to@
                == old(self).envelope.spec_recipients()[0]),
            old(self).phase == Phase::MailWait && r.spec_positive() && old(self).envelope.recipients@.len() == 0 ==> final(self).phase == Phase::DataWait && (
            a matches Action::Send(c) && c matches Command::Data),
            old(self).phase == Phase::MailWait && !r.spec_positive() ==> final(self).spec_failed()
                && (a matches Action::Abort(e) && e == SmtpError::Negative(r.code)),
            // RCPT TO: a rejected recipient aborts the whole transaction;
            // no further recipient is ever offered
            old(self).phase == Phase::RcptWait && r.spec_positive() && old(self).rcpt_index + 1
                < old(self).envelope.recipients@.len() ==> final(self).phase == Phase::RcptWait
                && final(self).rcpt_index == old(self).rcpt_index + 1 && (
            a matches Action::Send(c) && c matches Command::Rcpt { to } && to@ == old(self).envelope.spec_recipients()[old(self).rcpt_index + 1]),
            old(self).phase == Phase::RcptWait && r.spec_positive() && old(self).rcpt_index + 1
                == old(self).envelope.recipients@.len() ==> final(self).phase == Phase::DataWait
                && (a matches Action::Send(c) && c matches Command::Data),
            old(self).phase == Phase::RcptWait && !r.spec_positive() ==> final(self).spec_failed()
                && (a matches Action::Abort(e) && e == SmtpError::Negative(r.code)),
            // DATA accepted: stream the body
            old(self).phase == Phase::DataWait && r.spec_positive() ==> final(self).phase
                == Phase::BodyWait && (a matches Action::SendBody),
            old(self).phase == Phase::DataWait && !r.spec_positive() ==> final(self).spec_failed()
                && (a matches Action::Abort(e) && e == SmtpError::Negative(r.code)),
            // final reply after the body
            old(self).phase == Phase::BodyWait && r.spec_positive() ==> final(self).phase
                == Phase::Authenticated && (a matches Action::Done),
            old(self).phase == Phase::BodyWait && !r.spec_positive() ==> final(self).spec_failed()
                && (a matches Action::Abort(e) && e == SmtpError::Negative(r.code)),
            // QUIT: a refused QUIT still ends the connection, it does not
            // abort it — no second QUIT is ever fired after the first
            old(self).phase == Phase::QuitWait && r.spec_positive() ==> final(self).phase
                == Phase::Closed && !final(self).broken && (a matches Action::Done),
            old(self).phase == Phase::QuitWait && !r.spec_positive() ==> final(self).phase
                == Phase::Closed && !final(self).broken && (a matches Action::Fail(e) && e
                == SmtpError::Negative(r.code)),
    {
        let positive = r.is_positive();
        match self.phase {
            Phase::BannerWait => {
                if positive {
                    self.phase = Phase::EhloWait;
                    Action::Send(Command::Ehlo { client_id: clone_bytes(&self.client_id) })
                } else {
                    self.fail(SmtpError::Negative(r.code))
                }
            },
            Phase::EhloWait => {
                if positive {
                    self.caps = ServerCapabilities::from_ehlo_texts(&r.message);
                    if !self.encrypted && self.caps.starttls {
                        self.phase = Phase::StartTlsWait;
                        Action::Send(Command::StartTls)
                    } else {
                        self.phase = Phase::Ready;
                        Action::Done
                    }
                } else {
                    self.fail(SmtpError::Negative(r.code))
                }
            },
            Phase::StartTlsWait => {
                if positive {
                    self.phase = Phase::StartTlsUpgradeWait;
                    Action::Upgrade
                } else {
                    self.fail(SmtpError::Negative(r.code))
                }
            },
            Phase::EhloAgainWait => {
                if positive {
                    self.caps = ServerCapabilities::from_ehlo_texts(&r.message);
                    self.phase = Phase::Ready;
                    Action::Done
                } else {
                    self.fail(SmtpError::Negative(r.code))
                }
            },
            Phase::AuthWait => {
                if r.code == 334 {
                    if self.budget > 0 {
                        self.budget = self.budget - 1;
                        let reply = if r.message.len() > 0 {
                            auth_challenge_reply(self.mech, &self.creds, r.message[0].as_slice())
                        } else {
                            let empty: Vec<u8> = Vec::new();
                            auth_challenge_reply(self.mech, &self.creds, empty.as_slice())
                        };
                        Action::Send(reply)
                    } else {
                        self.fail(SmtpError::TooManyChallenges)
                    }
                } else if positive {
                    self.phase = Phase::Authenticated;
                    Action::Done
                } else {
                    self.fail(SmtpError::AuthRejected(r.code))
                }
            },
            Phase::MailWait => {
                if positive {
                    if self.envelope.recipients.len() > 0 {
                        self.rcpt_index = 0;
                        self.phase = Phase::RcptWait;
                        Action::Send(
                            Command::Rcpt { to: clone_bytes(&self.envelope.recipients[0]) },
                        )
                    } else {
                        self.phase = Phase::DataWait;
                        Action::Send(Command::Data)
                    }
                } else {
                    self.fail(SmtpError::Negative(r.code))
                }
            },
            Phase::RcptWait => {
                proof {
                    assert(self.phase == Phase::RcptWait);
                    assert(self.rcpt_index < self.envelope.recipients@.len());
                }
                let n = self.envelope.recipients.len();
                if positive {
                    if self.rcpt_index + 1 < n {
                        self.rcpt_index = self.rcpt_index + 1;
                        Action::Send(
                            Command::Rcpt {
                                to: clone_bytes(&self.envelope.recipients[self.rcpt_index]),
                            },
                        )
                    } else {
                        self.phase = Phase::DataWait;
                        Action::Send(Command::Data)
                    }
                } else {
                    self.fail(SmtpError::Negative(r.code))
                }
            },
            Phase::DataWait => {
                if positive {
                    self.phase = Phase::BodyWait;
                    Action::SendBody
                } else {
                    self.fail(SmtpError::Negative(r.code))
                }
            },
            Phase::BodyWait => {
                if positive {
                    self.phase = Phase::Authenticated;
                    Action::Done
                } else {
                    self.fail(SmtpError::Negative(r.code))
                }
            },
            Phase::QuitWait => {
                self.phase = Phase::Closed;
                if positive {
                    Action::Done
                } else {
                    Action::Fail(SmtpError::Negative(r.code))
                }
            },
            _ => {
                // unreachable under the precondition
                self.fail(SmtpError::BadResponse)
            },
        }
    }

    /// Marks the connection broken and asks for the best-effort QUIT.
    fn fail(&mut self, e: SmtpError) -> (a: Action)
        ensures
            final(self).spec_failed(),
            final(self).budget == old(self).budget,
            final(self).caps == old(self).caps,
            final(self).encrypted == old(self).encrypted,
            final(self).client_id == old(self).client_id,
            final(self).creds == old(self).creds,
            final(self).mech == old(self).mech,
            final(self).body == old(self).body,
            final(self).envelope == old(self).envelope,
            final(self).rcpt_index == old(self).rcpt_index,
            a matches Action::Abort(err) && err == e,
    {
        self.broken = true;
        self.phase = Phase::Failed;
        Action::Abort(e)
    }

    /// Begins authentication. The first server-advertised mechanism that the
    /// caller also offers is chosen; with none in common the attempt fails as
    /// a configuration error before any byte is sent.
    pub fn auth_start(&mut self, mechanisms: &[Mechanism], creds: Credentials) -> (a: Action)
        requires
            old(self).wf(),
            old(self).phase == Phase::Ready,
        ensures
            final(self).wf(),
            final(self).encrypted == old(self).encrypted,
            final(self).client_id@ == old(self).client_id@,
            final(self).caps.starttls == old(self).caps.starttls,
            final(self).caps.eight_bit_mime == old(self).caps.eight_bit_mime,
            final(self).caps.auth@ == old(self).caps.auth@,
            // with no mechanism in common, nothing is sent and nothing changes
            first_compatible(old(self).caps.auth@, mechanisms@) matches Option::None ==> final(self).phase == Phase::Ready && !final(self).broken && (a matches Action::Fail(e) && e
                == SmtpError::NoCompatibleMechanism) && final(self).budget == old(self).budget
                && final(self).mech == old(self).mech && final(self).creds.username@
                == old(self).creds.username@ && final(self).creds.secret@
                == old(self).creds.secret@ && final(self).body@ == old(self).body@
                && opt_bytes(final(self).envelope.sender) == opt_bytes(old(self).envelope.sender)
                && final(self).envelope.spec_recipients() == old(self).envelope.spec_recipients()
                && final(self).rcpt_index == old(self).rcpt_index,
            first_compatible(old(self).caps.auth@, mechanisms@) matches Option::Some(m) ==> final(self).phase == Phase::AuthWait && final(self).budget == CHALLENGE_BUDGET && final(self).mech
                == m && final(self).creds.username@ == creds.username@ && final(self).creds.secret@ == creds.secret@ && (a matches Action::Send(c) && (m
                == Mechanism::Plain ==> (c matches Command::AuthPlain { payload } && payload@
                == b64_of(plain_blob(creds.username@, creds.secret@)))) && (m == Mechanism::Login
                ==> (c matches Command::AuthLogin))),
    {
        match self.caps.get_auth_mechanism(mechanisms) {
            Option::None => Action::Fail(SmtpError::NoCompatibleMechanism),
            Option::Some(m) => {
                self.mech = m;
                self.budget = CHALLENGE_BUDGET;
                self.phase = Phase::AuthWait;
                let cmd = auth_initial_command(m, &creds);
                self.creds = creds;
                Action::Send(cmd)
            },
        }
    }

    /// Begins one envelope transmission with MAIL FROM, carrying the 8-bit
    /// content parameter when the server advertised that extension.
    pub fn send_start(&mut self, envelope: Envelope, body: Vec<u8>) -> (a: Action)
        requires
            old(self).wf(),
            old(self).phase == Phase::Ready || old(self).phase == Phase::Authenticated,
        ensures
            final(self).wf(),
            final(self).phase == Phase::MailWait,
            !final(self).broken,
            opt_bytes(final(self).envelope.sender) == opt_bytes(envelope.sender),
            final(self).envelope.spec_recipients() == envelope.spec_recipients(),
            final(self).body@ == body@,
            a matches Action::Send(c) && c matches Command::MailFrom { sender, eight_bit_mime }
                && opt_bytes(sender) == opt_bytes(envelope.sender) && eight_bit_mime == old(self).caps.eight_bit_mime,
    {
        let sender = match &envelope.sender {
            Option::Some(s) => Option::Some(clone_bytes(s)),
            Option::None => Option::None,
        };
        let cmd = Command::MailFrom { sender, eight_bit_mime: self.caps.eight_bit_mime };
        self.envelope = envelope;
        self.body = body;
        self.phase = Phase::MailWait;
        Action::Send(cmd)
    }

    /// Ends the session in the orderly way: QUIT, awaiting its reply.
    pub fn quit_start(&mut self) -> (a: Action)
        requires
            old(self).wf(),
            old(self).phase == Phase::Ready || old(self).phase == Phase::Authenticated,
        ensures
            final(self).wf(),
            final(self).phase == Phase::QuitWait,
            a matches Action::Send(c) && c matches Command::Quit,
    {
        self.phase = Phase::QuitWait;
        Action::Send(Command::Quit)
    }

    /// Marks the connection broken and hands back the fire-and-forget QUIT,
    /// once: aborting an already-broken connection does nothing.
    pub fn abort(&mut self) -> (q: Option<Command>)
        requires
            old(self).wf(),
        ensures
            final(self).wf(),
            final(self).broken,
            final(self).phase == Phase::Failed,
            !old(self).broken ==> (q matches Option::Some(c) && c matches Command::Quit),
            old(self).broken ==> (q matches Option::None),
    {
        if !self.broken {
            self.broken = true;
            self.phase = Phase::Failed;
            Option::Some(Command::Quit)
        } else {
            Option::None
        }
    }
}

/// An encrypted connection never offers STARTTLS again, whatever the server
/// advertised.
pub proof fn lemma_encrypted_blocks_starttls(c: Connection)
    ensures
        c.encrypted ==> !c.spec_can_starttls(),
{
}

proof fn lemma_decreasing_chain(budgets: Seq<u8>, i: int)
    requires
        0 <= i < budgets.len(),
        forall|j: int| 0 <= j < budgets.len() - 1 ==> budgets[j + 1] < #[trigger] budgets[j],
    ensures
        budgets[i] + i <= budgets[0],
    decreases i,
{
    if i > 0 {
        lemma_decreasing_chain(budgets, i - 1);
        assert(budgets[i] < budgets[i - 1]);
    }
}

/// The AUTH exchange issues at most `CHALLENGE_BUDGET` extra
/// challenge-response round-trips. `budgets` is the connection's budget
/// field observed at each successive challenge reply: `auth_start` sets the
/// first entry to `CHALLENGE_BUDGET` (every well-formed connection holds no
/// more), and `on_response` answers a 334 challenge only while spending one
/// — its `ensures` makes each next entry strictly smaller. Such a chain has
/// at most `CHALLENGE_BUDGET + 1` entries, so at most `CHALLENGE_BUDGET`
/// challenges are ever answered before `TooManyChallenges` cuts a
/// misbehaving server off.
pub proof fn lemma_challenge_rounds_bounded(budgets: Seq<u8>)
    requires
        budgets.len() > 0,
        budgets[0] <= CHALLENGE_BUDGET,
        forall|j: int| 0 <= j < budgets.len() - 1 ==> budgets[j + 1] < #[trigger] budgets[j],
    ensures
        budgets.len() <= CHALLENGE_BUDGET + 1,
{
    lemma_decreasing_chain(budgets, budgets.len() - 1);
}

} // verus!
