//! The SMTP commands the session issues, and their exact wire form:
//! each command is one line terminated by CRLF. Authentication material
//! (the PLAIN blob, LOGIN challenge replies) is carried base64-encoded,
//! as the wire protocol requires.

use vstd::prelude::*;
use crate::bytes::push_bytes;
use crate::capabilities::Mechanism;
use crate::capabilities::starttls_token;

verus! {

/// A username/secret pair, opaque to the session beyond being handed to
/// the chosen authentication mechanism.
pub struct Credentials {
    pub username: Vec<u8>,
    pub secret: Vec<u8>,
}

pub open spec fn b64_digit(v: int) -> u8 {
    if v < 26 {
        (65 + v) as u8
    } else if v < 52 {
        (97 + (v - 26)) as u8
    } else if v < 62 {
        (48 + (v - 52)) as u8
    } else if v == 62 {
        43
    } else {
        47
    }
}

/// Standard base64 with `=` padding, three input bytes per four digits.
pub open spec fn b64_of(s: Seq<u8>) -> Seq<u8>
    decreases s.len(),
{
    if s.len() == 0 {
        Seq::empty()
    } else if s.len() == 1 {
        seq![b64_digit(s[0] as int / 4), b64_digit((s[0] as int % 4) * 16), 61, 61]
    } else if s.len() == 2 {
        seq![
            b64_digit(s[0] as int / 4),
            b64_digit((s[0] as int % 4) * 16 + s[1] as int / 16),
            b64_digit((s[1] as int % 16) * 4),
            61,
        ]
    } else {
        seq![
            b64_digit(s[0] as int / 4),
            b64_digit((s[0] as int % 4) * 16 + s[1] as int / 16),
            b64_digit((s[1] as int % 16) * 4 + s[2] as int / 64),
            b64_digit(s[2] as int % 64),
        ] + b64_of(s.skip(3))
    }
}

fn b64_digit_ex(v: u8) -> (r: u8)
    requires
        v < 64,
    ensures
        r == b64_digit(v as int),
{
    if v < 26 {
        65 + v
    } else if v < 52 {
        97 + (v - 26)
    } else if v < 62 {
        48 + (v - 52)
    } else if v == 62 {
        43
    } else {
        47
    }
}

pub fn base64_encode(s: &[u8]) -> (r: Vec<u8>)
    ensures
        r@ == b64_of(s@),
{
    let mut r: Vec<u8> = Vec::new();
    let mut i: usize = 0;
    proof {
        assert(s@.skip(0) =~= s@);
        assert(r@ + b64_of(s@) =~= b64_of(s@));
    }
    while i < s.len() && s.len() - i >= 3
        invariant
            i <= s@.len(),
            b64_of(s@) == r@ + b64_of(s@.skip(i as int)),
        decreases s@.len() - i,
    {
        let b0 = s[i];
        let b1 = s[i + 1];
        let b2 = s[i + 2];
        let ghost rem = s@.skip(i as int);
        let ghost r0 = r@;
        proof {
            assert(rem[0] == b0 && rem[1] == b1 && rem[2] == b2);
            assert(rem.skip(3) =~= s@.skip(i + 3));
        }
        r.push(b64_digit_ex(b0 / 4));
        r.push(b64_digit_ex((b0 % 4) * 16 + b1 / 16));
        r.push(b64_digit_ex((b1 % 16) * 4 + b2 / 64));
        r.push(b64_digit_ex(b2 % 64));
        proof {
            assert(r@ =~= r0 + seq![
                b64_digit(b0 as int / 4),
                b64_digit((b0 as int % 4) * 16 + b1 as int / 16),
                b64_digit((b1 as int % 16) * 4 + b2 as int / 64),
                b64_digit(b2 as int % 64),
            ]);
            assert(r0 + (seq![
                b64_digit(b0 as int / 4),
                b64_digit((b0 as int % 4) * 16 + b1 as int / 16),
                b64_digit((b1 as int % 16) * 4 + b2 as int / 64),
                b64_digit(b2 as int % 64),
            ] + b64_of(s@.skip(i + 3))) =~= r@ + b64_of(s@.skip(i + 3)));
        }
        i += 3;
    }
    let ghost rem = s@.skip(i as int);
    let ghost r0 = r@;
    if i < s.len() && s.len() - i == 1 {
        let b0 = s[i];
        proof {
            assert(rem.len() == 1 && rem[0] == b0);
        }
        r.push(b64_digit_ex(b0 / 4));
        r.push(b64_digit_ex((b0 % 4) * 16));
        r.push(61);
        r.push(61);
        proof {
            assert(r@ =~= r0 + b64_of(rem));
        }
    } else if i < s.len() && s.len() - i == 2 {
        let b0 = s[i];
        let b1 = s[i + 1];
        proof {
            assert(rem.len() == 2 && rem[0] == b0 && rem[1] == b1);
        }
        r.push(b64_digit_ex(b0 / 4));
        r.push(b64_digit_ex((b0 % 4) * 16 + b1 / 16));
        r.push(b64_digit_ex((b1 % 16) * 4));
        r.push(61);
        proof {
            assert(r@ =~= r0 + b64_of(rem));
        }
    } else {
        proof {
            assert(rem.len() == 0);
            assert(r@ =~= r0 + b64_of(rem));
        }
    }
    proof {
        assert(r0 + b64_of(rem) =~= b64_of(s@));
    }
    r
}

/// The `\0 user \0 secret` blob the PLAIN mechanism sends, before base64.
pub open spec fn plain_blob(user: Seq<u8>, secret: Seq<u8>) -> Seq<u8> {
    seq![0u8] + user + seq![0u8] + secret
}

/// Builds the PLAIN blob for `creds`, still unencoded.
fn make_plain_blob(creds: &Credentials) -> (r: Vec<u8>)
    ensures
        r@ == plain_blob(creds.username@, creds.secret@),
{
    let mut r: Vec<u8> = Vec::new();
    r.push(0);
    push_bytes(&mut r, creds.username.as_slice());
    r.push(0);
    push_bytes(&mut r, creds.secret.as_slice());
    proof {
        assert(r@ =~= plain_blob(creds.username@, creds.secret@));
    }
    r
}

/// One SMTP command, as the session decides it; `render` gives its exact
/// wire line.
#[derive(Debug)]
pub enum Command {
    Ehlo { client_id: Vec<u8> },
    StartTls,
    MailFrom { sender: Option<Vec<u8>>, eight_bit_mime: bool },
    Rcpt { to: Vec<u8> },
    Data,
    Quit,
    Noop,
    /// `AUTH PLAIN` with its initial base64 payload.
    AuthPlain { payload: Vec<u8> },
    /// `AUTH LOGIN`, which carries no initial payload.
    AuthLogin,
    /// A bare base64 challenge reply line.
    AuthData { payload: Vec<u8> },
}

pub open spec fn crlf() -> Seq<u8> {
    seq![13u8, 10]
}

pub open spec fn ehlo_prefix() -> Seq<u8> {
    seq![69u8, 72, 76, 79, 32]
}

pub open spec fn mail_from_prefix() -> Seq<u8> {
    seq![77u8, 65, 73, 76, 32, 70, 82, 79, 77, 58, 60]
}

pub open spec fn eight_bit_mime_param() -> Seq<u8> {
    seq![32u8, 66, 79, 68, 89, 61, 56, 66, 73, 84, 77, 73, 77, 69]
}

pub open spec fn rcpt_to_prefix() -> Seq<u8> {
    seq![82u8, 67, 80, 84, 32, 84, 79, 58, 60]
}

pub open spec fn data_word() -> Seq<u8> {
    seq![68u8, 65, 84, 65]
}

pub open spec fn quit_word() -> Seq<u8> {
    seq![81u8, 85, 73, 84]
}

pub open spec fn noop_word() -> Seq<u8> {
    seq![78u8, 79, 79, 80]
}

pub open spec fn auth_plain_prefix() -> Seq<u8> {
    seq![65u8, 85, 84, 72, 32, 80, 76, 65, 73, 78, 32]
}

pub open spec fn auth_login_word() -> Seq<u8> {
    seq![65u8, 85, 84, 72, 32, 76, 79, 71, 73, 78]
}

/// The exact line each command puts on the wire.
pub open spec fn spec_render(c: Command) -> Seq<u8> {
    match c {
        Command::Ehlo { client_id } => ehlo_prefix() + client_id@ + crlf(),
        Command::StartTls => starttls_token() + crlf(),
        Command::MailFrom { sender, eight_bit_mime } => mail_from_prefix() + (match sender {
            Option::Some(s) => s@,
            Option::None => Seq::empty(),
        }) + seq![62u8] + (if eight_bit_mime {
            eight_bit_mime_param()
        } else {
            Seq::empty()
        }) + crlf(),
        Command::Rcpt { to } => rcpt_to_prefix() + to@ + seq![62u8] + crlf(),
        Command::Data => data_word() + crlf(),
        Command::Quit => quit_word() + crlf(),
        Command::Noop => noop_word() + crlf(),
        Command::AuthPlain { payload } => auth_plain_prefix() + payload@ + crlf(),
        Command::AuthLogin => auth_login_word() + crlf(),
        Command::AuthData { payload } => payload@ + crlf(),
    }
}

/// Renders a command into its wire line.
pub fn render(c: &Command) -> (r: Vec<u8>)
    ensures
        r@ == spec_render(*c),
{
    let mut out: Vec<u8> = Vec::new();
    match c {
        Command::Ehlo { client_id } => {
            out.push(69);
            out.push(72);
            out.push(76);
            out.push(79);
            out.push(32);
            push_bytes(&mut out, client_id.as_slice());
            out.push(13);
            out.push(10);
            proof {
                assert(out@ =~= ehlo_prefix() + client_id@ + crlf());
            }
        },
        Command::StartTls => {
            out.push(83);
            out.push(84);
            out.push(65);
            out.push(82);
            out.push(84);
            out.push(84);
            out.push(76);
            out.push(83);
            out.push(13);
            out.push(10);
            proof {
                assert(out@ =~= starttls_token() + crlf());
            }
        },
        Command::MailFrom { sender, eight_bit_mime } => {
            out.push(77);
            out.push(65);
            out.push(73);
            out.push(76);
            out.push(32);
            out.push(70);
            out.push(82);
            out.push(79);
            out.push(77);
            out.push(58);
            out.push(60);
            match sender {
                Option::Some(s) => push_bytes(&mut out, s.as_slice()),
                Option::None => (),
            }
            out.push(62);
            if *eight_bit_mime {
                out.push(32);
                out.push(66);
                out.push(79);
                out.push(68);
                out.push(89);
                out.push(61);
                out.push(56);
                out.push(66);
                out.push(73);
                out.push(84);
                out.push(77);
                out.push(73);
                out.push(77);
                out.push(69);
            }
            out.push(13);
            out.push(10);
            proof {
                assert(out@ =~= spec_render(*c));
            }
        },
        Command::Rcpt { to } => {
            out.push(82);
            out.push(67);
            out.push(80);
            out.push(84);
            out.push(32);
            out.push(84);
            out.push(79);
            out.push(58);
            out.push(60);
            push_bytes(&mut out, to.as_slice());
            out.push(62);
            out.push(13);
            out.push(10);
            proof {
                assert(out@ =~= rcpt_to_prefix() + to@ + seq![62u8] + crlf());
            }
        },
        Command::Data => {
            out.push(68);
            out.push(65);
            out.push(84);
            out.push(65);
            out.push(13);
            out.push(10);
            proof {
                assert(out@ =~= data_word() + crlf());
            }
        },
        Command::Quit => {
            out.push(81);
            out.push(85);
            out.push(73);
            out.push(84);
            out.push(13);
            out.push(10);
            proof {
                assert(out@ =~= quit_word() + crlf());
            }
        },
        Command::Noop => {
            out.push(78);
            out.push(79);
            out.push(79);
            out.push(80);
            out.push(13);
            out.push(10);
            proof {
                assert(out@ =~= noop_word() + crlf());
            }
        },
        Command::AuthPlain { payload } => {
            out.push(65);
            out.push(85);
            out.push(84);
            out.push(72);
            out.push(32);
            out.push(80);
            out.push(76);
            out.push(65);
            out.push(73);
            out.push(78);
            out.push(32);
            push_bytes(&mut out, payload.as_slice());
            out.push(13);
            out.push(10);
            proof {
                assert(out@ =~= auth_plain_prefix() + payload@ + crlf());
            }
        },
        Command::AuthLogin => {
            out.push(65);
            out.push(85);
            out.push(84);
            out.push(72);
            out.push(32);
            out.push(76);
            out.push(79);
            out.push(71);
            out.push(73);
            out.push(78);
            out.push(13);
            out.push(10);
            proof {
                assert(out@ =~= auth_login_word() + crlf());
            }
        },
        Command::AuthData { payload } => {
            push_bytes(&mut out, payload.as_slice());
            out.push(13);
            out.push(10);
            proof {
                assert(out@ =~= payload@ + crlf());
            }
        },
    }
    out
}

/// The base64 form of `Username:`, the LOGIN challenge asking for the name.
pub open spec fn username_challenge_b64() -> Seq<u8> {
    seq![86u8, 88, 78, 108, 99, 109, 53, 104, 98, 87, 85, 54]
}

fn is_username_challenge(l: &[u8]) -> (r: bool)
    ensures
        r == (l@ == username_challenge_b64()),
{
    let r = l.len() == 12 && l[0] == 86 && l[1] == 88 && l[2] == 78 && l[3] == 108 && l[4] == 99
        && l[5] == 109 && l[6] == 53 && l[7] == 104 && l[8] == 98 && l[9] == 87 && l[10] == 85
        && l[11] == 54;
    proof {
        if r {
            assert(l@ =~= username_challenge_b64());
        } else {
            assert(l@ != username_challenge_b64());
        }
    }
    r
}

/// The command that opens authentication with the chosen mechanism:
/// `AUTH PLAIN` carries the encoded blob at once, `AUTH LOGIN` waits to be
/// challenged.
pub fn auth_initial_command(m: Mechanism, creds: &Credentials) -> (c: Command)
    ensures
        m == Mechanism::Plain ==> (c matches Command::AuthPlain { payload } && payload@ == b64_of(
            plain_blob(creds.username@, creds.secret@),
        )),
        m == Mechanism::Login ==> (c matches Command::AuthLogin),
{
    match m {
        Mechanism::Plain => {
            let blob = make_plain_blob(creds);
            Command::AuthPlain { payload: base64_encode(blob.as_slice()) }
        },
        Mechanism::Login => Command::AuthLogin,
    }
}

/// The reply to one 334 challenge: PLAIN resends its blob; LOGIN answers the
/// `Username:` challenge with the encoded name and any other challenge with
/// the encoded secret.
pub fn auth_challenge_reply(m: Mechanism, creds: &Credentials, challenge: &[u8]) -> (c: Command)
    ensures
        c matches Command::AuthData { payload } && payload@ == spec_challenge_reply(
            m,
            creds.username@,
            creds.secret@,
            challenge@,
        ),
{
    match m {
        Mechanism::Plain => {
            let blob = make_plain_blob(creds);
            Command::AuthData { payload: base64_encode(blob.as_slice()) }
        },
        Mechanism::Login => {
            if is_username_challenge(challenge) {
                Command::AuthData { payload: base64_encode(creds.username.as_slice()) }
            } else {
                Command::AuthData { payload: base64_encode(creds.secret.as_slice()) }
            }
        },
    }
}

/// What one challenge reply carries, already base64-encoded.
pub open spec fn spec_challenge_reply(
    m: Mechanism,
    user: Seq<u8>,
    secret: Seq<u8>,
    challenge: Seq<u8>,
) -> Seq<u8> {
    match m {
        Mechanism::Plain => b64_of(plain_blob(user, secret)),
        Mechanism::Login => if challenge == username_challenge_b64() {
            b64_of(user)
        } else {
            b64_of(secret)
        },
    }
}

} // verus!
