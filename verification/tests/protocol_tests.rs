use smtp_session::capabilities::Extension;
use smtp_session::capabilities::Mechanism;
use smtp_session::commands::Command;
use smtp_session::commands::Credentials;
use smtp_session::commands::render;
use smtp_session::connection::Action;
use smtp_session::connection::Connection;
use smtp_session::connection::Envelope;
use smtp_session::connection::Phase;
use smtp_session::connection::SmtpError;
use smtp_session::response::Response;

fn reply(code: u16, lines: &[&[u8]]) -> Response {
    Response { code, message: lines.iter().map(|l| l.to_vec()).collect() }
}

fn creds() -> Credentials {
    Credentials { username: b"u".to_vec(), secret: b"p".to_vec() }
}

/// Drives a plain handshake against a server that advertises `keywords`.
fn handshake_to_ready(keywords: &[&[u8]]) -> Connection {
    let mut conn = Connection::new(false);
    let a = conn.handshake_start(false, b"me".to_vec());
    assert!(matches!(a, Action::ReadReply));
    let a = conn.on_response(&reply(220, &[b"ok"]));
    match a {
        Action::Send(cmd) => assert_eq!(render(&cmd), b"EHLO me\r\n".to_vec()),
        other => panic!("expected EHLO, got {:?}", other),
    }
    let mut lines: Vec<&[u8]> = vec![b"greets"];
    lines.extend_from_slice(keywords);
    let a = conn.on_response(&reply(250, &lines));
    assert!(matches!(a, Action::Done));
    assert_eq!(conn.phase, Phase::Ready);
    conn
}

#[test]
fn handshake_without_starttls_stays_plain() {
    // server greets 220, EHLO lists 8BITMIME and no STARTTLS: the handshake
    // ends Ready without any upgrade attempt
    let conn = handshake_to_ready(&[b"8BITMIME"]);
    assert!(!conn.has_broken());
    assert!(!conn.is_encrypted());
    assert!(conn.supports(Extension::EightBitMime));
    assert!(!conn.can_starttls());
}

#[test]
fn handshake_negative_banner_aborts() {
    let mut conn = Connection::new(false);
    conn.handshake_start(false, b"me".to_vec());
    let a = conn.on_response(&reply(554, &[b"go away"]));
    assert!(matches!(a, Action::Abort(SmtpError::Negative(554))));
    assert!(conn.has_broken());
    assert_eq!(conn.phase, Phase::Failed);
}

#[test]
fn starttls_reissues_ehlo_and_replaces_capabilities() {
    let mut conn = Connection::new(false);
    assert!(matches!(conn.handshake_start(false, b"me".to_vec()), Action::ReadReply));
    assert!(matches!(conn.on_response(&reply(220, &[b"ok"])), Action::Send(_)));
    // first EHLO: STARTTLS plus AUTH PLAIN plus 8BITMIME over the plain channel
    let a = conn.on_response(&reply(250, &[b"g", b"STARTTLS", b"8BITMIME", b"AUTH PLAIN"]));
    match a {
        Action::Send(cmd) => assert_eq!(render(&cmd), b"STARTTLS\r\n".to_vec()),
        other => panic!("expected STARTTLS, got {:?}", other),
    }
    // STARTTLS accepted: upgrade, then a second EHLO must follow
    assert!(matches!(conn.on_response(&reply(220, &[b"go ahead"])), Action::Upgrade));
    let a = conn.on_upgrade_result(true);
    match a {
        Action::Send(cmd) => assert_eq!(render(&cmd), b"EHLO me\r\n".to_vec()),
        other => panic!("expected a second EHLO, got {:?}", other),
    }
    assert!(conn.is_encrypted());
    // the second EHLO advertises AUTH PLAIN LOGIN and no 8BITMIME; the new
    // snapshot replaces the first wholesale, it is not a union of the two
    let a = conn.on_response(&reply(250, &[b"g", b"AUTH PLAIN LOGIN"]));
    assert!(matches!(a, Action::Done));
    assert_eq!(conn.phase, Phase::Ready);
    assert_eq!(conn.server_info().auth, vec![Mechanism::Plain, Mechanism::Login]);
    assert!(!conn.supports(Extension::EightBitMime));
    assert!(!conn.can_starttls());
}

#[test]
fn no_starttls_once_encrypted() {
    // an encrypted connection never offers STARTTLS, whatever is advertised
    let mut conn = Connection::new(true);
    assert!(!conn.can_starttls());
    conn.caps.starttls = true;
    assert!(!conn.can_starttls());
    let mut plain = Connection::new(false);
    plain.caps.starttls = true;
    assert!(plain.can_starttls());
}

#[test]
fn implicit_tls_upgrades_before_any_bytes() {
    let mut conn = Connection::new(false);
    assert!(matches!(conn.handshake_start(true, b"me".to_vec()), Action::Upgrade));
    assert!(matches!(conn.on_upgrade_result(true), Action::ReadReply));
    assert!(conn.is_encrypted());

    // a transport handed over already encrypted needs no upgrade
    let mut pre = Connection::new(true);
    assert!(matches!(pre.handshake_start(true, b"me".to_vec()), Action::ReadReply));
}

#[test]
fn failed_upgrade_is_fatal() {
    let mut conn = Connection::new(false);
    conn.handshake_start(true, b"me".to_vec());
    let a = conn.on_upgrade_result(false);
    assert!(matches!(a, Action::Abort(SmtpError::UpgradeFailed)));
    assert!(conn.has_broken());
}

#[test]
fn auth_picks_first_server_mechanism() {
    let mut conn = handshake_to_ready(&[b"AUTH LOGIN PLAIN"]);
    let a = conn.auth_start(&[Mechanism::Plain, Mechanism::Login], creds());
    match a {
        Action::Send(cmd) => assert_eq!(render(&cmd), b"AUTH LOGIN\r\n".to_vec()),
        other => panic!("expected AUTH LOGIN, got {:?}", other),
    }
    assert_eq!(conn.phase, Phase::AuthWait);
}

#[test]
fn auth_without_common_mechanism_sends_nothing() {
    let mut conn = handshake_to_ready(&[b"8BITMIME"]);
    let a = conn.auth_start(&[Mechanism::Plain, Mechanism::Login], creds());
    assert!(matches!(a, Action::Fail(SmtpError::NoCompatibleMechanism)));
    // no abort: the connection is still usable
    assert!(!conn.has_broken());
    assert_eq!(conn.phase, Phase::Ready);
}

#[test]
fn auth_succeeds_on_positive_reply() {
    let mut conn = handshake_to_ready(&[b"AUTH PLAIN"]);
    let a = conn.auth_start(&[Mechanism::Plain], creds());
    match a {
        Action::Send(cmd) => assert_eq!(render(&cmd), b"AUTH PLAIN AHUAcA==\r\n".to_vec()),
        other => panic!("expected AUTH PLAIN, got {:?}", other),
    }
    assert!(matches!(conn.on_response(&reply(235, &[b"ok"])), Action::Done));
    assert_eq!(conn.phase, Phase::Authenticated);
}

#[test]
fn auth_rejected_aborts() {
    let mut conn = handshake_to_ready(&[b"AUTH PLAIN"]);
    conn.auth_start(&[Mechanism::Plain], creds());
    let a = conn.on_response(&reply(535, &[b"bad credentials"]));
    assert!(matches!(a, Action::Abort(SmtpError::AuthRejected(535))));
    assert!(conn.has_broken());
}

#[test]
fn auth_challenge_loop_is_bounded() {
    // a mock server that always replies 334: exactly 10 challenge replies
    // go out, then the exchange fails with TooManyChallenges
    let mut conn = handshake_to_ready(&[b"AUTH LOGIN"]);
    let a = conn.auth_start(&[Mechanism::Login], creds());
    assert!(matches!(a, Action::Send(Command::AuthLogin)));
    let mut replies_sent = 0;
    loop {
        let a = conn.on_response(&reply(334, &[b"VXNlcm5hbWU6"]));
        match a {
            Action::Send(Command::AuthData { .. }) => replies_sent += 1,
            Action::Abort(SmtpError::TooManyChallenges) => break,
            other => panic!("unexpected action {:?}", other),
        }
        assert!(replies_sent <= 10, "challenge budget exceeded");
    }
    assert_eq!(replies_sent, 10);
    assert!(conn.has_broken());
}

#[test]
fn login_challenges_get_username_then_secret() {
    let mut conn = handshake_to_ready(&[b"AUTH LOGIN"]);
    conn.auth_start(&[Mechanism::Login], creds());
    let a = conn.on_response(&reply(334, &[b"VXNlcm5hbWU6"]));
    match a {
        Action::Send(cmd) => assert_eq!(render(&cmd), b"dQ==\r\n".to_vec()),
        other => panic!("expected the encoded username, got {:?}", other),
    }
    let a = conn.on_response(&reply(334, &[b"UGFzc3dvcmQ6"]));
    match a {
        Action::Send(cmd) => assert_eq!(render(&cmd), b"cA==\r\n".to_vec()),
        other => panic!("expected the encoded secret, got {:?}", other),
    }
    assert!(matches!(conn.on_response(&reply(235, &[b"ok"])), Action::Done));
}

fn three_rcpt_envelope() -> Envelope {
    Envelope {
        sender: Some(b"a@b".to_vec()),
        recipients: vec![b"r1@x".to_vec(), b"r2@x".to_vec(), b"r3@x".to_vec()],
    }
}

#[test]
fn send_walks_the_envelope_in_order() {
    let mut conn = handshake_to_ready(&[b"8BITMIME"]);
    let a = conn.send_start(three_rcpt_envelope(), b"hi\r\n".to_vec());
    match a {
        Action::Send(cmd) => {
            assert_eq!(render(&cmd), b"MAIL FROM:<a@b> BODY=8BITMIME\r\n".to_vec())
        }
        other => panic!("expected MAIL FROM, got {:?}", other),
    }
    for expected in [b"RCPT TO:<r1@x>\r\n".to_vec(), b"RCPT TO:<r2@x>\r\n".to_vec(), b"RCPT TO:<r3@x>\r\n".to_vec()] {
        match conn.on_response(&reply(250, &[b"ok"])) {
            Action::Send(cmd) => assert_eq!(render(&cmd), expected),
            other => panic!("expected RCPT TO, got {:?}", other),
        }
    }
    match conn.on_response(&reply(250, &[b"ok"])) {
        Action::Send(cmd) => assert_eq!(render(&cmd), b"DATA\r\n".to_vec()),
        other => panic!("expected DATA, got {:?}", other),
    }
    assert!(matches!(conn.on_response(&reply(354, &[b"go"])), Action::SendBody));
    assert!(matches!(conn.on_response(&reply(250, &[b"queued"])), Action::Done));
    assert_eq!(conn.phase, Phase::Authenticated);
}

#[test]
fn rejected_recipient_aborts_before_the_next() {
    // MAIL FROM accepted, second of three RCPT TO rejected: the third is
    // never sent and the connection is aborted before the error surfaces
    let mut conn = handshake_to_ready(&[b"8BITMIME"]);
    conn.send_start(three_rcpt_envelope(), b"hi".to_vec());
    // MAIL FROM accepted, first RCPT goes out
    match conn.on_response(&reply(250, &[b"ok"])) {
        Action::Send(cmd) => assert_eq!(render(&cmd), b"RCPT TO:<r1@x>\r\n".to_vec()),
        other => panic!("expected the first RCPT, got {:?}", other),
    }
    // first RCPT accepted, second goes out
    match conn.on_response(&reply(250, &[b"ok"])) {
        Action::Send(cmd) => assert_eq!(render(&cmd), b"RCPT TO:<r2@x>\r\n".to_vec()),
        other => panic!("expected the second RCPT, got {:?}", other),
    }
    // second RCPT rejected: abort, not the third RCPT
    let a = conn.on_response(&reply(550, &[b"no such user"]));
    assert!(matches!(a, Action::Abort(SmtpError::Negative(550))));
    assert!(conn.has_broken());
    assert_eq!(conn.phase, Phase::Failed);
}

#[test]
fn mail_from_rejection_aborts() {
    let mut conn = handshake_to_ready(&[]);
    let a = conn.send_start(
        Envelope { sender: None, recipients: vec![b"r@x".to_vec()] },
        b"hi".to_vec(),
    );
    match a {
        Action::Send(cmd) => assert_eq!(render(&cmd), b"MAIL FROM:<>\r\n".to_vec()),
        other => panic!("expected MAIL FROM, got {:?}", other),
    }
    assert!(matches!(
        conn.on_response(&reply(451, &[b"try later"])),
        Action::Abort(SmtpError::Negative(451))
    ));
    assert!(conn.has_broken());
}

#[test]
fn quit_closes_the_connection() {
    let mut conn = handshake_to_ready(&[]);
    match conn.quit_start() {
        Action::Send(cmd) => assert_eq!(render(&cmd), b"QUIT\r\n".to_vec()),
        other => panic!("expected QUIT, got {:?}", other),
    }
    assert!(matches!(conn.on_response(&reply(221, &[b"bye"])), Action::Done));
    assert_eq!(conn.phase, Phase::Closed);
    assert!(!conn.has_broken());
}

#[test]
fn refused_quit_closes_without_aborting() {
    // quitting does not abort: a negative QUIT reply surfaces as an error,
    // but the connection ends closed, not broken, and no second QUIT is asked
    let mut conn = handshake_to_ready(&[]);
    conn.quit_start();
    let a = conn.on_response(&reply(500, &[b"what"]));
    assert!(matches!(a, Action::Fail(SmtpError::Negative(500))));
    assert!(!conn.has_broken());
    assert_eq!(conn.phase, Phase::Closed);
}

#[test]
fn transport_failure_is_fatal() {
    let mut conn = handshake_to_ready(&[]);
    conn.quit_start();
    let a = conn.on_transport_error();
    assert!(matches!(a, Action::Abort(SmtpError::Transport)));
    assert!(conn.has_broken());
}

#[test]
fn unparsable_reply_is_fatal() {
    let mut conn = handshake_to_ready(&[]);
    conn.quit_start();
    let a = conn.on_bad_response();
    assert!(matches!(a, Action::Abort(SmtpError::BadResponse)));
    assert!(conn.has_broken());
}

#[test]
fn abort_is_idempotent() {
    let mut conn = handshake_to_ready(&[]);
    let q = conn.abort();
    assert!(matches!(q, Some(Command::Quit)));
    assert!(conn.has_broken());
    assert!(conn.abort().is_none());
    assert!(conn.has_broken());
}
