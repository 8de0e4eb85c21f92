use smtp_session::codec::ClientCodec;
use smtp_session::codec::encode_message;
use smtp_session::codec::unstuff;

fn encode_all(chunks: &[&[u8]]) -> Vec<u8> {
    let mut codec = ClientCodec::new();
    let mut buf: Vec<u8> = Vec::new();
    for c in chunks {
        // an empty call would mean "end of message", not an empty chunk
        if !c.is_empty() {
            codec.encode(c, &mut buf);
        }
    }
    buf
}

#[test]
fn stuffs_dot_line() {
    assert_eq!(encode_all(&[b"a\r\n.b"]), b"a\r\n..b".to_vec());
}

#[test]
fn stuffs_every_dot_line() {
    assert_eq!(
        encode_all(&[b"one\r\n.two\r\n.three"]),
        b"one\r\n..two\r\n..three".to_vec()
    );
    // only the first dot of a line is doubled
    assert_eq!(encode_all(&[b"a\r\n..b"]), b"a\r\n...b".to_vec());
}

#[test]
fn plain_text_passes_through() {
    assert_eq!(encode_all(&[b"hello world"]), b"hello world".to_vec());
    assert_eq!(encode_all(&[b"dots . in . the middle"]), b"dots . in . the middle".to_vec());
}

#[test]
fn tracker_restarts_on_stray_cr() {
    // the line-start tracker restarts on every CR, so a dot after an extra
    // CR, or after a blank line, is still escaped
    assert_eq!(encode_all(&[b"a\r\r\n.b"]), b"a\r\r\n..b".to_vec());
    assert_eq!(encode_all(&[b"a\r\n\r\n.b"]), b"a\r\n\r\n..b".to_vec());
}

#[test]
fn leading_dot_is_the_sole_exception() {
    // the encoder starts in state 0, not at a line start, so a dot at the
    // very start of the body is not escaped
    assert_eq!(encode_all(&[b".x"]), b".x".to_vec());
}

#[test]
fn empty_body_terminator_on_first_call() {
    // a body with zero bytes: the final call alone yields the full 5-byte
    // terminator
    let mut codec = ClientCodec::new();
    let mut buf: Vec<u8> = Vec::new();
    codec.encode(b"", &mut buf);
    assert_eq!(buf, b"\r\n.\r\n".to_vec());
}

#[test]
fn terminator_shortened_by_pending_bytes() {
    // body ends in CR LF: two terminator bytes are already pending
    let mut codec = ClientCodec::new();
    let mut buf: Vec<u8> = Vec::new();
    codec.encode(b"line\r\n", &mut buf);
    codec.encode(b"", &mut buf);
    assert_eq!(buf, b"line\r\n.\r\n".to_vec());

    // body ends in CR alone: one terminator byte is already pending
    let mut codec = ClientCodec::new();
    let mut buf: Vec<u8> = Vec::new();
    codec.encode(b"x\r", &mut buf);
    codec.encode(b"", &mut buf);
    assert_eq!(buf, b"x\r\n.\r\n".to_vec());
}

#[test]
fn terminator_resets_codec() {
    let mut codec = ClientCodec::new();
    let mut buf: Vec<u8> = Vec::new();
    codec.encode(b"a\r\n", &mut buf);
    codec.encode(b"", &mut buf);
    let mut second: Vec<u8> = Vec::new();
    codec.encode(b"", &mut second);
    assert_eq!(second, b"\r\n.\r\n".to_vec());
}

#[test]
fn chunked_encoding_matches_whole() {
    // streaming consistency: any split gives the bytes of the one-call run
    let body: &[u8] = b"first\r\n.second\r\nthird\r\n.fourth";
    let whole = encode_all(&[body]);
    for cut1 in 0..body.len() {
        for cut2 in cut1..body.len() {
            let chunked = encode_all(&[&body[..cut1], &body[cut1..cut2], &body[cut2..]]);
            assert_eq!(chunked, whole);
        }
    }
}

#[test]
fn chunk_split_inside_pattern() {
    // the CR LF . pattern split across three calls is still caught
    assert_eq!(encode_all(&[b"a\r", b"\n", b".b"]), b"a\r\n..b".to_vec());
}

#[test]
fn round_trip_with_dot_lines() {
    let bodies: [&[u8]; 6] = [
        b"a\r\n.b",
        b"one\r\n..two\r\n.three\r\n",
        b"no dots at all",
        b"trailing\r\n",
        b"headers: here\r\n\r\n.dot after the blank line\r\n",
        b"stray\r\r\n.dot\r\n",
    ];
    for body in bodies {
        let encoded = encode_all(&[body]);
        assert_eq!(unstuff(&encoded), body.to_vec());
    }
}

#[test]
fn unstuff_removes_line_start_dots() {
    assert_eq!(unstuff(b"a\r\n..b"), b"a\r\n.b".to_vec());
    // the receiving side treats the start of DATA as a line start
    assert_eq!(unstuff(b".x"), b"x".to_vec());
}

#[test]
fn no_end_marker_inside_stuffed_body() {
    // a lone dot line — the end-of-data marker itself — is escaped, so the
    // marker never appears inside the stuffed body
    let out = encode_all(&[b"a\r\n\r\n.\r\nb"]);
    assert_eq!(out, b"a\r\n\r\n..\r\nb".to_vec());
    assert!(!out.windows(5).any(|w| w == b"\r\n.\r\n"));
}

#[test]
fn whole_message_wire_form() {
    assert_eq!(encode_message(b""), b"\r\n.\r\n".to_vec());
    assert_eq!(encode_message(b"hi"), b"hi\r\n.\r\n".to_vec());
    assert_eq!(encode_message(b"line\r\n"), b"line\r\n.\r\n".to_vec());
    assert_eq!(encode_message(b"a\r\n.b"), b"a\r\n..b\r\n.\r\n".to_vec());
}
