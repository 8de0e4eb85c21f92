//! SMTP DATA-phase transparency ("dot-stuffing") codec.
//!
//! The encoder scans the message body once, tracking progress toward the
//! subsequence `CR LF .`; whenever that subsequence completes, one extra `.`
//! is inserted in front of the matched dot. The tracker state persists across
//! calls, so a body may be fed in arbitrary chunks. A call with an empty
//! frame ends the message: it emits the end-of-data terminator `CR LF . CR LF`,
//! shortened by however many of its leading bytes the tracker has already seen,
//! and resets the tracker.

use vstd::prelude::*;

verus! {

pub const CR: u8 = 13;
pub const LF: u8 = 10;
pub const DOT: u8 = 46;

/// One step of the `CR LF` line-start tracker: state is the length of the
/// longest suffix of the bytes consumed so far that is a proper prefix of
/// `CR LF .` (0, 1 or 2), so it restarts on every `CR`. State 2 means the
/// last two bytes were `CR LF`: the next byte stands at the start of a line.
/// The encoder and a receiving server track line starts identically; only
/// their starting states differ.
pub open spec fn codec_step(s: nat, b: u8) -> nat {
    if b == CR {
        1
    } else if s == 1 && b == LF {
        2
    } else {
        0
    }
}

/// The encoder inserts an extra dot exactly when a dot completes `CR LF .`.
pub open spec fn stuffs_here(s: nat, b: u8) -> bool {
    s == 2 && b == DOT
}

/// Tracker state after consuming `frame` from state `s`.
pub open spec fn state_after(s: nat, frame: Seq<u8>) -> nat
    decreases frame.len(),
{
    if frame.len() == 0 {
        s
    } else {
        state_after(codec_step(s, frame[0]), frame.skip(1))
    }
}

/// Bytes emitted for `frame` when encoding starts in tracker state `s`.
pub open spec fn encoded(s: nat, frame: Seq<u8>) -> Seq<u8>
    decreases frame.len(),
{
    if frame.len() == 0 {
        Seq::empty()
    } else {
        (if stuffs_here(s, frame[0]) {
            seq![DOT, frame[0]]
        } else {
            seq![frame[0]]
        }) + encoded(codec_step(s, frame[0]), frame.skip(1))
    }
}

/// The full 5-byte end-of-data sequence `CR LF . CR LF`.
pub open spec fn full_terminator() -> Seq<u8> {
    seq![CR, LF, DOT, CR, LF]
}

/// The terminator still owed when the tracker already stands at `s`: the
/// first `s` bytes of `CR LF . CR LF` are treated as already produced.
pub open spec fn terminator_from(s: nat) -> Seq<u8> {
    full_terminator().skip(s as int)
}

/// The receiving server's reverse transform: a dot standing at the start of
/// a line is deleted; everything else is passed through. The server tracks
/// line starts with the same `codec_step`; at the start of the DATA stream
/// it is at a line start, so callers use `u == 2`.
pub open spec fn unstuffed(u: nat, data: Seq<u8>) -> Seq<u8>
    decreases data.len(),
{
    if data.len() == 0 {
        Seq::empty()
    } else {
        (if u == 2 && data[0] == DOT {
            Seq::<u8>::empty()
        } else {
            seq![data[0]]
        }) + unstuffed(codec_step(u, data[0]), data.skip(1))
    }
}

/// Streaming-consistency law: encoding a concatenation emits exactly the
/// encoding of the first part followed by the encoding of the second part
/// from the carried-over tracker state, and the tracker state composes the
/// same way. Splitting a body into any number of encode calls therefore
/// produces byte-for-byte the output of one whole-body call.
pub proof fn lemma_streaming_consistency(s: nat, a: Seq<u8>, b: Seq<u8>)
    ensures
        encoded(s, a + b) == encoded(s, a) + encoded(state_after(s, a), b),
        state_after(s, a + b) == state_after(state_after(s, a), b),
    decreases a.len(),
{
    if a.len() == 0 {
        assert(a + b =~= b);
        assert(encoded(s, a) + encoded(state_after(s, a), b) =~= encoded(s, b));
    } else {
        let h = a[0];
        let s1 = codec_step(s, h);
        assert((a + b)[0] == h);
        assert((a + b).skip(1) =~= a.skip(1) + b);
        lemma_streaming_consistency(s1, a.skip(1), b);
        let pre = if stuffs_here(s, h) { seq![DOT, h] } else { seq![h] };
        assert(encoded(s, a + b) == pre + encoded(s1, a.skip(1) + b));
        assert(pre + (encoded(s1, a.skip(1)) + encoded(state_after(s1, a.skip(1)), b)) =~= (pre
            + encoded(s1, a.skip(1))) + encoded(state_after(s1, a.skip(1)), b));
        assert(state_after(s, a) == state_after(s1, a.skip(1)));
    }
}

proof fn lemma_single_byte(s: nat, b: u8)
    ensures
        state_after(s, seq![b]) == codec_step(s, b),
        encoded(s, seq![b]) == (if stuffs_here(s, b) {
            seq![DOT, b]
        } else {
            seq![b]
        }),
{
    let one = seq![b];
    assert(one[0] == b);
    assert(one.skip(1).len() == 0);
    assert(state_after(codec_step(s, b), one.skip(1)) == codec_step(s, b));
    assert(encoded(codec_step(s, b), one.skip(1)) == Seq::<u8>::empty());
    assert((if stuffs_here(s, b) {
        seq![DOT, b]
    } else {
        seq![b]
    }) + Seq::<u8>::empty() =~= (if stuffs_here(s, b) {
        seq![DOT, b]
    } else {
        seq![b]
    }));
}

proof fn lemma_round_trip_from(e: nat, u: nat, body: Seq<u8>)
    requires
        e <= 2,
        u <= 2,
        e == u || (e == 0 && u == 2),
        e != u && body.len() > 0 ==> body[0] != DOT,
    ensures
        unstuffed(u, encoded(e, body)) == body,
    decreases body.len(),
{
    if body.len() == 0 {
        assert(unstuffed(u, encoded(e, body)) =~= body);
    } else {
        let b = body[0];
        let rest = body.skip(1);
        let e1 = codec_step(e, b);
        let u1 = codec_step(u, b);
        // after one byte the two trackers always agree
        assert(e1 == u1);
        assert(body =~= seq![b] + rest);
        if stuffs_here(e, b) {
            // e == 2, so u == 2: the server drops the inserted dot and passes
            // the original one through.
            let tail = encoded(0, rest);
            assert(encoded(e, body) == seq![DOT, b] + tail);
            assert((seq![DOT, b] + tail)[0] == DOT);
            assert((seq![DOT, b] + tail).skip(1) =~= seq![b] + tail);
            assert(codec_step(2, DOT) == 0);
            assert(unstuffed(u, encoded(e, body)) == unstuffed(0, seq![b] + tail));
            assert((seq![b] + tail)[0] == b);
            assert((seq![b] + tail).skip(1) =~= tail);
            assert(unstuffed(0, seq![b] + tail) == seq![b] + unstuffed(0, tail));
            lemma_round_trip_from(0, 0, rest);
        } else {
            let tail = encoded(e1, rest);
            assert(encoded(e, body) == seq![b] + tail);
            assert((seq![b] + tail)[0] == b);
            assert((seq![b] + tail).skip(1) =~= tail);
            // a line-start dot with the encoder mid-stream is the stuff case;
            // one at the very start of the stream is excluded
            assert(!(u == 2 && b == DOT));
            assert(unstuffed(u, seq![b] + tail) == seq![b] + unstuffed(u1, tail));
            lemma_round_trip_from(e1, u1, rest);
        }
    }
}

/// Round-trip law: encoding and then the receiving server's dot-unstuffing
/// yield the body exactly. The one exception is a dot standing at the very
/// start of the stream: the encoder begins in state 0, not at a line start,
/// so a body whose first byte is a dot is pinned as the sole exclusion.
pub proof fn lemma_dot_stuffing_round_trip(body: Seq<u8>)
    requires
        body.len() > 0 ==> body[0] != DOT,
    ensures
        unstuffed(2, encoded(0, body)) == body,
{
    lemma_round_trip_from(0, 2, body);
}

/// Every dot that stands right after a `CR LF` in the encoded stream is
/// doubled: the next byte is another dot.
pub open spec fn line_start_dots_doubled(out: Seq<u8>) -> bool {
    forall|i: int|
        2 <= i < out.len() && out[i - 2] == CR && out[i - 1] == LF && #[trigger] out[i] == DOT
            ==> i + 1 < out.len() && out[i + 1] == DOT
}

spec fn ends_with_cr(out: Seq<u8>) -> bool {
    out.len() >= 1 && out[out.len() - 1] == CR
}

spec fn ends_with_crlf(out: Seq<u8>) -> bool {
    out.len() >= 2 && out[out.len() - 2] == CR && out[out.len() - 1] == LF
}

proof fn lemma_doubled_inv(body: Seq<u8>)
    ensures
        line_start_dots_doubled(encoded(0, body)),
        (state_after(0, body) == 1) == ends_with_cr(encoded(0, body)),
        (state_after(0, body) == 2) == ends_with_crlf(encoded(0, body)),
    decreases body.len(),
{
    if body.len() == 0 {
        assert(encoded(0, body) =~= Seq::<u8>::empty());
    } else {
        let n = body.len() as int;
        let p = body.take(n - 1);
        let b = body[n - 1];
        lemma_doubled_inv(p);
        let s = state_after(0, p);
        assert(body =~= p + seq![b]);
        lemma_streaming_consistency(0, p, seq![b]);
        lemma_single_byte(s, b);
        let out = encoded(0, p);
        let delta = if stuffs_here(s, b) {
            seq![DOT, b]
        } else {
            seq![b]
        };
        let out2 = encoded(0, body);
        assert(out2 == out + delta);
        let m = out.len() as int;
        assert(forall|k: int| 0 <= k < m ==> out2[k] == #[trigger] out[k]);
        assert(forall|k: int| m <= k < out2.len() ==> #[trigger] out2[k] == delta[k - m]);
        assert(state_after(0, body) == codec_step(s, b));
        assert forall|i: int|
            2 <= i < out2.len() && out2[i - 2] == CR && out2[i - 1] == LF && #[trigger] out2[i]
                == DOT implies i + 1 < out2.len() && out2[i + 1] == DOT by {
            if i + 1 < m {
                // wholly inside the older output: its own property applies
                assert(out[i - 2] == CR && out[i - 1] == LF && out[i] == DOT);
                assert(out[i + 1] == DOT);
            } else if i < m {
                // a dangling line-start dot at the very end of the older
                // output would already have broken its property
                assert(out[i - 2] == CR && out[i - 1] == LF && out[i] == DOT);
                assert(false);
            } else if stuffs_here(s, b) {
                if i == m {
                    // the inserted dot is followed by the body's own dot
                    assert(out2[i + 1] == DOT);
                } else {
                    // the body's dot is preceded by the inserted one, not LF
                    assert(out2[i - 1] == DOT);
                    assert(false);
                }
            } else {
                // an unstuffed appended dot after CR LF would mean the
                // tracker stood at a line start, which is the stuff case
                assert(i == m && b == DOT);
                assert(out[m - 2] == CR && out[m - 1] == LF);
                assert(ends_with_crlf(out));
                assert(s == 2);
                assert(false);
            }
        }
    }
}

/// Transparency: the 5-byte end-of-data marker `CR LF . CR LF` never occurs
/// inside the dot-stuffed body, whatever the body holds: every line-start
/// dot is doubled on the wire, while the marker's dot is followed by a CR.
pub proof fn lemma_no_marker_in_encoded(body: Seq<u8>, i: int)
    requires
        0 <= i,
        i + 5 <= encoded(0, body).len(),
    ensures
        encoded(0, body).subrange(i, i + 5) != full_terminator(),
{
    lemma_doubled_inv(body);
    let out = encoded(0, body);
    if out.subrange(i, i + 5) == full_terminator() {
        assert(out[i] == out.subrange(i, i + 5)[0]);
        assert(out[i + 1] == out.subrange(i, i + 5)[1]);
        assert(out[i + 2] == out.subrange(i, i + 5)[2]);
        assert(out[i + 3] == out.subrange(i, i + 5)[3]);
        assert(out[i] == CR && out[i + 1] == LF && out[i + 2] == DOT && out[i + 3] == CR);
        assert(out[i + 3] == DOT);
        assert(false);
    }
}

/// Streaming dot-stuffing encoder for the SMTP DATA phase.
#[derive(Clone, Copy, Debug)]
pub struct ClientCodec {
    escape_count: u8,
}

impl ClientCodec {
    /// The tracker state: the length of the longest suffix of the input so
    /// far that is a proper prefix of `CR LF .`.
    pub closed spec fn state(self) -> nat {
        self.escape_count as nat
    }

    pub closed spec fn wf(self) -> bool {
        self.escape_count <= 2
    }

    /// A fresh codec, at the start of a message.
    pub fn new() -> (c: ClientCodec)
        ensures
            c.wf(),
            c.state() == 0,
    {
        ClientCodec { escape_count: 0 }
    }

    /// Appends the dot-stuffed form of `frame` to `buf`; an empty `frame`
    /// instead ends the message (see `finish`).
    pub fn encode(&mut self, frame: &[u8], buf: &mut Vec<u8>)
        requires
            old(self).wf(),
        ensures
            final(self).wf(),
            frame@.len() > 0 ==> final(buf)@ == old(buf)@ + encoded(old(self).state(), frame@)
                && final(self).state() == state_after(old(self).state(), frame@),
            frame@.len() == 0 ==> final(buf)@ == old(buf)@ + terminator_from(old(self).state())
                && final(self).state() == 0,
    {
        if frame.len() == 0 {
            self.finish(buf);
        } else {
            let ghost s0 = self.state();
            let ghost buf0 = buf@;
            let mut i: usize = 0;
            while i < frame.len()
                invariant
                    i <= frame@.len(),
                    self.escape_count <= 2,
                    self.state() == state_after(s0, frame@.take(i as int)),
                    buf@ == buf0 + encoded(s0, frame@.take(i as int)),
                decreases frame@.len() - i,
            {
                let b = frame[i];
                if self.escape_count == 2 && b == DOT {
                    buf.push(DOT);
                }
                buf.push(b);
                self.escape_count = if b == CR {
                    1
                } else if self.escape_count == 1 && b == LF {
                    2
                } else {
                    0
                };
                proof {
                    let p = frame@.take(i as int);
                    assert(frame@.take(i + 1) =~= p + seq![b]);
                    lemma_streaming_consistency(s0, p, seq![b]);
                    let sp = state_after(s0, p);
                    lemma_single_byte(sp, b);
                    assert(buf@ =~= buf0 + encoded(s0, frame@.take(i + 1)));
                }
                i += 1;
            }
            proof {
                assert(frame@.take(frame@.len() as int) =~= frame@);
            }
        }
    }

    /// Ends the message: appends the end-of-data terminator `CR LF . CR LF`,
    /// shortened by the tracker bytes already pending, and resets the codec.
    pub fn finish(&mut self, buf: &mut Vec<u8>)
        requires
            old(self).wf(),
        ensures
            final(self).wf(),
            final(self).state() == 0,
            final(buf)@ == old(buf)@ + terminator_from(old(self).state()),
    {
        if self.escape_count == 0 {
            buf.push(CR);
            buf.push(LF);
            buf.push(DOT);
            buf.push(CR);
            buf.push(LF);
        } else if self.escape_count == 1 {
            buf.push(LF);
            buf.push(DOT);
            buf.push(CR);
            buf.push(LF);
        } else {
            buf.push(DOT);
            buf.push(CR);
            buf.push(LF);
        }
        self.escape_count = 0;
        proof {
            assert(buf@ =~= old(buf)@ + terminator_from(old(self).state()));
        }
    }
}

impl Default for ClientCodec {
    fn default() -> (c: ClientCodec)
        ensures
            c.wf(),
            c.state() == 0,
    {
        ClientCodec::new()
    }
}

/// The complete wire form of one message body: its dot-stuffed encoding
/// followed by the end-of-data terminator the codec then owes.
pub fn encode_message(body: &[u8]) -> (r: Vec<u8>)
    ensures
        r@ == encoded(0, body@) + terminator_from(state_after(0, body@)),
{
    let mut codec = ClientCodec::new();
    let mut buf: Vec<u8> = Vec::new();
    if body.len() > 0 {
        codec.encode(body, &mut buf);
    }
    codec.finish(&mut buf);
    proof {
        if body@.len() == 0 {
            assert(encoded(0, body@) =~= Seq::<u8>::empty());
            assert(state_after(0, body@) == 0);
            assert(buf@ =~= encoded(0, body@) + terminator_from(0));
        }
    }
    buf
}

/// The receiving server's view: deletes the dot standing at the start of
/// each line. Starts at a line start, as a server does at the start of DATA.
pub fn unstuff(data: &[u8]) -> (r: Vec<u8>)
    ensures
        r@ == unstuffed(2, data@),
{
    let mut r: Vec<u8> = Vec::new();
    let mut u: u8 = 2;
    let mut i: usize = 0;
    proof {
        assert(data@.skip(0) =~= data@);
        assert(r@ + unstuffed(2, data@) =~= unstuffed(2, data@));
    }
    while i < data.len()
        invariant
            i <= data@.len(),
            u <= 2,
            r@ + unstuffed(u as nat, data@.skip(i as int)) == unstuffed(2, data@),
        decreases data@.len() - i,
    {
        let b = data[i];
        let ghost r0 = r@;
        let ghost u0 = u as nat;
        proof {
            assert(data@.skip(i as int)[0] == b);
            assert(data@.skip(i as int).skip(1) =~= data@.skip(i + 1));
        }
        if u == 2 && b == DOT {
            u = 0;
            proof {
                assert(unstuffed(u0, data@.skip(i as int)) == Seq::<u8>::empty() + unstuffed(
                    0,
                    data@.skip(i + 1),
                ));
                assert(Seq::<u8>::empty() + unstuffed(0, data@.skip(i + 1)) =~= unstuffed(
                    0,
                    data@.skip(i + 1),
                ));
            }
        } else {
            r.push(b);
            u = if b == CR {
                1
            } else if u == 1 && b == LF {
                2
            } else {
                0
            };
            proof {
                assert(unstuffed(u0, data@.skip(i as int)) == seq![b] + unstuffed(
                    u as nat,
                    data@.skip(i + 1),
                ));
                assert(r@ =~= r0 + seq![b]);
                assert((r0 + seq![b]) + unstuffed(u as nat, data@.skip(i + 1)) =~= r0 + (seq![b]
                    + unstuffed(u as nat, data@.skip(i + 1))));
            }
        }
        i += 1;
    }
    proof {
        assert(data@.skip(data@.len() as int) =~= Seq::<u8>::empty());
        assert(r@ + Seq::<u8>::empty() =~= r@);
    }
    r
}

} // verus!
