//! Server capabilities advertised in an EHLO reply: the extensions the
//! session cares about (opportunistic encryption, 8-bit content) and the
//! ordered list of authentication mechanisms. A capability snapshot is
//! replaced wholesale on every successful EHLO, never merged.

use vstd::prelude::*;
use crate::bytes::copy_tail;

verus! {

/// A challenge-response authentication mechanism the client knows.
#[derive(Clone, Copy, Debug, PartialEq, Eq, Structural)]
pub enum Mechanism {
    Plain,
    Login,
}

/// An optional protocol feature the session reacts to.
#[derive(Clone, Copy, Debug, PartialEq, Eq, Structural)]
pub enum Extension {
    StartTls,
    EightBitMime,
}

pub open spec fn starttls_token() -> Seq<u8> {
    seq![83u8, 84, 65, 82, 84, 84, 76, 83]
}

pub open spec fn eight_bit_mime_token() -> Seq<u8> {
    seq![56u8, 66, 73, 84, 77, 73, 77, 69]
}

pub open spec fn auth_prefix() -> Seq<u8> {
    seq![65u8, 85, 84, 72, 32]
}

pub open spec fn plain_token() -> Seq<u8> {
    seq![80u8, 76, 65, 73, 78]
}

pub open spec fn login_token() -> Seq<u8> {
    seq![76u8, 79, 71, 73, 78]
}

/// Length of the first space-separated token of `l`.
pub open spec fn token_end(l: Seq<u8>) -> nat
    decreases l.len(),
{
    if l.len() == 0 {
        0
    } else if l[0] == 32 {
        0
    } else {
        1 + token_end(l.skip(1))
    }
}

pub open spec fn mech_of_token(tok: Seq<u8>) -> Seq<Mechanism> {
    if tok == plain_token() {
        seq![Mechanism::Plain]
    } else if tok == login_token() {
        seq![Mechanism::Login]
    } else {
        Seq::empty()
    }
}

proof fn lemma_token_end_le(l: Seq<u8>)
    ensures
        token_end(l) <= l.len(),
    decreases l.len(),
{
    if l.len() != 0 && l[0] != 32 {
        lemma_token_end_le(l.skip(1));
    }
}

/// The mechanisms named by the space-separated tokens of `l`, in order;
/// unknown tokens are ignored.
pub open spec fn mech_tokens(l: Seq<u8>) -> Seq<Mechanism>
    decreases l.len(),
{
    if l.len() == 0 {
        Seq::empty()
    } else {
        let e = token_end(l);
        mech_of_token(l.take(e as int)) + (if e < l.len() {
            mech_tokens(l.skip(e as int + 1))
        } else {
            Seq::empty()
        })
    }
}

/// The mechanisms an EHLO keyword line advertises: those of an `AUTH `
/// line, none otherwise.
pub open spec fn line_mechs(l: Seq<u8>) -> Seq<Mechanism> {
    if l.len() > 5 && l.take(5) == auth_prefix() {
        mech_tokens(l.skip(5))
    } else {
        Seq::empty()
    }
}

/// The mechanisms advertised by the EHLO text lines from index `i` on.
pub open spec fn auth_from(msg: Seq<Seq<u8>>, i: int) -> Seq<Mechanism>
    decreases msg.len() - i,
{
    if i < 0 || i >= msg.len() {
        Seq::empty()
    } else {
        line_mechs(msg[i]) + auth_from(msg, i + 1)
    }
}

/// Whether one of the EHLO keyword lines (all lines after the first, which
/// is the server's greeting text) is exactly `tok`.
pub open spec fn has_keyword(msg: Seq<Seq<u8>>, tok: Seq<u8>) -> bool {
    exists|i: int| 1 <= i < msg.len() && msg[i] == tok
}

/// The capability snapshot taken from one EHLO reply.
pub struct ServerCapabilities {
    pub starttls: bool,
    pub eight_bit_mime: bool,
    pub auth: Vec<Mechanism>,
}

/// The first mechanism of the server's list that also stands in the
/// caller's candidate list.
pub open spec fn first_compatible(server: Seq<Mechanism>, candidates: Seq<Mechanism>) -> Option<
    Mechanism,
>
    decreases server.len(),
{
    if server.len() == 0 {
        Option::None
    } else if candidates.contains(server[0]) {
        Option::Some(server[0])
    } else {
        first_compatible(server.skip(1), candidates)
    }
}

fn is_starttls_line(l: &Vec<u8>) -> (r: bool)
    ensures
        r == (l@ == starttls_token()),
{
    let r = l.len() == 8 && l[0] == 83 && l[1] == 84 && l[2] == 65 && l[3] == 82 && l[4] == 84
        && l[5] == 84 && l[6] == 76 && l[7] == 83;
    proof {
        if r {
            assert(l@ =~= starttls_token());
        } else {
            assert(l@ != starttls_token());
        }
    }
    r
}

fn is_eight_bit_mime_line(l: &Vec<u8>) -> (r: bool)
    ensures
        r == (l@ == eight_bit_mime_token()),
{
    let r = l.len() == 8 && l[0] == 56 && l[1] == 66 && l[2] == 73 && l[3] == 84 && l[4] == 77
        && l[5] == 73 && l[6] == 77 && l[7] == 69;
    proof {
        if r {
            assert(l@ =~= eight_bit_mime_token());
        } else {
            assert(l@ != eight_bit_mime_token());
        }
    }
    r
}

fn contains_mech(list: &[Mechanism], m: Mechanism) -> (r: bool)
    ensures
        r == list@.contains(m),
{
    let mut i: usize = 0;
    while i < list.len()
        invariant
            i <= list@.len(),
            forall|j: int| 0 <= j < i ==> list@[j] != m,
        decreases list@.len() - i,
    {
        if list[i] == m {
            return true;
        }
        i += 1;
    }
    false
}

/// The space-separated mechanism tokens of `l` (an `AUTH` line's remainder),
/// in order of appearance.
fn parse_mech_tokens(l: &[u8]) -> (r: Vec<Mechanism>)
    ensures
        r@ == mech_tokens(l@),
{
    let mut r: Vec<Mechanism> = Vec::new();
    let mut p: usize = 0;
    proof {
        assert(l@.skip(0) =~= l@);
        assert(r@ + mech_tokens(l@) =~= mech_tokens(l@));
    }
    while p < l.len()
        invariant
            p <= l@.len(),
            mech_tokens(l@) == r@ + mech_tokens(l@.skip(p as int)),
        decreases l@.len() - p,
    {
        let ghost rem = l@.skip(p as int);
        let ghost r0 = r@;
        // find the end of the token that starts at p
        let mut e: usize = p;
        while e < l.len() && l[e] != 32
            invariant
                p <= e <= l@.len(),
                token_end(l@.skip(p as int)) == (e - p) + token_end(l@.skip(e as int)),
                forall|j: int| p <= j < e ==> l@[j] != 32,
            decreases l@.len() - e,
        {
            proof {
                assert(l@.skip(e as int)[0] == l@[e as int]);
                assert(l@.skip(e as int).skip(1) =~= l@.skip(e + 1));
            }
            e += 1;
        }
        proof {
            if e < l@.len() {
                assert(l@.skip(e as int)[0] == l@[e as int]);
                assert(token_end(l@.skip(e as int)) == 0);
            } else {
                assert(l@.skip(e as int).len() == 0);
                assert(token_end(l@.skip(e as int)) == 0);
            }
            assert(token_end(rem) == e - p);
            lemma_token_end_le(rem);
        }
        // classify the token l[p..e]
        let ghost tok = rem.take((e - p) as int);
        proof {
            assert(tok =~= l@.subrange(p as int, e as int));
        }
        let is_plain = {
            if e - p == 5 {
                let r5 = l[p] == 80 && l[p + 1] == 76 && l[p + 2] == 65 && l[p + 3] == 73 && l[p
                    + 4] == 78;
                proof {
                    if r5 {
                        assert(tok =~= plain_token());
                    } else {
                        assert(tok != plain_token());
                    }
                }
                r5
            } else {
                proof {
                    assert(tok.len() != plain_token().len());
                }
                false
            }
        };
        let is_login = {
            if e - p == 5 {
                let r5 = l[p] == 76 && l[p + 1] == 79 && l[p + 2] == 71 && l[p + 3] == 73 && l[p
                    + 4] == 78;
                proof {
                    if r5 {
                        assert(tok =~= login_token());
                    } else {
                        assert(tok != login_token());
                    }
                }
                r5
            } else {
                false
            }
        };
        if is_plain {
            r.push(Mechanism::Plain);
        } else if is_login && !is_plain {
            r.push(Mechanism::Login);
        }
        proof {
            assert(mech_tokens(rem) == mech_of_token(tok) + (if e - p < rem.len() {
                mech_tokens(rem.skip((e - p) + 1))
            } else {
                Seq::<Mechanism>::empty()
            }));
            if is_plain {
                assert(r@ =~= r0 + seq![Mechanism::Plain]);
            } else if is_login {
                assert(r@ =~= r0 + seq![Mechanism::Login]);
            } else {
                assert(mech_of_token(tok) =~= Seq::<Mechanism>::empty());
                assert(r@ =~= r0 + Seq::<Mechanism>::empty());
            }
        }
        if e < l.len() {
            proof {
                assert(rem.skip((e - p) + 1) =~= l@.skip(e + 1));
                assert(r@ + mech_tokens(l@.skip(e + 1)) =~= (r0 + mech_of_token(tok))
                    + mech_tokens(rem.skip((e - p) + 1)));
                assert((r0 + mech_of_token(tok)) + mech_tokens(rem.skip((e - p) + 1)) =~= r0 + (
                mech_of_token(tok) + mech_tokens(rem.skip((e - p) + 1))));
            }
            p = e + 1;
        } else {
            proof {
                assert(l@.skip(l@.len() as int).len() == 0);
                assert(mech_tokens(l@.skip(l@.len() as int)) =~= Seq::<Mechanism>::empty());
                assert(r@ + mech_tokens(l@.skip(l@.len() as int)) =~= r@);
                assert(r@ =~= r0 + mech_of_token(tok));
            }
            p = e;
        }
    }
    proof {
        assert(l@.skip(p as int).len() == 0);
        assert(mech_tokens(l@.skip(p as int)) =~= Seq::<Mechanism>::empty());
        assert(r@ + Seq::<Mechanism>::empty() =~= r@);
    }
    r
}

impl ServerCapabilities {
    /// A snapshot that advertises nothing, as before any EHLO.
    pub fn none() -> (r: ServerCapabilities)
        ensures
            !r.starttls,
            !r.eight_bit_mime,
            r.auth@ == Seq::<Mechanism>::empty(),
    {
        let r = ServerCapabilities { starttls: false, eight_bit_mime: false, auth: Vec::new() };
        r
    }

    pub open spec fn spec_supports(self, e: Extension) -> bool {
        match e {
            Extension::StartTls => self.starttls,
            Extension::EightBitMime => self.eight_bit_mime,
        }
    }

    pub fn supports_feature(&self, e: Extension) -> (r: bool)
        ensures
            r == self.spec_supports(e),
    {
        match e {
            Extension::StartTls => self.starttls,
            Extension::EightBitMime => self.eight_bit_mime,
        }
    }

    /// The capability snapshot an EHLO reply advertises: its keyword lines
    /// are every text line after the greeting line.
    pub fn from_ehlo_texts(msg: &Vec<Vec<u8>>) -> (r: ServerCapabilities)
        ensures
            r.starttls == has_keyword(msg@.map_values(|v: Vec<u8>| v@), starttls_token()),
            r.eight_bit_mime == has_keyword(msg@.map_values(|v: Vec<u8>| v@), eight_bit_mime_token()),
            r.auth@ == auth_from(msg@.map_values(|v: Vec<u8>| v@), 1),
    {
        let ghost texts = msg@.map_values(|v: Vec<u8>| v@);
        let mut starttls = false;
        let mut eight_bit_mime = false;
        let mut auth: Vec<Mechanism> = Vec::new();
        let mut i: usize = 1;
        proof {
            assert(texts.len() == msg@.len());
            if msg@.len() < 1 {
                assert(auth_from(texts, 1) =~= Seq::<Mechanism>::empty());
            }
            assert(auth@ + auth_from(texts, 1) =~= auth_from(texts, 1));
        }
        while i < msg.len()
            invariant
                1 <= i,
                i <= msg@.len() || (i == 1 && msg@.len() == 0),
                texts == msg@.map_values(|v: Vec<u8>| v@),
                texts.len() == msg@.len(),
                starttls == exists|j: int| 1 <= j < i && texts[j] == starttls_token(),
                eight_bit_mime == exists|j: int| 1 <= j < i && texts[j] == eight_bit_mime_token(),
                auth_from(texts, 1) == auth@ + auth_from(texts, i as int),
            decreases msg@.len() - i,
        {
            let line = &msg[i];
            let ghost a0 = auth@;
            if is_starttls_line(line) {
                starttls = true;
                proof {
                    assert(texts[i as int] == starttls_token());
                }
            }
            if is_eight_bit_mime_line(line) {
                eight_bit_mime = true;
                proof {
                    assert(texts[i as int] == eight_bit_mime_token());
                }
            }
            let is_auth = line.len() > 5 && line[0] == 65 && line[1] == 85 && line[2] == 84
                && line[3] == 72 && line[4] == 32;
            if is_auth {
                proof {
                    assert(texts[i as int].take(5) =~= auth_prefix());
                }
                let tail = copy_tail(line.as_slice(), 5);
                let mut mechs = parse_mech_tokens(tail.as_slice());
                proof {
                    assert(tail@ == texts[i as int].skip(5));
                    assert(line_mechs(texts[i as int]) == mech_tokens(texts[i as int].skip(5)));
                }
                auth.append(&mut mechs);
            } else {
                proof {
                    if texts[i as int].len() > 5 {
                        if texts[i as int].take(5) == auth_prefix() {
                            assert(texts[i as int][0] == 65 && texts[i as int][1] == 85
                                && texts[i as int][2] == 84 && texts[i as int][3] == 72
                                && texts[i as int][4] == 32);
                            assert(false);
                        }
                    }
                    assert(line_mechs(texts[i as int]) =~= Seq::<Mechanism>::empty());
                }
            }
            proof {
                assert(auth_from(texts, i as int) == line_mechs(texts[i as int]) + auth_from(
                    texts,
                    i + 1,
                ));
                assert(auth@ =~= a0 + line_mechs(texts[i as int]));
                assert((a0 + line_mechs(texts[i as int])) + auth_from(texts, i + 1) =~= a0 + (
                line_mechs(texts[i as int]) + auth_from(texts, i + 1)));
            }
            i += 1;
        }
        proof {
            assert(auth_from(texts, i as int) =~= Seq::<Mechanism>::empty());
            assert(auth@ + Seq::<Mechanism>::empty() =~= auth@);
        }
        ServerCapabilities { starttls, eight_bit_mime, auth }
    }

    /// Selects the first mechanism of the server's advertised list that the
    /// caller also offers.
    pub fn get_auth_mechanism(&self, candidates: &[Mechanism]) -> (r: Option<Mechanism>)
        ensures
            r == first_compatible(self.auth@, candidates@),
    {
        let mut i: usize = 0;
        proof {
            assert(self.auth@.skip(0) =~= self.auth@);
        }
        while i < self.auth.len()
            invariant
                i <= self.auth@.len(),
                first_compatible(self.auth@, candidates@) == first_compatible(
                    self.auth@.skip(i as int),
                    candidates@,
                ),
            decreases self.auth@.len() - i,
        {
            let m = self.auth[i];
            proof {
                assert(self.auth@.skip(i as int)[0] == m);
                assert(self.auth@.skip(i as int).skip(1) =~= self.auth@.skip(i + 1));
            }
            if contains_mech(candidates, m) {
                return Option::Some(m);
            }
            i += 1;
        }
        proof {
            assert(self.auth@.skip(i as int).len() == 0);
        }
        Option::None
    }
}

} // verus!
