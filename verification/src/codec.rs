//! The persisted session document.
//!
//! A `FullSession` is stored on disk as one JSON document with a fixed
//! shape: the three store parameters, the three user-session fields, and
//! the optional sync token, which is omitted when absent. String values
//! escape `"` and `\` with a backslash; every other character stands for
//! itself. The serializer below produces exactly the encoding given by
//! `encode_full_session`, and the parser accepts a text if and only if it
//! is such an encoding.

use vstd::prelude::*;

use crate::errors::SessionError;
use crate::session::{ClientSession, ClientSessionV, FullSession, FullSessionV, UserSession,
    UserSessionV};

verus! {

/// How one character is written inside a JSON string value.
pub open spec fn esc_char(c: char) -> Seq<char> {
    if c == '"' || c == '\\' {
        seq!['\\', c]
    } else {
        seq![c]
    }
}

/// The body of a JSON string value: each character escaped.
pub open spec fn json_escape(s: Seq<char>) -> Seq<char>
    decreases s.len(),
{
    if s.len() == 0 {
        Seq::empty()
    } else {
        esc_char(s[0]) + json_escape(s.skip(1))
    }
}

/// A JSON string value: the escaped body between double quotes.
pub open spec fn quoted(s: Seq<char>) -> Seq<char> {
    seq!['"'] + json_escape(s) + seq!['"']
}

/// The `client_session` object of the document.
pub open spec fn encode_client_session(v: ClientSessionV) -> Seq<char> {
    "{\"homeserver\":"@ + quoted(v.homeserver) + ",\"db_path\":"@ + quoted(v.db_path)
        + ",\"passphrase\":"@ + quoted(v.passphrase) + "}"@
}

/// The `user_session` object of the document.
pub open spec fn encode_user_session(v: UserSessionV) -> Seq<char> {
    "{\"user_id\":"@ + quoted(v.user_id) + ",\"device_id\":"@ + quoted(v.device_id)
        + ",\"access_token\":"@ + quoted(v.access_token) + "}"@
}

/// The whole persisted document. The `sync_token` member is omitted when
/// the cursor is absent.
pub open spec fn encode_full_session(v: FullSessionV) -> Seq<char> {
    "{\"client_session\":"@ + encode_client_session(v.client_session) + ",\"user_session\":"@
        + encode_user_session(v.user_session) + (match v.sync_token {
        Some(t) => ",\"sync_token\":"@ + quoted(t),
        None => Seq::empty(),
    }) + "}"@
}

/// What a string-value body parses to, starting right after the opening
/// quote: the unescaped value and the number of characters consumed, the
/// closing quote included. `None` when the text is not a value body.
pub open spec fn parse_str_body(s: Seq<char>) -> Option<(Seq<char>, int)>
    decreases s.len(),
{
    if s.len() == 0 {
        None
    } else if s[0] == '"' {
        Some((Seq::empty(), 1))
    } else if s[0] == '\\' {
        if s.len() >= 2 && (s[1] == '"' || s[1] == '\\') {
            match parse_str_body(s.skip(2)) {
                Some((v, n)) => Some((seq![s[1]] + v, 2 + n)),
                None => None,
            }
        } else {
            None
        }
    } else {
        match parse_str_body(s.skip(1)) {
            Some((v, n)) => Some((seq![s[0]] + v, 1 + n)),
            None => None,
        }
    }
}

/// A quoted string value at the start of `s`: the value and the characters
/// consumed, both quotes included.
pub open spec fn parse_quoted(s: Seq<char>) -> Option<(Seq<char>, int)> {
    if s.len() >= 1 && s[0] == '"' {
        match parse_str_body(s.skip(1)) {
            Some((v, n)) => Some((v, 1 + n)),
            None => None,
        }
    } else {
        None
    }
}

/// The literal `lit` at the start of `s`: the characters consumed.
pub open spec fn parse_lit(s: Seq<char>, lit: Seq<char>) -> Option<int> {
    if lit.is_prefix_of(s) {
        Some(lit.len() as int)
    } else {
        None
    }
}

/// A `client_session` object at the start of `s`.
pub open spec fn parse_client_session(s: Seq<char>) -> Option<(ClientSessionV, int)> {
    match parse_lit(s, "{\"homeserver\":"@) {
        None => None,
        Some(n1) => match parse_quoted(s.skip(n1)) {
            None => None,
            Some((h, n2)) => match parse_lit(s.skip(n1 + n2), ",\"db_path\":"@) {
                None => None,
                Some(n3) => match parse_quoted(s.skip(n1 + n2 + n3)) {
                    None => None,
                    Some((d, n4)) => match parse_lit(
                        s.skip(n1 + n2 + n3 + n4),
                        ",\"passphrase\":"@,
                    ) {
                        None => None,
                        Some(n5) => match parse_quoted(s.skip(n1 + n2 + n3 + n4 + n5)) {
                            None => None,
                            Some((p, n6)) => match parse_lit(
                                s.skip(n1 + n2 + n3 + n4 + n5 + n6),
                                "}"@,
                            ) {
                                None => None,
                                Some(n7) => Some(
                                    (
                                        ClientSessionV {
                                            homeserver: h,
                                            db_path: d,
                                            passphrase: p,
                                        },
                                        n1 + n2 + n3 + n4 + n5 + n6 + n7,
                                    ),
                                ),
                            },
                        },
                    },
                },
            },
        },
    }
}

/// A `user_session` object at the start of `s`.
pub open spec fn parse_user_session(s: Seq<char>) -> Option<(UserSessionV, int)> {
    match parse_lit(s, "{\"user_id\":"@) {
        None => None,
        Some(n1) => match parse_quoted(s.skip(n1)) {
            None => None,
            Some((u, n2)) => match parse_lit(s.skip(n1 + n2), ",\"device_id\":"@) {
                None => None,
                Some(n3) => match parse_quoted(s.skip(n1 + n2 + n3)) {
                    None => None,
                    Some((d, n4)) => match parse_lit(
                        s.skip(n1 + n2 + n3 + n4),
                        ",\"access_token\":"@,
                    ) {
                        None => None,
                        Some(n5) => match parse_quoted(s.skip(n1 + n2 + n3 + n4 + n5)) {
                            None => None,
                            Some((a, n6)) => match parse_lit(
                                s.skip(n1 + n2 + n3 + n4 + n5 + n6),
                                "}"@,
                            ) {
                                None => None,
                                Some(n7) => Some(
                                    (
                                        UserSessionV {
                                            user_id: u,
                                            device_id: d,
                                            access_token: a,
                                        },
                                        n1 + n2 + n3 + n4 + n5 + n6 + n7,
                                    ),
                                ),
                            },
                        },
                    },
                },
            },
        },
    }
}

/// The whole document: both objects, the optional `sync_token` member, the
/// closing brace, and nothing after it.
pub open spec fn parse_full_session_spec(s: Seq<char>) -> Option<FullSessionV> {
    match parse_lit(s, "{\"client_session\":"@) {
        None => None,
        Some(n1) => match parse_client_session(s.skip(n1)) {
            None => None,
            Some((cs, n2)) => match parse_lit(s.skip(n1 + n2), ",\"user_session\":"@) {
                None => None,
                Some(n3) => match parse_user_session(s.skip(n1 + n2 + n3)) {
                    None => None,
                    Some((us, n4)) => {
                        let k = n1 + n2 + n3 + n4;
                        if parse_lit(s.skip(k), "}"@) is Some && s.len() == k + 1 {
                            Some(
                                FullSessionV {
                                    client_session: cs,
                                    user_session: us,
                                    sync_token: None,
                                },
                            )
                        } else {
                            match parse_lit(s.skip(k), ",\"sync_token\":"@) {
                                None => None,
                                Some(n5) => match parse_quoted(s.skip(k + n5)) {
                                    None => None,
                                    Some((t, n6)) => if parse_lit(s.skip(k + n5 + n6), "}"@)
                                        is Some && s.len() == k + n5 + n6 + 1 {
                                        Some(
                                            FullSessionV {
                                                client_session: cs,
                                                user_session: us,
                                                sync_token: Some(t),
                                            },
                                        )
                                    } else {
                                        None
                                    },
                                },
                            }
                        }
                    },
                },
            },
        },
    }
}

/// Escaping distributes over concatenation.
proof fn lemma_escape_app(a: Seq<char>, b: Seq<char>)
    ensures
        json_escape(a + b) == json_escape(a) + json_escape(b),
    decreases a.len(),
{
    if a.len() == 0 {
        assert(a + b =~= b);
        assert(json_escape(a) + json_escape(b) =~= json_escape(b));
    } else {
        assert((a + b).skip(1) =~= a.skip(1) + b);
        lemma_escape_app(a.skip(1), b);
        assert(esc_char(a[0]) + (json_escape(a.skip(1)) + json_escape(b)) =~= (esc_char(a[0])
            + json_escape(a.skip(1))) + json_escape(b));
        assert((a + b)[0] == a[0]);
    }
}

/// A literal parses off the front of any text that starts with it.
proof fn lemma_parse_lit_of(lit: Seq<char>, rest: Seq<char>)
    ensures
        parse_lit(lit + rest, lit) == Some(lit.len() as int),
        (lit + rest).skip(lit.len() as int) =~= rest,
{
    assert(lit =~= (lit + rest).subrange(0, lit.len() as int));
}

/// An escaped body followed by a closing quote parses back to the original
/// value, whatever follows the quote.
proof fn lemma_parse_body_of_escaped(v: Seq<char>, rest: Seq<char>)
    ensures
        parse_str_body(json_escape(v) + (seq!['"'] + rest)) == Some(
            (v, json_escape(v).len() as int + 1),
        ),
    decreases v.len(),
{
    let s = json_escape(v) + (seq!['"'] + rest);
    if v.len() == 0 {
        assert(v =~= Seq::<char>::empty());
        assert(s[0] == '"');
        assert(parse_str_body(s) == Some((Seq::<char>::empty(), 1int)));
    } else {
        let c = v[0];
        let v1 = v.skip(1);
        lemma_parse_body_of_escaped(v1, rest);
        if c == '"' || c == '\\' {
            assert(s[0] == '\\');
            assert(s[1] == c);
            assert(s.len() >= 2);
            assert(s.skip(2) =~= json_escape(v1) + (seq!['"'] + rest));
            assert(seq![s[1]] + v1 =~= v);
        } else {
            assert(s[0] == c);
            assert(s.skip(1) =~= json_escape(v1) + (seq!['"'] + rest));
            assert(seq![s[0]] + v1 =~= v);
        }
    }
}

/// A quoted value parses back to the original value, whatever follows it.
proof fn lemma_parse_quoted_of(v: Seq<char>, rest: Seq<char>)
    ensures
        parse_quoted(quoted(v) + rest) == Some((v, quoted(v).len() as int)),
        quoted(v).len() == json_escape(v).len() + 2,
{
    let s = quoted(v) + rest;
    assert(s[0] == '"');
    assert(s.skip(1) =~= json_escape(v) + (seq!['"'] + rest));
    lemma_parse_body_of_escaped(v, rest);
}

/// An encoded `client_session` object parses back to the original value,
/// whatever follows it.
#[verifier::rlimit(100)]
proof fn lemma_parse_client_session_of(cs: ClientSessionV, rest: Seq<char>)
    ensures
        parse_client_session(encode_client_session(cs) + rest) == Some(
            (cs, encode_client_session(cs).len() as int),
        ),
{
    let l1 = "{\"homeserver\":"@;
    let l2 = ",\"db_path\":"@;
    let l3 = ",\"passphrase\":"@;
    let l4 = "}"@;
    let q1 = quoted(cs.homeserver);
    let q2 = quoted(cs.db_path);
    let q3 = quoted(cs.passphrase);
    let s = encode_client_session(cs) + rest;
    let r1 = q1 + (l2 + (q2 + (l3 + (q3 + (l4 + rest)))));
    let r2 = l2 + (q2 + (l3 + (q3 + (l4 + rest))));
    let r3 = q2 + (l3 + (q3 + (l4 + rest)));
    let r4 = l3 + (q3 + (l4 + rest));
    let r5 = q3 + (l4 + rest);
    let r6 = l4 + rest;
    assert(s =~= l1 + r1);
    lemma_parse_lit_of(l1, r1);
    lemma_parse_quoted_of(cs.homeserver, r2);
    assert(r1.skip(q1.len() as int) =~= r2);
    lemma_parse_lit_of(l2, r3);
    lemma_parse_quoted_of(cs.db_path, r4);
    assert(r3.skip(q2.len() as int) =~= r4);
    lemma_parse_lit_of(l3, r5);
    lemma_parse_quoted_of(cs.passphrase, r6);
    assert(r5.skip(q3.len() as int) =~= r6);
    lemma_parse_lit_of(l4, rest);
    let n1 = l1.len() as int;
    let n2 = q1.len() as int;
    let n3 = l2.len() as int;
    let n4 = q2.len() as int;
    let n5 = l3.len() as int;
    let n6 = q3.len() as int;
    let n7 = l4.len() as int;
    assert(s.skip(n1) =~= r1);
    assert(s.skip(n1 + n2) =~= r2);
    assert(s.skip(n1 + n2 + n3) =~= r3);
    assert(s.skip(n1 + n2 + n3 + n4) =~= r4);
    assert(s.skip(n1 + n2 + n3 + n4 + n5) =~= r5);
    assert(s.skip(n1 + n2 + n3 + n4 + n5 + n6) =~= r6);
    assert(encode_client_session(cs).len() == n1 + n2 + n3 + n4 + n5 + n6 + n7);
}

/// An encoded `user_session` object parses back to the original value,
/// whatever follows it.
#[verifier::rlimit(100)]
proof fn lemma_parse_user_session_of(us: UserSessionV, rest: Seq<char>)
    ensures
        parse_user_session(encode_user_session(us) + rest) == Some(
            (us, encode_user_session(us).len() as int),
        ),
{
    let l1 = "{\"user_id\":"@;
    let l2 = ",\"device_id\":"@;
    let l3 = ",\"access_token\":"@;
    let l4 = "}"@;
    let q1 = quoted(us.user_id);
    let q2 = quoted(us.device_id);
    let q3 = quoted(us.access_token);
    let s = encode_user_session(us) + rest;
    let r1 = q1 + (l2 + (q2 + (l3 + (q3 + (l4 + rest)))));
    let r2 = l2 + (q2 + (l3 + (q3 + (l4 + rest))));
    let r3 = q2 + (l3 + (q3 + (l4 + rest)));
    let r4 = l3 + (q3 + (l4 + rest));
    let r5 = q3 + (l4 + rest);
    let r6 = l4 + rest;
    assert(s =~= l1 + r1);
    lemma_parse_lit_of(l1, r1);
    lemma_parse_quoted_of(us.user_id, r2);
    assert(r1.skip(q1.len() as int) =~= r2);
    lemma_parse_lit_of(l2, r3);
    lemma_parse_quoted_of(us.device_id, r4);
    assert(r3.skip(q2.len() as int) =~= r4);
    lemma_parse_lit_of(l3, r5);
    lemma_parse_quoted_of(us.access_token, r6);
    assert(r5.skip(q3.len() as int) =~= r6);
    lemma_parse_lit_of(l4, rest);
    let n1 = l1.len() as int;
    let n2 = q1.len() as int;
    let n3 = l2.len() as int;
    let n4 = q2.len() as int;
    let n5 = l3.len() as int;
    let n6 = q3.len() as int;
    let n7 = l4.len() as int;
    assert(s.skip(n1) =~= r1);
    assert(s.skip(n1 + n2) =~= r2);
    assert(s.skip(n1 + n2 + n3) =~= r3);
    assert(s.skip(n1 + n2 + n3 + n4) =~= r4);
    assert(s.skip(n1 + n2 + n3 + n4 + n5) =~= r5);
    assert(s.skip(n1 + n2 + n3 + n4 + n5 + n6) =~= r6);
    assert(encode_user_session(us).len() == n1 + n2 + n3 + n4 + n5 + n6 + n7);
}

/// Case of `lemma_session_round_trip` with the cursor absent.
#[verifier::rlimit(100)]
proof fn lemma_session_round_trip_none(v: FullSessionV)
    requires
        v.sync_token is None,
    ensures
        parse_full_session_spec(encode_full_session(v)) == Some(v),
{
    let l1 = "{\"client_session\":"@;
    let l2 = ",\"user_session\":"@;
    let l4 = "}"@;
    let e1 = encode_client_session(v.client_session);
    let e2 = encode_user_session(v.user_session);
    let s = encode_full_session(v);
    let r1 = e1 + (l2 + (e2 + l4));
    let r2 = l2 + (e2 + l4);
    let r3 = e2 + l4;
    assert(s =~= l1 + r1);
    lemma_parse_lit_of(l1, r1);
    lemma_parse_client_session_of(v.client_session, r2);
    assert(r1.skip(e1.len() as int) =~= r2);
    lemma_parse_lit_of(l2, r3);
    lemma_parse_user_session_of(v.user_session, l4);
    assert(r3.skip(e2.len() as int) =~= l4);
    let n1 = l1.len() as int;
    let n2 = e1.len() as int;
    let n3 = l2.len() as int;
    let n4 = e2.len() as int;
    let k = n1 + n2 + n3 + n4;
    assert(s.skip(n1) =~= r1);
    assert(s.skip(n1 + n2) =~= r2);
    assert(s.skip(n1 + n2 + n3) =~= r3);
    assert(s.skip(k) =~= l4);
    reveal_strlit("}");
    assert(l4 + Seq::<char>::empty() =~= l4);
    lemma_parse_lit_of(l4, Seq::<char>::empty());
    assert(s.len() == k + 1);
}

/// Case of `lemma_session_round_trip` with the cursor present.
#[verifier::rlimit(100)]
proof fn lemma_session_round_trip_some(v: FullSessionV)
    requires
        v.sync_token is Some,
    ensures
        parse_full_session_spec(encode_full_session(v)) == Some(v),
{
    let l1 = "{\"client_session\":"@;
    let l2 = ",\"user_session\":"@;
    let l5 = ",\"sync_token\":"@;
    let l4 = "}"@;
    let t = v.sync_token.unwrap();
    let e1 = encode_client_session(v.client_session);
    let e2 = encode_user_session(v.user_session);
    let s = encode_full_session(v);
    let r1 = e1 + (l2 + (e2 + ((l5 + quoted(t)) + l4)));
    let r2 = l2 + (e2 + ((l5 + quoted(t)) + l4));
    let r3 = e2 + ((l5 + quoted(t)) + l4);
    let r4 = (l5 + quoted(t)) + l4;
    assert(s =~= l1 + r1);
    lemma_parse_lit_of(l1, r1);
    lemma_parse_client_session_of(v.client_session, r2);
    assert(r1.skip(e1.len() as int) =~= r2);
    lemma_parse_lit_of(l2, r3);
    lemma_parse_user_session_of(v.user_session, r4);
    assert(r3.skip(e2.len() as int) =~= r4);
    let n1 = l1.len() as int;
    let n2 = e1.len() as int;
    let n3 = l2.len() as int;
    let n4 = e2.len() as int;
    let k = n1 + n2 + n3 + n4;
    assert(s.skip(n1) =~= r1);
    assert(s.skip(n1 + n2) =~= r2);
    assert(s.skip(n1 + n2 + n3) =~= r3);
    assert(s.skip(k) =~= r4);
    reveal_strlit("}");
    reveal_strlit(",\"sync_token\":");
    assert(r4 =~= l5 + (quoted(t) + l4));
    lemma_parse_lit_of(l5, quoted(t) + l4);
    lemma_parse_quoted_of(t, l4);
    assert(r4.skip(l5.len() as int) =~= quoted(t) + l4);
    let n5 = l5.len() as int;
    let n6 = quoted(t).len() as int;
    assert(s.skip(k + n5) =~= quoted(t) + l4);
    assert((quoted(t) + l4).skip(n6) =~= l4);
    assert(s.skip(k + n5 + n6) =~= l4);
    lemma_parse_lit_of(l4, Seq::<char>::empty());
    assert(l4 + Seq::<char>::empty() =~= l4);
    assert(s.len() == k + n5 + n6 + 1);
    assert(s.len() != k + 1);
}

/// Deserializing a serialized session gives back the original session:
/// parsing the encoding of any `FullSession` value succeeds and yields that
/// value, with the `sync_token` member absent exactly when the cursor is.
pub proof fn lemma_session_round_trip(v: FullSessionV)
    ensures
        parse_full_session_spec(encode_full_session(v)) == Some(v),
{
    match v.sync_token {
        None => lemma_session_round_trip_none(v),
        Some(_) => lemma_session_round_trip_some(v),
    }
}

/// A text a string-value body parses from is exactly the escaped value and
/// the closing quote.
proof fn lemma_body_parse_canonical(s: Seq<char>)
    ensures
        parse_str_body(s) matches Some((v, n)) ==> {
            &&& 1 <= n <= s.len()
            &&& json_escape(v) + seq!['"'] == s.take(n)
        },
    decreases s.len(),
{
    if s.len() == 0 {
    } else if s[0] == '"' {
        assert(json_escape(Seq::<char>::empty()) + seq!['"'] =~= s.take(1));
    } else if s[0] == '\\' {
        if s.len() >= 2 && (s[1] == '"' || s[1] == '\\') {
            lemma_body_parse_canonical(s.skip(2));
            match parse_str_body(s.skip(2)) {
                Some((v2, m)) => {
                    lemma_escape_app(seq![s[1]], v2);
                    assert(seq![s[1]].skip(1) =~= Seq::<char>::empty());
                    assert(json_escape(Seq::<char>::empty()) == Seq::<char>::empty());
                    assert(json_escape(seq![s[1]]) =~= esc_char(s[1]));
                    assert(json_escape(seq![s[1]] + v2) + seq!['"'] == s.take(2 + m)) by {
                        assert(json_escape(seq![s[1]] + v2) == esc_char(s[1]) + json_escape(
                            v2,
                        ));
                        assert((esc_char(s[1]) + json_escape(v2)) + seq!['"'] =~= esc_char(
                            s[1],
                        ) + (json_escape(v2) + seq!['"']));
                        assert(esc_char(s[1]) =~= seq![s[0], s[1]]);
                        assert(json_escape(v2) + seq!['"'] == s.skip(2).take(m));
                        assert(s.take(2 + m) =~= seq![s[0], s[1]] + s.skip(2).take(m));
                    }
                },
                None => {},
            }
        }
    } else {
        lemma_body_parse_canonical(s.skip(1));
        match parse_str_body(s.skip(1)) {
            Some((v2, m)) => {
                lemma_escape_app(seq![s[0]], v2);
                assert(seq![s[0]].skip(1) =~= Seq::<char>::empty());
                assert(json_escape(Seq::<char>::empty()) == Seq::<char>::empty());
                assert(json_escape(seq![s[0]]) =~= esc_char(s[0]));
                assert(json_escape(seq![s[0]] + v2) + seq!['"'] == s.take(1 + m)) by {
                    assert(json_escape(seq![s[0]] + v2) == esc_char(s[0]) + json_escape(v2));
                    assert((esc_char(s[0]) + json_escape(v2)) + seq!['"'] =~= esc_char(s[0]) + (
                    json_escape(v2) + seq!['"']));
                    assert(esc_char(s[0]) =~= seq![s[0]]);
                    assert(json_escape(v2) + seq!['"'] == s.skip(1).take(m));
                    assert(s.take(1 + m) =~= seq![s[0]] + s.skip(1).take(m));
                }
            },
            None => {},
        }
    }
}

/// A text a string value parses from is exactly the quoted encoding of the
/// value.
proof fn lemma_quoted_parse_canonical(s: Seq<char>)
    ensures
        parse_quoted(s) matches Some((v, n)) ==> {
            &&& 2 <= n <= s.len()
            &&& quoted(v) == s.take(n)
        },
{
    if s.len() >= 1 && s[0] == '"' {
        lemma_body_parse_canonical(s.skip(1));
        match parse_str_body(s.skip(1)) {
            Some((v2, m)) => {
                assert(quoted(v2) == s.take(1 + m)) by {
                    assert(quoted(v2) =~= seq!['"'] + (json_escape(v2) + seq!['"']));
                    assert(json_escape(v2) + seq!['"'] == s.skip(1).take(m));
                    assert(s.take(1 + m) =~= seq!['"'] + s.skip(1).take(m));
                }
            },
            None => {},
        }
    }
}

/// A text a `client_session` object parses from is exactly the encoding of
/// the parsed value.
#[verifier::rlimit(100)]
proof fn lemma_client_session_parse_canonical(s: Seq<char>)
    ensures
        parse_client_session(s) matches Some((cs, n)) ==> {
            &&& 0 <= n <= s.len()
            &&& encode_client_session(cs) == s.take(n)
        },
{
    if parse_client_session(s) is Some {
        let l1 = "{\"homeserver\":"@;
        let l2 = ",\"db_path\":"@;
        let l3 = ",\"passphrase\":"@;
        let l4 = "}"@;
        let n1 = parse_lit(s, l1).unwrap();
        let (h, n2) = parse_quoted(s.skip(n1)).unwrap();
        let n3 = parse_lit(s.skip(n1 + n2), l2).unwrap();
        let (d, n4) = parse_quoted(s.skip(n1 + n2 + n3)).unwrap();
        let n5 = parse_lit(s.skip(n1 + n2 + n3 + n4), l3).unwrap();
        let (p, n6) = parse_quoted(s.skip(n1 + n2 + n3 + n4 + n5)).unwrap();
        let n7 = parse_lit(s.skip(n1 + n2 + n3 + n4 + n5 + n6), l4).unwrap();
        lemma_quoted_parse_canonical(s.skip(n1));
        lemma_quoted_parse_canonical(s.skip(n1 + n2 + n3));
        lemma_quoted_parse_canonical(s.skip(n1 + n2 + n3 + n4 + n5));
        let n = n1 + n2 + n3 + n4 + n5 + n6 + n7;
        assert(encode_client_session(
            ClientSessionV { homeserver: h, db_path: d, passphrase: p },
        ) =~= s.take(n)) by {
            assert(l1 =~= s.take(n1));
            assert(quoted(h) == s.skip(n1).take(n2));
            assert(l2 =~= s.skip(n1 + n2).take(n3));
            assert(quoted(d) == s.skip(n1 + n2 + n3).take(n4));
            assert(l3 =~= s.skip(n1 + n2 + n3 + n4).take(n5));
            assert(quoted(p) == s.skip(n1 + n2 + n3 + n4 + n5).take(n6));
            assert(l4 =~= s.skip(n1 + n2 + n3 + n4 + n5 + n6).take(n7));
        }
    }
}

/// A text a `user_session` object parses from is exactly the encoding of
/// the parsed value.
#[verifier::rlimit(100)]
proof fn lemma_user_session_parse_canonical(s: Seq<char>)
    ensures
        parse_user_session(s) matches Some((us, n)) ==> {
            &&& 0 <= n <= s.len()
            &&& encode_user_session(us) == s.take(n)
        },
{
    if parse_user_session(s) is Some {
        let l1 = "{\"user_id\":"@;
        let l2 = ",\"device_id\":"@;
        let l3 = ",\"access_token\":"@;
        let l4 = "}"@;
        let n1 = parse_lit(s, l1).unwrap();
        let (u, n2) = parse_quoted(s.skip(n1)).unwrap();
        let n3 = parse_lit(s.skip(n1 + n2), l2).unwrap();
        let (d, n4) = parse_quoted(s.skip(n1 + n2 + n3)).unwrap();
        let n5 = parse_lit(s.skip(n1 + n2 + n3 + n4), l3).unwrap();
        let (a, n6) = parse_quoted(s.skip(n1 + n2 + n3 + n4 + n5)).unwrap();
        let n7 = parse_lit(s.skip(n1 + n2 + n3 + n4 + n5 + n6), l4).unwrap();
        lemma_quoted_parse_canonical(s.skip(n1));
        lemma_quoted_parse_canonical(s.skip(n1 + n2 + n3));
        lemma_quoted_parse_canonical(s.skip(n1 + n2 + n3 + n4 + n5));
        let n = n1 + n2 + n3 + n4 + n5 + n6 + n7;
        assert(encode_user_session(
            UserSessionV { user_id: u, device_id: d, access_token: a },
        ) =~= s.take(n)) by {
            assert(l1 =~= s.take(n1));
            assert(quoted(u) == s.skip(n1).take(n2));
            assert(l2 =~= s.skip(n1 + n2).take(n3));
            assert(quoted(d) == s.skip(n1 + n2 + n3).take(n4));
            assert(l3 =~= s.skip(n1 + n2 + n3 + n4).take(n5));
            assert(quoted(a) == s.skip(n1 + n2 + n3 + n4 + n5).take(n6));
            assert(l4 =~= s.skip(n1 + n2 + n3 + n4 + n5 + n6).take(n7));
        }
    }
}

/// Serializing a deserialized document gives back the original text: any
/// text the parser accepts is exactly the encoding of the parsed session.
#[verifier::rlimit(100)]
pub proof fn lemma_session_parse_canonical(s: Seq<char>)
    ensures
        parse_full_session_spec(s) matches Some(v) ==> encode_full_session(v) == s,
{
    if parse_full_session_spec(s) is Some {
        let l1 = "{\"client_session\":"@;
        let l2 = ",\"user_session\":"@;
        let l5 = ",\"sync_token\":"@;
        let l4 = "}"@;
        let n1 = parse_lit(s, l1).unwrap();
        let (cs, n2) = parse_client_session(s.skip(n1)).unwrap();
        let n3 = parse_lit(s.skip(n1 + n2), l2).unwrap();
        let (us, n4) = parse_user_session(s.skip(n1 + n2 + n3)).unwrap();
        let k = n1 + n2 + n3 + n4;
        lemma_client_session_parse_canonical(s.skip(n1));
        lemma_user_session_parse_canonical(s.skip(n1 + n2 + n3));
        reveal_strlit("}");
        if parse_lit(s.skip(k), l4) is Some && s.len() == k + 1 {
            let v = FullSessionV { client_session: cs, user_session: us, sync_token: None };
            assert(encode_full_session(v) =~= s) by {
                assert(l1 =~= s.take(n1));
                assert(encode_client_session(cs) == s.skip(n1).take(n2));
                assert(l2 =~= s.skip(n1 + n2).take(n3));
                assert(encode_user_session(us) == s.skip(n1 + n2 + n3).take(n4));
                assert(l4 =~= s.skip(k).take(1));
            }
        } else {
            let n5 = parse_lit(s.skip(k), l5).unwrap();
            let (t, n6) = parse_quoted(s.skip(k + n5)).unwrap();
            lemma_quoted_parse_canonical(s.skip(k + n5));
            let v = FullSessionV { client_session: cs, user_session: us, sync_token: Some(t) };
            assert(encode_full_session(v) =~= s) by {
                assert(l1 =~= s.take(n1));
                assert(encode_client_session(cs) == s.skip(n1).take(n2));
                assert(l2 =~= s.skip(n1 + n2).take(n3));
                assert(encode_user_session(us) == s.skip(n1 + n2 + n3).take(n4));
                assert(l5 =~= s.skip(k).take(n5));
                assert(quoted(t) == s.skip(k + n5).take(n6));
                assert(l4 =~= s.skip(k + n5 + n6).take(1));
            }
        }
    }
}

/// Append `field` as a JSON string value: quoted, with `"` and `\` escaped.
fn append_quoted(out: &mut String, field: &str)
    ensures
        final(out)@ == old(out)@ + quoted(field@),
{
    out.push('"');
    let n = field.unicode_len();
    let mut i: usize = 0;
    while i < n
        invariant
            n == field@.len(),
            0 <= i <= n,
            out@ == old(out)@ + seq!['"'] + json_escape(field@.take(i as int)),
        decreases n - i,
    {
        let c = field.get_char(i);
        if c == '"' || c == '\\' {
            out.push('\\');
        }
        out.push(c);
        proof {
            lemma_escape_app(field@.take(i as int), seq![c]);
            assert(field@.take(i + 1) =~= field@.take(i as int) + seq![c]);
            assert(seq![c].skip(1) =~= Seq::<char>::empty());
            assert(json_escape(Seq::<char>::empty()) == Seq::<char>::empty());
            assert(json_escape(seq![c]) =~= esc_char(c));
            assert(out@ =~= old(out)@ + seq!['"'] + json_escape(field@.take(i + 1)));
        }
        i = i + 1;
    }
    out.push('"');
    proof {
        assert(field@.take(n as int) =~= field@);
        assert(out@ =~= old(out)@ + quoted(field@));
    }
}

/// Append the `client_session` object.
fn serialize_client_session_into(out: &mut String, cs: &ClientSession)
    ensures
        final(out)@ == old(out)@ + encode_client_session(cs@),
{
    out.append("{\"homeserver\":");
    append_quoted(out, cs.homeserver.as_str());
    out.append(",\"db_path\":");
    append_quoted(out, cs.db_path.as_str());
    out.append(",\"passphrase\":");
    append_quoted(out, cs.passphrase.as_str());
    out.append("}");
    proof {
        assert(out@ =~= old(out)@ + encode_client_session(cs@));
    }
}

/// Append the `user_session` object.
fn serialize_user_session_into(out: &mut String, us: &UserSession)
    ensures
        final(out)@ == old(out)@ + encode_user_session(us@),
{
    out.append("{\"user_id\":");
    append_quoted(out, us.user_id.as_str());
    out.append(",\"device_id\":");
    append_quoted(out, us.device_id.as_str());
    out.append(",\"access_token\":");
    append_quoted(out, us.access_token.as_str());
    out.append("}");
    proof {
        assert(out@ =~= old(out)@ + encode_user_session(us@));
    }
}

/// Serialize a session to the exact document text `encode_full_session`
/// describes.
pub fn serialize_full_session(fs: &FullSession) -> (out: String)
    ensures
        out@ == encode_full_session(fs@),
{
    let mut out = String::new();
    out.append("{\"client_session\":");
    serialize_client_session_into(&mut out, &fs.client_session);
    out.append(",\"user_session\":");
    serialize_user_session_into(&mut out, &fs.user_session);
    match &fs.sync_token {
        Some(t) => {
            out.append(",\"sync_token\":");
            append_quoted(&mut out, t.as_str());
        },
        None => {},
    }
    out.append("}");
    proof {
        assert(out@ =~= encode_full_session(fs@));
    }
    out
}

/// Match the literal `lit` at position `pos` of `s`; on success return the
/// position right after it.
fn expect_lit(s: &str, pos: usize, lit: &str) -> (r: Option<usize>)
    requires
        pos <= s@.len(),
    ensures
        match r {
            Some(j) => {
                &&& parse_lit(s@.skip(pos as int), lit@) == Some((j - pos) as int)
                &&& j == pos + lit@.len()
                &&& j <= s@.len()
            },
            None => parse_lit(s@.skip(pos as int), lit@) is None,
        },
{
    let n = s.unicode_len();
    let m = lit.unicode_len();
    if m > n - pos {
        proof {
            assert(!lit@.is_prefix_of(s@.skip(pos as int)));
        }
        return None;
    }
    let mut k: usize = 0;
    while k < m
        invariant
            n == s@.len(),
            m == lit@.len(),
            pos + m <= n,
            0 <= k <= m,
            forall|j: int| 0 <= j < k ==> s@[pos + j] == lit@[j],
        decreases m - k,
    {
        if s.get_char(pos + k) != lit.get_char(k) {
            proof {
                assert(!lit@.is_prefix_of(s@.skip(pos as int))) by {
                    assert(s@.skip(pos as int)[k as int] == s@[pos + k]);
                }
            }
            return None;
        }
        k = k + 1;
    }
    proof {
        assert(lit@ =~= s@.skip(pos as int).subrange(0, m as int));
    }
    Some(pos + m)
}

/// Parse a quoted string value at position `pos` of `s`; on success return
/// the unescaped value and the position right after the closing quote.
fn parse_quoted_at(s: &str, pos: usize) -> (r: Option<(String, usize)>)
    requires
        pos <= s@.len(),
    ensures
        match r {
            Some(v) => {
                &&& parse_quoted(s@.skip(pos as int)) == Some((v.0@, (v.1 - pos) as int))
                &&& pos < v.1 <= s@.len()
            },
            None => parse_quoted(s@.skip(pos as int)) is None,
        },
{
    let n = s.unicode_len();
    if pos == n || s.get_char(pos) != '"' {
        return None;
    }
    let ghost p1: int = pos + 1;
    let mut out = String::new();
    let mut i: usize = pos + 1;
    while i < n
        invariant
            n == s@.len(),
            pos + 1 <= i <= n,
            p1 == pos + 1,
            s@[pos as int] == '"',
            parse_str_body(s@.skip(p1)) == (match parse_str_body(s@.skip(i as int)) {
                Some((v, m)) => Some((out@ + v, i - p1 + m)),
                None => None::<(Seq<char>, int)>,
            }),
        decreases n - i,
    {
        let c = s.get_char(i);
        if c == '"' {
            proof {
                assert(s@.skip(i as int)[0] == c);
                assert(parse_str_body(s@.skip(i as int)) == Some((Seq::<char>::empty(), 1int)));
                assert(out@ + Seq::<char>::empty() =~= out@);
                assert(parse_quoted(s@.skip(pos as int)) == Some((out@, (i + 1 - pos) as int)))
                    by {
                    assert(s@.skip(pos as int)[0] == '"');
                    assert(s@.skip(pos as int).skip(1) =~= s@.skip(p1));
                }
            }
            return Some((out, i + 1));
        } else if c == '\\' {
            if i + 1 < n {
                let d = s.get_char(i + 1);
                if d == '"' || d == '\\' {
                    let ghost out0 = out@;
                    out.push(d);
                    proof {
                        assert(s@.skip(i as int)[0] == c);
                        assert(s@.skip(i as int)[1] == d);
                        assert(s@.skip(i as int).len() >= 2);
                        assert(s@.skip(i as int).skip(2) =~= s@.skip(i + 2));
                        match parse_str_body(s@.skip(i + 2)) {
                            Some((v2, m2)) => {
                                assert(out0 + (seq![d] + v2) =~= out0.push(d) + v2);
                            },
                            None => {},
                        }
                    }
                    i = i + 2;
                    continue;
                }
            }
            proof {
                assert(s@.skip(i as int)[0] == c);
                if i + 1 < n {
                    assert(s@.skip(i as int)[1] == s@[i + 1]);
                } else {
                    assert(s@.skip(i as int).len() < 2);
                }
                assert(parse_str_body(s@.skip(i as int)) is None);
                assert(parse_quoted(s@.skip(pos as int)) is None) by {
                    assert(s@.skip(pos as int)[0] == '"');
                    assert(s@.skip(pos as int).skip(1) =~= s@.skip(p1));
                }
            }
            return None;
        } else {
            let ghost out0 = out@;
            out.push(c);
            proof {
                assert(s@.skip(i as int)[0] == c);
                assert(s@.skip(i as int).skip(1) =~= s@.skip(i + 1));
                match parse_str_body(s@.skip(i + 1)) {
                    Some((v2, m2)) => {
                        assert(out0 + (seq![c] + v2) =~= out0.push(c) + v2);
                    },
                    None => {},
                }
            }
            i = i + 1;
        }
    }
    proof {
        assert(s@.skip(i as int).len() == 0);
        assert(parse_str_body(s@.skip(i as int)) is None);
        assert(parse_quoted(s@.skip(pos as int)) is None) by {
            assert(s@.skip(pos as int)[0] == '"');
            assert(s@.skip(pos as int).skip(1) =~= s@.skip(p1));
        }
    }
    None
}

/// Parse a `client_session` object at position `pos` of `s`.
fn parse_client_session_at(s: &str, pos: usize) -> (r: Option<(ClientSession, usize)>)
    requires
        pos <= s@.len(),
    ensures
        match r {
            Some(v) => {
                &&& parse_client_session(s@.skip(pos as int)) == Some(
                    (v.0@, (v.1 - pos) as int),
                )
                &&& pos <= v.1 <= s@.len()
            },
            None => parse_client_session(s@.skip(pos as int)) is None,
        },
{
    let ghost sp = s@.skip(pos as int);
    let j1 = match expect_lit(s, pos, "{\"homeserver\":") {
        Some(j) => j,
        None => {
            return None;
        },
    };
    proof {
        assert(sp.skip(j1 - pos) =~= s@.skip(j1 as int));
    }
    let (h, j2) = match parse_quoted_at(s, j1) {
        Some(v) => v,
        None => {
            return None;
        },
    };
    proof {
        assert(sp.skip(j2 - pos) =~= s@.skip(j2 as int));
    }
    let j3 = match expect_lit(s, j2, ",\"db_path\":") {
        Some(j) => j,
        None => {
            return None;
        },
    };
    proof {
        assert(sp.skip(j3 - pos) =~= s@.skip(j3 as int));
    }
    let (d, j4) = match parse_quoted_at(s, j3) {
        Some(v) => v,
        None => {
            return None;
        },
    };
    proof {
        assert(sp.skip(j4 - pos) =~= s@.skip(j4 as int));
    }
    let j5 = match expect_lit(s, j4, ",\"passphrase\":") {
        Some(j) => j,
        None => {
            return None;
        },
    };
    proof {
        assert(sp.skip(j5 - pos) =~= s@.skip(j5 as int));
    }
    let (p, j6) = match parse_quoted_at(s, j5) {
        Some(v) => v,
        None => {
            return None;
        },
    };
    proof {
        assert(sp.skip(j6 - pos) =~= s@.skip(j6 as int));
    }
    let j7 = match expect_lit(s, j6, "}") {
        Some(j) => j,
        None => {
            return None;
        },
    };
    Some((ClientSession { homeserver: h, db_path: d, passphrase: p }, j7))
}

/// Parse a `user_session` object at position `pos` of `s`.
fn parse_user_session_at(s: &str, pos: usize) -> (r: Option<(UserSession, usize)>)
    requires
        pos <= s@.len(),
    ensures
        match r {
            Some(v) => {
                &&& parse_user_session(s@.skip(pos as int)) == Some((v.0@, (v.1 - pos) as int))
                &&& pos <= v.1 <= s@.len()
            },
            None => parse_user_session(s@.skip(pos as int)) is None,
        },
{
    let ghost sp = s@.skip(pos as int);
    let j1 = match expect_lit(s, pos, "{\"user_id\":") {
        Some(j) => j,
        None => {
            return None;
        },
    };
    proof {
        assert(sp.skip(j1 - pos) =~= s@.skip(j1 as int));
    }
    let (u, j2) = match parse_quoted_at(s, j1) {
        Some(v) => v,
        None => {
            return None;
        },
    };
    proof {
        assert(sp.skip(j2 - pos) =~= s@.skip(j2 as int));
    }
    let j3 = match expect_lit(s, j2, ",\"device_id\":") {
        Some(j) => j,
        None => {
            return None;
        },
    };
    proof {
        assert(sp.skip(j3 - pos) =~= s@.skip(j3 as int));
    }
    let (d, j4) = match parse_quoted_at(s, j3) {
        Some(v) => v,
        None => {
            return None;
        },
    };
    proof {
        assert(sp.skip(j4 - pos) =~= s@.skip(j4 as int));
    }
    let j5 = match expect_lit(s, j4, ",\"access_token\":") {
        Some(j) => j,
        None => {
            return None;
        },
    };
    proof {
        assert(sp.skip(j5 - pos) =~= s@.skip(j5 as int));
    }
    let (a, j6) = match parse_quoted_at(s, j5) {
        Some(v) => v,
        None => {
            return None;
        },
    };
    proof {
        assert(sp.skip(j6 - pos) =~= s@.skip(j6 as int));
    }
    let j7 = match expect_lit(s, j6, "}") {
        Some(j) => j,
        None => {
            return None;
        },
    };
    Some((UserSession { user_id: u, device_id: d, access_token: a }, j7))
}

/// Parse a persisted session document. Succeeds exactly on the texts that
/// `encode_full_session` produces; anything else is a corrupt store.
#[verifier::rlimit(60)]
pub fn parse_full_session(s: &str) -> (r: Result<FullSession, SessionError>)
    ensures
        match r {
            Ok(fs) => parse_full_session_spec(s@) == Some(fs@),
            Err(e) => parse_full_session_spec(s@) is None && e == SessionError::SessionCorrupt,
        },
{
    let n = s.unicode_len();
    proof {
        assert(s@.skip(0) =~= s@);
    }
    let j1 = match expect_lit(s, 0, "{\"client_session\":") {
        Some(j) => j,
        None => {
            return Err(SessionError::SessionCorrupt);
        },
    };
    let (cs, j2) = match parse_client_session_at(s, j1) {
        Some(v) => v,
        None => {
            return Err(SessionError::SessionCorrupt);
        },
    };
    proof {
        assert(s@.skip(j1 as int).skip(j2 - j1) =~= s@.skip(j2 as int));
    }
    let j3 = match expect_lit(s, j2, ",\"user_session\":") {
        Some(j) => j,
        None => {
            return Err(SessionError::SessionCorrupt);
        },
    };
    let (us, j4) = match parse_user_session_at(s, j3) {
        Some(v) => v,
        None => {
            return Err(SessionError::SessionCorrupt);
        },
    };
    proof {
        assert(s@.skip(j3 as int).skip(j4 - j3) =~= s@.skip(j4 as int));
        reveal_strlit("}");
        reveal_strlit(",\"sync_token\":");
    }
    match expect_lit(s, j4, "}") {
        Some(j5) => {
            if j5 == n {
                return Ok(FullSession { client_session: cs, user_session: us, sync_token: None });
            }
            proof {
                assert("}"@.is_prefix_of(s@.skip(j4 as int)));
                assert(s@.skip(j4 as int).subrange(0, 1)[0] == s@.skip(j4 as int)[0]);
                assert(s@.skip(j4 as int)[0] == '}');
                assert(parse_lit(s@.skip(j4 as int), ",\"sync_token\":"@) is None) by {
                    assert(",\"sync_token\":"@[0] == ',');
                    if ",\"sync_token\":"@.is_prefix_of(s@.skip(j4 as int)) {
                        assert(s@.skip(j4 as int).subrange(0, 14)[0] == s@.skip(j4 as int)[0]);
                    }
                }
            }
            return Err(SessionError::SessionCorrupt);
        },
        None => {},
    }
    let j5 = match expect_lit(s, j4, ",\"sync_token\":") {
        Some(j) => j,
        None => {
            return Err(SessionError::SessionCorrupt);
        },
    };
    let (t, j6) = match parse_quoted_at(s, j5) {
        Some(v) => v,
        None => {
            return Err(SessionError::SessionCorrupt);
        },
    };
    let j7 = match expect_lit(s, j6, "}") {
        Some(j) => j,
        None => {
            return Err(SessionError::SessionCorrupt);
        },
    };
    if j7 == n {
        Ok(FullSession { client_session: cs, user_session: us, sync_token: Some(t) })
    } else {
        Err(SessionError::SessionCorrupt)
    }
}

/// The document a fresh login persists: the new client session, the user
/// session the login returned, and no sync cursor yet.
pub fn initial_session_document(client_session: ClientSession, user_session: UserSession) -> (out:
    String)
    ensures
        out@ == encode_full_session(
            FullSessionV {
                client_session: client_session@,
                user_session: user_session@,
                sync_token: None,
            },
        ),
{
    let fs = FullSession { client_session, user_session, sync_token: None };
    serialize_full_session(&fs)
}

/// Advance the cursor inside a persisted document: parse it, replace its
/// `sync_token` with the acknowledged one, and serialize it back. Fails
/// exactly when the document does not parse.
pub fn advance_sync_token(doc: &str, token: String) -> (r: Result<String, SessionError>)
    ensures
        match r {
            Ok(out) => parse_full_session_spec(doc@) matches Some(v) && out@
                == encode_full_session(
                FullSessionV {
                    client_session: v.client_session,
                    user_session: v.user_session,
                    sync_token: Some(token@),
                },
            ),
            Err(e) => parse_full_session_spec(doc@) is None && e == SessionError::SessionCorrupt,
        },
{
    match parse_full_session(doc) {
        Ok(fs) => Ok(serialize_full_session(&fs.with_sync_token(token))),
        Err(e) => Err(e),
    }
}

/// Load the session store: `doc` is the session file's text, or nothing
/// when the file does not exist. A missing document triggers the
/// fresh-login path; one that does not parse is corrupt and fails startup.
pub fn load_session(doc: Option<&str>) -> (r: Result<FullSession, SessionError>)
    ensures
        match r {
            Ok(fs) => doc matches Some(d) && parse_full_session_spec(d@) == Some(fs@),
            Err(e) => match doc {
                None => e == SessionError::SessionMissing,
                Some(d) => parse_full_session_spec(d@) is None && e
                    == SessionError::SessionCorrupt,
            },
        },
{
    match doc {
        Some(d) => parse_full_session(d),
        None => Err(SessionError::SessionMissing),
    }
}

} // verus!
