//! The reply side of the protocol codec.
//!
//! Every reply is one line of minified JSON of the shape `{"result":...}`
//! ending in a single newline: a boolean for `initialize`, a string for
//! `lookup`, and the fixed negative placeholder `{"result":false}` for the
//! four methods whose payload the backend does not fill in yet. Replies are
//! normally only encoded; [`decode_reply`] reads the two payload-carrying
//! shapes back, which a client of the backend needs.

use vstd::prelude::*;
use crate::json::{
    esc_all, append_escaped, push_byte, parse_json, sp_parse, JsonV, JsonValue,
};
use crate::query::{key_count, key_value, scan_field, DecodeError};

verus! {

broadcast use crate::json::lemma_members_view;

/// The `initialize` reply payload: did initialization succeed.
#[derive(Debug, PartialEq, Eq, Clone, Copy, Structural)]
pub struct InitializeReply {
    pub result: bool,
}

/// The `lookup` reply payload: the records found, as the backend writes
/// them (the stub backend never builds one).
#[derive(Debug, PartialEq, Eq)]
pub struct LookupReply {
    pub result: Vec<u8>,
}

/// One reply, one variant per request method.
#[derive(Debug, PartialEq, Eq)]
pub enum Reply {
    Initialize(InitializeReply),
    Lookup(LookupReply),
    List(),
    GetDomainInfo(),
    DirectBackendCmd(),
    GetAllDomains(),
}

/// The mathematical shape of [`Reply`].
pub enum ReplyV {
    Initialize(bool),
    Lookup(Seq<u8>),
    List,
    GetDomainInfo,
    DirectBackendCmd,
    GetAllDomains,
}

impl View for Reply {
    type V = ReplyV;

    open spec fn view(&self) -> ReplyV {
        match self {
            Reply::Initialize(p) => ReplyV::Initialize(p.result),
            Reply::Lookup(p) => ReplyV::Lookup(p.result@),
            Reply::List() => ReplyV::List,
            Reply::GetDomainInfo() => ReplyV::GetDomainInfo,
            Reply::DirectBackendCmd() => ReplyV::DirectBackendCmd,
            Reply::GetAllDomains() => ReplyV::GetAllDomains,
        }
    }
}

/// The wire key `result`.
pub open spec fn k_result() -> Seq<u8> {
    seq![0x72u8, 0x65, 0x73, 0x75, 0x6c, 0x74]
}

fn k_result_bytes() -> (v: Vec<u8>)
    ensures
        v@ == k_result(),
{
    let mut v: Vec<u8> = Vec::new();
    v.push(0x72);
    v.push(0x65);
    v.push(0x73);
    v.push(0x75);
    v.push(0x6c);
    v.push(0x74);
    proof {
        assert(v@ =~= k_result());
    }
    v
}

/// The opening of every reply line: `{"result":`.
pub open spec fn sp_result_prefix() -> Seq<u8> {
    seq![0x7bu8, 0x22, 0x72, 0x65, 0x73, 0x75, 0x6c, 0x74, 0x22, 0x3a]
}

/// The close of every reply line: `}` and the newline.
pub open spec fn sp_result_suffix() -> Seq<u8> {
    seq![0x7du8, 0x0a]
}

/// The bytes of `true`.
pub open spec fn sp_true_lit() -> Seq<u8> {
    seq![0x74u8, 0x72, 0x75, 0x65]
}

/// The bytes of `false`.
pub open spec fn sp_false_lit() -> Seq<u8> {
    seq![0x66u8, 0x61, 0x6c, 0x73, 0x65]
}

/// The affirmative reply line, `{"result":true}` and a newline.
pub open spec fn sp_affirmative_line() -> Seq<u8> {
    sp_result_prefix() + sp_true_lit() + sp_result_suffix()
}

/// The generic negative reply line, `{"result":false}` and a newline: the
/// answer to every decode failure and to every stubbed method.
pub open spec fn sp_negative_line() -> Seq<u8> {
    sp_result_prefix() + sp_false_lit() + sp_result_suffix()
}

/// The one line a reply is written as: minified JSON plus a newline.
pub open spec fn sp_encode_reply(r: ReplyV) -> Seq<u8> {
    match r {
        ReplyV::Initialize(b) => sp_result_prefix() + (if b {
            sp_true_lit()
        } else {
            sp_false_lit()
        }) + sp_result_suffix(),
        ReplyV::Lookup(s) => sp_result_prefix() + seq![0x22u8] + esc_all(s) + seq![0x22u8]
            + sp_result_suffix(),
        _ => sp_negative_line(),
    }
}

/// Appends `{"result":`.
fn push_result_prefix(out: &mut Vec<u8>)
    ensures
        final(out)@ == old(out)@ + sp_result_prefix(),
{
    let ghost o0 = out@;
    out.push(0x7b);
    out.push(0x22);
    out.push(0x72);
    out.push(0x65);
    out.push(0x73);
    out.push(0x75);
    out.push(0x6c);
    out.push(0x74);
    out.push(0x22);
    out.push(0x3a);
    proof {
        assert(out@ =~= o0 + sp_result_prefix());
    }
}

/// Appends `}` and the newline.
fn push_result_suffix(out: &mut Vec<u8>)
    ensures
        final(out)@ == old(out)@ + sp_result_suffix(),
{
    let ghost o0 = out@;
    out.push(0x7d);
    out.push(0x0a);
    proof {
        assert(out@ =~= o0 + sp_result_suffix());
    }
}

/// Appends `true` or `false`.
fn push_bool_lit(out: &mut Vec<u8>, b: bool)
    ensures
        final(out)@ == old(out)@ + (if b {
            sp_true_lit()
        } else {
            sp_false_lit()
        }),
{
    let ghost o0 = out@;
    if b {
        out.push(0x74);
        out.push(0x72);
        out.push(0x75);
        out.push(0x65);
        proof {
            assert(out@ =~= o0 + sp_true_lit());
        }
    } else {
        out.push(0x66);
        out.push(0x61);
        out.push(0x6c);
        out.push(0x73);
        out.push(0x65);
        proof {
            assert(out@ =~= o0 + sp_false_lit());
        }
    }
}

/// The generic negative reply line as bytes.
pub fn negative_line() -> (v: Vec<u8>)
    ensures
        v@ == sp_negative_line(),
{
    let mut v: Vec<u8> = Vec::new();
    push_result_prefix(&mut v);
    push_bool_lit(&mut v, false);
    push_result_suffix(&mut v);
    proof {
        assert(v@ =~= sp_negative_line());
    }
    v
}

/// Encodes one reply as its line; returns exactly [`sp_encode_reply`] of it.
pub fn encode_reply(r: &Reply) -> (out: Vec<u8>)
    ensures
        out@ == sp_encode_reply(r@),
{
    let mut out: Vec<u8> = Vec::new();
    match r {
        Reply::Initialize(p) => {
            push_result_prefix(&mut out);
            push_bool_lit(&mut out, p.result);
            push_result_suffix(&mut out);
            proof {
                assert(out@ =~= sp_encode_reply(r@));
            }
        },
        Reply::Lookup(p) => {
            push_result_prefix(&mut out);
            push_byte(&mut out, 0x22);
            append_escaped(&mut out, p.result.as_slice());
            push_byte(&mut out, 0x22);
            push_result_suffix(&mut out);
            proof {
                assert(out@ =~= sp_encode_reply(r@));
            }
        },
        _ => {
            push_result_prefix(&mut out);
            push_bool_lit(&mut out, false);
            push_result_suffix(&mut out);
            proof {
                assert(out@ =~= sp_encode_reply(r@));
            }
        },
    }
    out
}

/// What decoding one reply line yields: only the two payload-carrying
/// shapes are read back; anything else is refused.
pub open spec fn sp_decode_reply(line: Seq<u8>) -> Result<ReplyV, DecodeError> {
    match sp_parse(line) {
        None => Err(DecodeError::Syntax),
        Some(v) => match v {
            JsonV::Obj(ms) => {
                if !(ms.len() == 1 && key_count(ms, k_result()) == 1) {
                    Err(DecodeError::Envelope)
                } else {
                    match key_value(ms, k_result()) {
                        JsonV::Bool(b) => Ok(ReplyV::Initialize(b)),
                        JsonV::Str(s) => Ok(ReplyV::Lookup(s)),
                        _ => Err(DecodeError::Envelope),
                    }
                }
            },
            _ => Err(DecodeError::Envelope),
        },
    }
}

/// Decodes one reply line; returns exactly [`sp_decode_reply`] of it.
pub fn decode_reply(line: &[u8]) -> (r: Result<Reply, DecodeError>)
    ensures
        match (r, sp_decode_reply(line@)) {
            (Ok(rep), Ok(g)) => rep@ == g,
            (Err(e), Err(ge)) => e == ge,
            _ => false,
        },
{
    let v = match parse_json(line) {
        None => {
            return Err(DecodeError::Syntax);
        },
        Some(v) => v,
    };
    match v {
        JsonValue::Obj(ms) => {
            let rk = k_result_bytes();
            let (rc, ri) = scan_field(&ms, rk.as_slice());
            if !(ms.len() == 1 && rc == 1) {
                return Err(DecodeError::Envelope);
            }
            match &ms[ri].1 {
                JsonValue::Bool(b) => Ok(Reply::Initialize(InitializeReply { result: *b })),
                JsonValue::Str(s) => {
                    let mut result: Vec<u8> = Vec::new();
                    crate::json::append_bytes(&mut result, s.as_slice());
                    proof {
                        assert(Seq::<u8>::empty() + s@ =~= s@);
                    }
                    Ok(Reply::Lookup(LookupReply { result }))
                },
                _ => Err(DecodeError::Envelope),
            }
        },
        _ => Err(DecodeError::Envelope),
    }
}


/// Every reply line the stub server sends is one well-formed JSON line: the
/// bytes before the final newline parse back to the object `{"result":b}`.
#[verifier::rlimit(100)]
#[verifier::spinoff_prover]
pub proof fn lemma_reply_line_form(b: bool)
    ensures
        ({
            let line = sp_result_prefix() + (if b {
                sp_true_lit()
            } else {
                sp_false_lit()
            }) + sp_result_suffix();
            &&& line.len() > 0
            &&& line.last() == 0x0a
            &&& sp_parse(line.drop_last()) == Some(
                JsonV::Obj(seq![(k_result(), JsonV::Bool(b))]),
            )
        }),
{
    if b {
        let line = sp_result_prefix() + sp_true_lit() + sp_result_suffix();
        let t = seq![
            0x7bu8, 0x22, 0x72, 0x65, 0x73, 0x75, 0x6c, 0x74, 0x22, 0x3a, 0x74, 0x72, 0x75,
            0x65, 0x7d,
        ];
        assert(line.last() == 0x0a);
        assert(line.drop_last() =~= t);
        lemma_true_line_parses(t);
        assert(sp_parse(t) == Some(JsonV::Obj(seq![(k_result(), JsonV::Bool(true))])));
    } else {
        let line = sp_result_prefix() + sp_false_lit() + sp_result_suffix();
        let t = seq![
            0x7bu8, 0x22, 0x72, 0x65, 0x73, 0x75, 0x6c, 0x74, 0x22, 0x3a, 0x66, 0x61, 0x6c,
            0x73, 0x65, 0x7d,
        ];
        assert(line.last() == 0x0a);
        assert(line.drop_last() =~= t);
        lemma_false_line_parses(t);
        assert(sp_parse(t) == Some(JsonV::Obj(seq![(k_result(), JsonV::Bool(false))])));
    }
}

/// Walks the parser over the fifteen bytes of `{"result":true}`.
#[verifier::rlimit(80)]
proof fn lemma_true_line_parses(t: Seq<u8>)
    requires
        t =~= seq![
            0x7bu8, 0x22, 0x72, 0x65, 0x73, 0x75, 0x6c, 0x74, 0x22, 0x3a, 0x74, 0x72, 0x75,
            0x65, 0x7d,
        ],
    ensures
        sp_parse(t) == Some(JsonV::Obj(seq![(k_result(), JsonV::Bool(true))])),
{
    assert(crate::json::sp_ws(t, 0) == 0);
    assert(crate::json::sp_ws(t, 1) == 1);
        assert(crate::json::sp_str_body(t, 8) == Some((Seq::<u8>::empty(), 9int)));
        assert(seq![0x74u8] + Seq::<u8>::empty() =~= seq![0x74u8]);
        assert(crate::json::sp_str_body(t, 7) == Some((seq![0x74u8], 9int)));
        assert(seq![0x6cu8] + seq![0x74u8] =~= seq![0x6cu8, 0x74]);
        assert(crate::json::sp_str_body(t, 6) == Some((seq![0x6cu8, 0x74], 9int)));
        assert(seq![0x75u8] + seq![0x6cu8, 0x74] =~= seq![0x75u8, 0x6c, 0x74]);
        assert(crate::json::sp_str_body(t, 5) == Some((seq![0x75u8, 0x6c, 0x74], 9int)));
        assert(seq![0x73u8] + seq![0x75u8, 0x6c, 0x74] =~= seq![0x73u8, 0x75, 0x6c, 0x74]);
        assert(crate::json::sp_str_body(t, 4) == Some((seq![0x73u8, 0x75, 0x6c, 0x74], 9int)));
        assert(seq![0x65u8] + seq![0x73u8, 0x75, 0x6c, 0x74] =~= seq![0x65u8, 0x73, 0x75, 0x6c, 0x74]);
        assert(crate::json::sp_str_body(t, 3) == Some((seq![0x65u8, 0x73, 0x75, 0x6c, 0x74], 9int)));
        assert(seq![0x72u8] + seq![0x65u8, 0x73, 0x75, 0x6c, 0x74] =~= seq![0x72u8, 0x65, 0x73, 0x75, 0x6c, 0x74]);
        assert(crate::json::sp_str_body(t, 2) == Some((seq![0x72u8, 0x65, 0x73, 0x75, 0x6c, 0x74], 9int)));
        assert(k_result() =~= seq![0x72u8, 0x65, 0x73, 0x75, 0x6c, 0x74]);
        assert(crate::json::sp_str_body(t, 2) == Some((k_result(), 9int)));
    assert(crate::json::sp_ws(t, 9) == 9);
    assert(crate::json::sp_ws(t, 10) == 10);
    assert(crate::json::sp_value(t, 10, 127) == Some((JsonV::Bool(true), 14int)));
    assert(crate::json::sp_ws(t, 14) == 14);
    assert(crate::json::sp_members(t, 1, 127) == Some(
        (seq![(k_result(), JsonV::Bool(true))], 15int),
    ));
    assert(crate::json::sp_value(t, 0, 128) == Some(
        (JsonV::Obj(seq![(k_result(), JsonV::Bool(true))]), 15int),
    ));
    assert(crate::json::sp_ws(t, 15) == 15);
}

/// Walks the parser over the sixteen bytes of `{"result":false}`.
#[verifier::rlimit(80)]
proof fn lemma_false_line_parses(t: Seq<u8>)
    requires
        t =~= seq![
            0x7bu8, 0x22, 0x72, 0x65, 0x73, 0x75, 0x6c, 0x74, 0x22, 0x3a, 0x66, 0x61, 0x6c,
            0x73, 0x65, 0x7d,
        ],
    ensures
        sp_parse(t) == Some(JsonV::Obj(seq![(k_result(), JsonV::Bool(false))])),
{
    assert(crate::json::sp_ws(t, 0) == 0);
    assert(crate::json::sp_ws(t, 1) == 1);
        assert(crate::json::sp_str_body(t, 8) == Some((Seq::<u8>::empty(), 9int)));
        assert(seq![0x74u8] + Seq::<u8>::empty() =~= seq![0x74u8]);
        assert(crate::json::sp_str_body(t, 7) == Some((seq![0x74u8], 9int)));
        assert(seq![0x6cu8] + seq![0x74u8] =~= seq![0x6cu8, 0x74]);
        assert(crate::json::sp_str_body(t, 6) == Some((seq![0x6cu8, 0x74], 9int)));
        assert(seq![0x75u8] + seq![0x6cu8, 0x74] =~= seq![0x75u8, 0x6c, 0x74]);
        assert(crate::json::sp_str_body(t, 5) == Some((seq![0x75u8, 0x6c, 0x74], 9int)));
        assert(seq![0x73u8] + seq![0x75u8, 0x6c, 0x74] =~= seq![0x73u8, 0x75, 0x6c, 0x74]);
        assert(crate::json::sp_str_body(t, 4) == Some((seq![0x73u8, 0x75, 0x6c, 0x74], 9int)));
        assert(seq![0x65u8] + seq![0x73u8, 0x75, 0x6c, 0x74] =~= seq![0x65u8, 0x73, 0x75, 0x6c, 0x74]);
        assert(crate::json::sp_str_body(t, 3) == Some((seq![0x65u8, 0x73, 0x75, 0x6c, 0x74], 9int)));
        assert(seq![0x72u8] + seq![0x65u8, 0x73, 0x75, 0x6c, 0x74] =~= seq![0x72u8, 0x65, 0x73, 0x75, 0x6c, 0x74]);
        assert(crate::json::sp_str_body(t, 2) == Some((seq![0x72u8, 0x65, 0x73, 0x75, 0x6c, 0x74], 9int)));
        assert(k_result() =~= seq![0x72u8, 0x65, 0x73, 0x75, 0x6c, 0x74]);
        assert(crate::json::sp_str_body(t, 2) == Some((k_result(), 9int)));
    assert(crate::json::sp_ws(t, 9) == 9);
    assert(crate::json::sp_ws(t, 10) == 10);
    assert(crate::json::sp_value(t, 10, 127) == Some((JsonV::Bool(false), 15int)));
    assert(crate::json::sp_ws(t, 15) == 15);
    assert(crate::json::sp_members(t, 1, 127) == Some(
        (seq![(k_result(), JsonV::Bool(false))], 16int),
    ));
    assert(crate::json::sp_value(t, 0, 128) == Some(
        (JsonV::Obj(seq![(k_result(), JsonV::Bool(false))]), 16int),
    ));
    assert(crate::json::sp_ws(t, 16) == 16);
}


/// Round trip for the boolean reply: encoding `{"result":b}` and decoding
/// the line (without its newline, as a line reader hands it over) gives the
/// same reply back.
pub proof fn lemma_initialize_reply_round_trip(b: bool)
    ensures
        sp_decode_reply(sp_encode_reply(ReplyV::Initialize(b)).drop_last())
            == Ok::<ReplyV, DecodeError>(ReplyV::Initialize(b)),
{
    lemma_reply_line_form(b);
    let ms = seq![(k_result(), JsonV::Bool(b))];
    assert(ms.drop_last() =~= Seq::<(Seq<u8>, JsonV)>::empty());
    assert(key_count(Seq::<(Seq<u8>, JsonV)>::empty(), k_result()) == 0);
    assert(ms.last() == (k_result(), JsonV::Bool(b)));
    assert(key_count(ms, k_result()) == 1);
    assert(key_value(ms, k_result()) == JsonV::Bool(b));
}


/// Round trip for the lookup reply: whatever bytes the payload holds, the
/// encoded line (without its newline) decodes back to the same payload —
/// escaping on the way out and unescaping on the way in cancel exactly.
#[verifier::rlimit(100)]
#[verifier::spinoff_prover]
pub proof fn lemma_lookup_reply_round_trip(s: Seq<u8>)
    ensures
        sp_decode_reply(sp_encode_reply(ReplyV::Lookup(s)).drop_last())
            == Ok::<ReplyV, DecodeError>(ReplyV::Lookup(s)),
{
    let n = esc_all(s).len() as int;
    let t = sp_encode_reply(ReplyV::Lookup(s)).drop_last();
    assert(t =~= sp_result_prefix() + seq![0x22u8] + esc_all(s) + seq![0x22u8] + seq![0x7du8]);
    assert(t.len() == 13 + n);
    assert(t[0] == 0x7b && t[1] == 0x22 && t[2] == 0x72 && t[3] == 0x65 && t[4] == 0x73 && t[5]
        == 0x75 && t[6] == 0x6c && t[7] == 0x74 && t[8] == 0x22 && t[9] == 0x3a && t[10] == 0x22);
    assert(t[11 + n] == 0x22 && t[12 + n] == 0x7d);

    // The key "result" sits unescaped at bytes 2..8.
    assert(forall|k: int|
        0 <= k < k_result().len() ==> 0x20 <= #[trigger] k_result()[k] && k_result()[k] != 0x22
            && k_result()[k] != 0x5c);
    crate::json::lemma_esc_all_plain(k_result());
    assert(t.subrange(2, 8) =~= k_result());
    assert(2 + crate::json::esc_all(k_result()).len() == 8);
    crate::json::lemma_escaped_parses_back(t, 2, k_result());
    assert(crate::json::sp_str_body(t, 2) == Some((k_result(), 9int)));

    // The payload sits escaped at bytes 11..11+n.
    assert(t.subrange(11, 11 + n) =~= esc_all(s));
    crate::json::lemma_escaped_parses_back(t, 11, s);
    assert(crate::json::sp_str_body(t, 11) == Some((s, 12 + n)));

    assert(crate::json::sp_ws(t, 0) == 0);
    assert(crate::json::sp_ws(t, 1) == 1);
    assert(crate::json::sp_ws(t, 9) == 9);
    assert(crate::json::sp_ws(t, 10) == 10);
    assert(crate::json::sp_value(t, 10, 127) == Some((JsonV::Str(s), 12 + n)));
    assert(crate::json::sp_ws(t, 12 + n) == 12 + n);
    let ms = seq![(k_result(), JsonV::Str(s))];
    assert(crate::json::sp_members(t, 1, 127) == Some((ms, 13 + n)));
    assert(crate::json::sp_value(t, 0, 128) == Some((JsonV::Obj(ms), 13 + n)));
    assert(crate::json::sp_ws(t, 13 + n) == 13 + n);
    assert(sp_parse(t) == Some(JsonV::Obj(ms)));

    assert(ms.drop_last() =~= Seq::<(Seq<u8>, JsonV)>::empty());
    assert(key_count(Seq::<(Seq<u8>, JsonV)>::empty(), k_result()) == 0);
    assert(ms.last() == (k_result(), JsonV::Str(s)));
    assert(key_count(ms, k_result()) == 1);
    assert(key_value(ms, k_result()) == JsonV::Str(s));
}

} // verus!
