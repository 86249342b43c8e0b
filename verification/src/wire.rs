//! The wire framing of a request: one UTF-8 JSON-RPC 2.0 object per
//! line, newline-terminated.
//!
//! The encoding is specified byte by byte: string contents are escaped
//! as JSON asks (`\"`, `\\`, the short control escapes, and `\u00XY`
//! with lower-case hex for the remaining control bytes), the id is
//! written in decimal, and the fields appear in the fixed order
//! `jsonrpc`, `id`, `method`, `params`.

use vstd::prelude::*;
use vstd::string::StrSliceExecFns;
use vstd::string::StringSliceAdditionalSpecFns;
use vstd::utf8::encode_utf8;

use crate::query::QRequest;

verus! {

/// Backslash.
pub const ESC: u8 = 92;

/// Double quote.
pub const QUOTE: u8 = 34;

/// Line feed, the frame terminator.
pub const NEWLINE: u8 = 10;

/// The lower-case hex digit of a value below 16.
pub open spec fn hex_digit(d: u8) -> u8 {
    if d < 10 {
        (48 + d) as u8
    } else {
        (87 + d) as u8
    }
}

/// The escaped form of one byte of string content.  Bytes at 32 and
/// above other than `"` and `\` stand for themselves; UTF-8
/// continuation bytes are all above 32 and so pass through unchanged.
pub open spec fn escape_byte(b: u8) -> Seq<u8> {
    if b == QUOTE {
        seq![ESC, QUOTE]
    } else if b == ESC {
        seq![ESC, ESC]
    } else if b == 8 {
        seq![ESC, 98u8]  // \b
    } else if b == 9 {
        seq![ESC, 116u8]  // \t
    } else if b == 10 {
        seq![ESC, 110u8]  // \n
    } else if b == 12 {
        seq![ESC, 102u8]  // \f
    } else if b == 13 {
        seq![ESC, 114u8]  // \r
    } else if b < 32 {
        seq![ESC, 117u8, 48u8, 48u8, hex_digit(b / 16), hex_digit(b % 16)]
    } else {
        seq![b]
    }
}

/// The escaped form of a whole byte sequence.
pub open spec fn escaped(s: Seq<u8>) -> Seq<u8>
    decreases s.len(),
{
    if s.len() == 0 {
        Seq::empty()
    } else {
        escape_byte(s[0]) + escaped(s.drop_first())
    }
}

/// Escaping distributes over concatenation.
pub proof fn lemma_escaped_append(a: Seq<u8>, b: Seq<u8>)
    ensures
        escaped(a + b) == escaped(a) + escaped(b),
    decreases a.len(),
{
    if a.len() == 0 {
        assert(a + b =~= b);
        assert(escaped(a) + escaped(b) =~= escaped(b));
    } else {
        lemma_escaped_append(a.drop_first(), b);
        assert((a + b).drop_first() =~= a.drop_first() + b);
        assert(escaped(a + b) =~= escaped(a) + escaped(b));
    }
}

/// The JSON text of one string value: its UTF-8 bytes escaped, between
/// double quotes.
pub open spec fn quoted(p: Seq<char>) -> Seq<u8> {
    seq![QUOTE] + escaped(encode_utf8(p)) + seq![QUOTE]
}

/// The params after the first one, each preceded by a comma.
pub open spec fn rest_params(ps: Seq<Seq<char>>) -> Seq<u8>
    decreases ps.len(),
{
    if ps.len() == 0 {
        Seq::empty()
    } else {
        seq![44u8] + quoted(ps[0]) + rest_params(ps.drop_first())
    }
}

/// The comma-separated JSON texts of all params.
pub open spec fn joined_params(ps: Seq<Seq<char>>) -> Seq<u8> {
    if ps.len() == 0 {
        Seq::empty()
    } else {
        quoted(ps[0]) + rest_params(ps.drop_first())
    }
}

pub proof fn lemma_rest_params_snoc(ps: Seq<Seq<char>>, p: Seq<char>)
    ensures
        rest_params(ps.push(p)) == rest_params(ps) + seq![44u8] + quoted(p),
    decreases ps.len(),
{
    if ps.len() == 0 {
        let e = Seq::<Seq<char>>::empty();
        assert(rest_params(e) == Seq::<u8>::empty());
        assert(ps =~= e);
        assert(ps.push(p)[0] == p);
        assert(ps.push(p).drop_first() =~= e);
        assert(rest_params(ps.push(p)) == seq![44u8] + quoted(p) + rest_params(e));
        assert(rest_params(ps.push(p)) =~= rest_params(ps) + seq![44u8] + quoted(p));
    } else {
        lemma_rest_params_snoc(ps.drop_first(), p);
        assert(ps.push(p).drop_first() =~= ps.drop_first().push(p));
        assert(ps.push(p)[0] == ps[0]);
        assert(rest_params(ps.push(p)) == seq![44u8] + quoted(ps[0]) + rest_params(
            ps.drop_first().push(p),
        ));
        assert(rest_params(ps.push(p)) =~= rest_params(ps) + seq![44u8] + quoted(p));
    }
}

/// Appending one more param appends a separator (after the first) and
/// its quoted text.
pub proof fn lemma_joined_params_snoc(ps: Seq<Seq<char>>, p: Seq<char>)
    ensures
        ps.len() == 0 ==> joined_params(ps.push(p)) == quoted(p),
        ps.len() > 0 ==> joined_params(ps.push(p)) == joined_params(ps) + seq![44u8] + quoted(p),
{
    if ps.len() == 0 {
        let e = Seq::<Seq<char>>::empty();
        assert(rest_params(e) == Seq::<u8>::empty());
        assert(ps.push(p)[0] == p);
        assert(ps.push(p).drop_first() =~= e);
        assert(joined_params(ps.push(p)) =~= quoted(p));
    } else {
        lemma_rest_params_snoc(ps.drop_first(), p);
        assert(ps.push(p).drop_first() =~= ps.drop_first().push(p));
        assert(ps.push(p)[0] == ps[0]);
        assert(joined_params(ps.push(p)) =~= joined_params(ps) + seq![44u8] + quoted(p));
    }
}

/// The decimal digits of `n`, most significant first.
pub open spec fn dec_bytes(n: nat) -> Seq<u8>
    decreases n,
{
    if n < 10 {
        seq![(48 + n) as u8]
    } else {
        dec_bytes(n / 10) + seq![(48 + n % 10) as u8]
    }
}

/// The serialized JSON object of a request, without the newline.
pub open spec fn encoded_request(id: nat, method: Seq<char>, params: Seq<Seq<char>>) -> Seq<u8> {
    "{\"jsonrpc\":\"2.0\",\"id\":".spec_bytes() + dec_bytes(id) + ",\"method\":".spec_bytes()
        + quoted(method) + ",\"params\":[".spec_bytes() + joined_params(params)
        + "]}".spec_bytes()
}

/// The full frame of a request on the wire: its JSON object and the
/// terminating newline.
pub open spec fn encoded_request_line(id: nat, method: Seq<char>, params: Seq<Seq<char>>) -> Seq<
    u8,
> {
    encoded_request(id, method, params) + seq![NEWLINE]
}

/// Appends the UTF-8 bytes of `s` to `out`.
fn append_str(out: &mut Vec<u8>, s: &str)
    ensures
        final(out)@ == old(out)@ + s.spec_bytes(),
{
    let mut bv = s.as_bytes_vec();
    out.append(&mut bv);
}

/// Appends the escaped form of the UTF-8 bytes of `s` to `out`.
fn append_escaped(out: &mut Vec<u8>, s: &str)
    ensures
        final(out)@ == old(out)@ + escaped(s.spec_bytes()),
{
    let bs = s.as_bytes_vec();
    let ghost base = out@;
    let mut i: usize = 0;
    while i < bs.len()
        invariant
            0 <= i <= bs.len(),
            out@ == base + escaped(bs@.subrange(0, i as int)),
        decreases bs.len() - i,
    {
        let b = bs[i];
        let ghost pre = out@;
        if b == QUOTE {
            out.push(ESC);
            out.push(QUOTE);
        } else if b == ESC {
            out.push(ESC);
            out.push(ESC);
        } else if b == 8 {
            out.push(ESC);
            out.push(98);
        } else if b == 9 {
            out.push(ESC);
            out.push(116);
        } else if b == 10 {
            out.push(ESC);
            out.push(110);
        } else if b == 12 {
            out.push(ESC);
            out.push(102);
        } else if b == 13 {
            out.push(ESC);
            out.push(114);
        } else if b < 32 {
            out.push(ESC);
            out.push(117);
            out.push(48);
            out.push(48);
            let hi = b / 16;
            let lo = b % 16;
            out.push(if hi < 10 { 48 + hi } else { 87 + hi });
            out.push(if lo < 10 { 48 + lo } else { 87 + lo });
        } else {
            out.push(b);
        }
        proof {
            assert(out@ =~= pre + escape_byte(bs@[i as int]));
            lemma_escaped_append(bs@.subrange(0, i as int), seq![bs@[i as int]]);
            assert(bs@.subrange(0, i as int) + seq![bs@[i as int]] =~= bs@.subrange(
                0,
                i as int + 1,
            ));
            assert(seq![bs@[i as int]].drop_first() =~= Seq::<u8>::empty());
            assert(escaped(Seq::<u8>::empty()) == Seq::<u8>::empty());
            assert(escaped(seq![bs@[i as int]]) =~= escape_byte(bs@[i as int]));
        }
        i = i + 1;
    }
    proof {
        assert(bs@.subrange(0, bs@.len() as int) =~= bs@);
    }
}

/// Appends `"` escaped-contents `"` for `s` to `out`.
fn append_quoted(out: &mut Vec<u8>, s: &str)
    ensures
        final(out)@ == old(out)@ + quoted(s@),
{
    out.push(QUOTE);
    append_escaped(out, s);
    out.push(QUOTE);
    proof {
        assert(out@ =~= old(out)@ + quoted(s@));
    }
}

/// Appends the decimal digits of `n` to `out`.
fn append_dec(out: &mut Vec<u8>, n: usize)
    ensures
        final(out)@ == old(out)@ + dec_bytes(n as nat),
    decreases n,
{
    if n >= 10 {
        append_dec(out, n / 10);
    }
    out.push(48 + (n % 10) as u8);
    proof {
        assert(out@ =~= old(out)@ + dec_bytes(n as nat));
    }
}

/// Serializes a request to the single line of JSON-RPC 2.0 text that
/// the peer expects, terminated by a single newline byte.
pub fn encode_request_line(req: &QRequest) -> (r: Vec<u8>)
    ensures
        r@ == encoded_request_line(req.id as nat, req.method@, req.params.deep_view()),
{
    let ghost ps = req.params.deep_view();
    let mut out: Vec<u8> = Vec::new();
    append_str(&mut out, "{\"jsonrpc\":\"2.0\",\"id\":");
    append_dec(&mut out, req.id);
    append_str(&mut out, ",\"method\":");
    append_quoted(&mut out, req.method.as_str());
    append_str(&mut out, ",\"params\":[");
    let ghost before_params = out@;
    let mut i: usize = 0;
    while i < req.params.len()
        invariant
            0 <= i <= req.params.len(),
            ps == req.params.deep_view(),
            ps.len() == req.params.len(),
            forall|j: int| 0 <= j < ps.len() ==> ps[j] == req.params[j]@,
            out@ == before_params + joined_params(ps.subrange(0, i as int)),
        decreases req.params.len() - i,
    {
        let ghost pre = out@;
        if i > 0 {
            out.push(44);
        }
        append_quoted(&mut out, req.params[i].as_str());
        proof {
            lemma_joined_params_snoc(ps.subrange(0, i as int), ps[i as int]);
            assert(ps.subrange(0, i as int).push(ps[i as int]) =~= ps.subrange(0, i as int + 1));
            if i > 0 {
                assert(out@ =~= pre + seq![44u8] + quoted(ps[i as int]));
            } else {
                assert(out@ =~= pre + quoted(ps[i as int]));
            }
        }
        i = i + 1;
    }
    proof {
        assert(ps.subrange(0, ps.len() as int) =~= ps);
    }
    append_str(&mut out, "]}");
    out.push(NEWLINE);
    proof {
        assert(out@ =~= encoded_request_line(req.id as nat, req.method@, ps));
    }
    out
}

} // verus!
