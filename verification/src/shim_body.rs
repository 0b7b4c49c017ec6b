//! Reading a chunked exec response body: its chunks are copied out in order and
//! the `X-Exit-Code` trailer gives the exit code. The framing written for requests
//! reads back as the body it framed.
use vstd::prelude::*;

use crate::shim::{
    chunk_line_spec, chunk_size_line, chunked_spec, hex_upper_spec, line_split_spec, line_text, split_line,
    trailer_line, trailer_line_spec, ChunkLine, TrailerLine,
};
use crate::text::slice_u8;

verus! {

/// A line end found in a buffer lies inside it, after at least the line.
pub proof fn lemma_line_split_bounds(buf: Seq<u8>)
    ensures
        line_split_spec(buf) matches Some(p) ==> 0 <= p.0 < p.1 <= buf.len(),
{
    crate::shim::lemma_find_bytes_bound(buf, seq![13u8, 10u8], 0);
    crate::shim::lemma_find_bytes_bound(buf, seq![10u8], 0);
}

/// What follows a chunk: its CRLF (or LF) removed when present.
pub open spec fn drop_line_end(b: Seq<u8>) -> Seq<u8> {
    if b.len() >= 2 && b[0] == 13 && b[1] == 10 {
        b.skip(2)
    } else if b.len() >= 1 && b[0] == 10 {
        b.skip(1)
    } else {
        b
    }
}

/// The exit code given by the trailer lines at the start of `buf` (the last one that
/// parses, else `code`), up to the first blank line, the end of the buffer or a line
/// that is not UTF-8.
pub open spec fn trailer_code(buf: Seq<u8>, code: Option<i32>) -> Option<i32>
    decreases buf.len(),
{
    match line_split_spec(buf) {
        Some(p) => if vstd::utf8::valid_utf8(buf.take(p.0)) {
            proof {
                lemma_line_split_bounds(buf);
            }
            match trailer_line_spec(vstd::utf8::decode_utf8(buf.take(p.0))) {
                TrailerLine::End => code,
                TrailerLine::Exit(c) => trailer_code(buf.skip(p.1), Some(c)),
                TrailerLine::Other => trailer_code(buf.skip(p.1), code),
            }
        } else {
            code
        },
        None => code,
    }
}

/// The body read from a chunked response buffer (appended to `acc`) and the
/// trailer exit code: blank size lines are skipped, a size line that does not parse
/// ends the reading, the zero-size chunk leads to the trailers, and a chunk cut
/// short by the end of the buffer gives what arrived.
pub open spec fn dechunk(buf: Seq<u8>, acc: Seq<u8>) -> (Seq<u8>, Option<i32>)
    decreases buf.len(),
{
    match line_split_spec(buf) {
        Some(p) => if vstd::utf8::valid_utf8(buf.take(p.0)) {
            proof {
                lemma_line_split_bounds(buf);
            }
            let rest = buf.skip(p.1);
            match chunk_line_spec(vstd::utf8::decode_utf8(buf.take(p.0))) {
                ChunkLine::Blank => dechunk(rest, acc),
                ChunkLine::Stop => (acc, None),
                ChunkLine::Size(n) => if n == 0 {
                    (acc, trailer_code(rest, None))
                } else {
                    let k = if n <= rest.len() {
                        n as int
                    } else {
                        rest.len() as int
                    };
                    dechunk(drop_line_end(rest.skip(k)), acc + rest.take(k))
                },
            }
        } else {
            (acc, None)
        },
        None => (acc, None),
    }
}

fn drop_line_end_exec(b: &Vec<u8>) -> (r: Vec<u8>)
    ensures
        r@ == drop_line_end(b@),
{
    let n = b.len();
    if n >= 2 && b[0] == 13 && b[1] == 10 {
        slice_u8(b.as_slice(), 2, n)
    } else if n >= 1 && b[0] == 10 {
        slice_u8(b.as_slice(), 1, n)
    } else {
        slice_u8(b.as_slice(), 0, n)
    }
}

fn trailer_code_exec(buf: &Vec<u8>) -> (r: Option<i32>)
    ensures
        r == trailer_code(buf@, None),
{
    let mut cur = slice_u8(buf.as_slice(), 0, buf.len());
    let mut code: Option<i32> = None;
    assert(cur@ =~= buf@);
    loop
        invariant
            trailer_code(buf@, None) == trailer_code(cur@, code),
        decreases cur@.len(),
    {
        proof {
            lemma_line_split_bounds(cur@);
        }
        match split_line(cur.as_slice()) {
            None => {
                return code;
            },
            Some((e, n)) => {
                let line = slice_u8(cur.as_slice(), 0, e);
                assert(line@ =~= cur@.take(e as int));
                match line_text(line.as_slice()) {
                    None => {
                        return code;
                    },
                    Some(text) => {
                        let rest = slice_u8(cur.as_slice(), n, cur.len());
                        assert(rest@ =~= cur@.skip(n as int));
                        match trailer_line(text.as_str()) {
                            TrailerLine::End => {
                                return code;
                            },
                            TrailerLine::Exit(c) => {
                                code = Some(c);
                            },
                            TrailerLine::Other => {},
                        }
                        cur = rest;
                    },
                }
            },
        }
    }
}

/// Read a complete chunked response body (see `dechunk`): the body bytes and the
/// trailer exit code.
pub fn decode_chunked_body(buf: &[u8]) -> (r: (Vec<u8>, Option<i32>))
    ensures
        (r.0@, r.1) == dechunk(buf@, seq![]),
{
    let mut cur = slice_u8(buf, 0, buf.len());
    let mut out: Vec<u8> = Vec::new();
    assert(cur@ =~= buf@);
    loop
        invariant
            dechunk(buf@, seq![]) == dechunk(cur@, out@),
        decreases cur@.len(),
    {
        proof {
            lemma_line_split_bounds(cur@);
        }
        match split_line(cur.as_slice()) {
            None => {
                return (out, None);
            },
            Some((e, n)) => {
                let line = slice_u8(cur.as_slice(), 0, e);
                assert(line@ =~= cur@.take(e as int));
                match line_text(line.as_slice()) {
                    None => {
                        return (out, None);
                    },
                    Some(text) => {
                        let rest = slice_u8(cur.as_slice(), n, cur.len());
                        assert(rest@ =~= cur@.skip(n as int));
                        match chunk_size_line(text.as_str()) {
                            ChunkLine::Blank => {
                                cur = rest;
                            },
                            ChunkLine::Stop => {
                                return (out, None);
                            },
                            ChunkLine::Size(sz) => {
                                if sz == 0 {
                                    let code = trailer_code_exec(&rest);
                                    return (out, code);
                                }
                                let rl = rest.len();
                                let k = if sz <= rl {
                                    sz
                                } else {
                                    rl
                                };
                                let mut piece = slice_u8(rest.as_slice(), 0, k);
                                assert(piece@ =~= rest@.take(k as int));
                                let after = slice_u8(rest.as_slice(), k, rl);
                                assert(after@ =~= rest@.skip(k as int));
                                out.append(&mut piece);
                                cur = drop_line_end_exec(&after);
                            },
                        }
                    },
                }
            },
        }
    }
}

proof fn lemma_find_skip(buf: Seq<u8>, pat: Seq<u8>, i: int, j: int)
    requires
        0 <= i <= j,
        pat.len() > 0,
        forall|k: int| i <= k < j && k < buf.len() ==> buf[k] != pat[0],
    ensures
        crate::shim::find_bytes(buf, pat, i) == crate::shim::find_bytes(buf, pat, j),
    decreases j - i,
{
    if i < j {
        if !(i + pat.len() > buf.len()) {
            assert(buf.subrange(i, i + pat.len())[0] == buf[i]);
        }
        lemma_find_skip(buf, pat, i + 1, j);
    }
}

/// Bytes of an ASCII character sequence.
pub open spec fn ascii_bytes(s: Seq<char>) -> Seq<u8> {
    s.map_values(|c: char| c as u8)
}

proof fn lemma_ascii_decodes(s: Seq<char>)
    requires
        vstd::utf8::is_ascii_chars(s),
    ensures
        vstd::utf8::valid_utf8(ascii_bytes(s)),
        vstd::utf8::decode_utf8(ascii_bytes(s)) == s,
{
    vstd::utf8::is_ascii_chars_encode_utf8(s);
    assert(vstd::utf8::encode_utf8(s) =~= ascii_bytes(s));
    vstd::utf8::encode_utf8_valid_utf8(s);
    vstd::utf8::encode_utf8_decode_utf8(s);
}

proof fn lemma_hex_line(n: usize)
    ensures
        ({
            let h = hex_upper_spec(n as nat);
            &&& vstd::utf8::is_ascii_chars(h)
            &&& forall|i: int| 0 <= i < ascii_bytes(h).len() ==> #[trigger] ascii_bytes(h)[i] != 13u8
            &&& forall|i: int| 0 <= i < ascii_bytes(h).len() ==> #[trigger] ascii_bytes(h)[i] != 10u8
            &&& chunk_line_spec(h) == ChunkLine::Size(n)
        }),
{
    let h = hex_upper_spec(n as nat);
    crate::shim::lemma_hex_upper_digits(n as nat);
    crate::shim::lemma_chunk_size_round_trip(n);
    assert forall|i: int| 0 <= i < h.len() implies '\0' <= #[trigger] h[i] <= '\u{7f}' by {
        assert(crate::shim::is_hex(h[i]));
    }
    assert forall|i: int| 0 <= i < ascii_bytes(h).len() implies #[trigger] ascii_bytes(h)[i] != 13u8 && ascii_bytes(h)[i]
        != 10u8 by {
        assert(crate::shim::is_hex(h[i]));
        assert(ascii_bytes(h)[i] == h[i] as u8);
    }
    assert(!crate::text::is_ws(h[0])) by {
        assert(crate::shim::is_hex(h[0]));
    }
    assert(!crate::text::is_ws(h.last())) by {
        assert(crate::shim::is_hex(h[h.len() - 1]));
    }
    assert(crate::text::trim_start_spec(h) == h);
    assert(crate::text::trim_end_spec(h) == h);
    assert(crate::text::trim_spec(h) == h);
    crate::text::lemma_char_pos(h, ';', 0);
    if crate::text::char_pos(h, ';', 0) < h.len() {
        assert(crate::shim::is_hex(h[crate::text::char_pos(h, ';', 0)]));
    }
    assert(h.take(h.len() as int) =~= h);
}

/// The chunked framing of a body reads back as that body, with no exit code.
pub proof fn lemma_chunked_round_trip(body: Seq<u8>, acc: Seq<u8>)
    ensures
        dechunk(chunked_spec(body), acc) == (acc + body, None::<i32>),
    decreases body.len(),
{
    let buf = chunked_spec(body);
    let crlf = seq![13u8, 10u8];
    reveal_strlit("\r\n");
    reveal_strlit("0\r\n\r\n");
    assert("\r\n"@.map_values(|c: char| c as u8) =~= crlf);
    if body.len() == 0 {
        let b = "0\r\n\r\n"@.map_values(|c: char| c as u8);
        assert(buf == b);
        assert(b =~= seq![48u8, 13u8, 10u8, 13u8, 10u8]);
        assert(crate::shim::find_bytes(b, crlf, 1) == Some(1int)) by {
            assert(b.subrange(1, 3) =~= crlf);
        }
        assert(crate::shim::find_bytes(b, crlf, 0) == Some(1int)) by {
            assert(b.subrange(0, 2)[0] == 48u8);
        }
        let zero = seq!['0'];
        assert(vstd::utf8::is_ascii_chars(zero));
        lemma_ascii_decodes(zero);
        assert(ascii_bytes(zero) =~= b.take(1));
        lemma_hex_line(0);
        assert(hex_upper_spec(0) =~= zero);
        let rest = b.skip(3);
        assert(rest =~= crlf);
        assert(crate::shim::find_bytes(rest, crlf, 0) == Some(0int)) by {
            assert(rest.subrange(0, 2) =~= crlf);
        }
        assert(rest.take(0) =~= Seq::<u8>::empty());
        assert(vstd::utf8::valid_utf8(rest.take(0)));
        assert(vstd::utf8::decode_utf8(rest.take(0)) =~= Seq::<char>::empty());
        assert(crate::text::trim_start_spec(Seq::<char>::empty()) =~= Seq::<char>::empty());
        assert(crate::text::trim_spec(Seq::<char>::empty()).len() == 0);
        assert(trailer_code(rest, None) == None::<i32>);
        assert(acc + body =~= acc);
    } else {
        let n: usize = if body.len() < 8192 {
            body.len() as usize
        } else {
            8192usize
        };
        let h = hex_upper_spec(n as nat);
        let hb = ascii_bytes(h);
        assert(h.map_values(|c: char| c as u8) == hb);
        let data = body.take(n as int);
        let tail = chunked_spec(body.skip(n as int));
        assert(buf == hb + crlf + data + crlf + tail);
        lemma_hex_line(n);
        lemma_ascii_decodes(h);
        let m = hb.len() as int;
        assert forall|k: int| 0 <= k < m && k < buf.len() implies buf[k] != crlf[0] by {
            assert(buf[k] == hb[k]);
        }
        lemma_find_skip(buf, crlf, 0, m);
        assert(buf.subrange(m, m + 2) =~= crlf);
        assert(crate::shim::find_bytes(buf, crlf, m) == Some(m));
        assert(line_split_spec(buf) == Some((m, m + 2)));
        assert(buf.take(m) =~= hb);
        let rest = buf.skip(m + 2);
        assert(rest =~= data + crlf + tail);
        assert(rest.take(n as int) =~= data);
        assert(rest.skip(n as int) =~= crlf + tail);
        assert(drop_line_end(crlf + tail) =~= tail);
        lemma_chunked_round_trip(body.skip(n as int), acc + data);
        assert(acc + data + body.skip(n as int) =~= acc + body);
    }
}

} // verus!
