//! The tool-exec shim's protocol: form encoding of requests, the proxy URL, the
//! request heads and chunked framing, and the reading of response headers, chunk
//! lines and trailers into an exit code.
use vstd::prelude::*;

use crate::escape::strings_view;
use vstd::string::StringSliceAdditionalSpecFns;
use crate::text::{
    char_pos, char_pos_exec, lemma_char_pos, lower_spec, parse_u64, parse_u64_spec, push_chars, slice_to_vec,
    str_chars, string_from_chars, to_lower, trim, trim_spec, dec_spec, starts_with_spec, usize_to_string,
};

verus! {

/// Upper-case hexadecimal digit.
pub open spec fn hex_upper(d: nat) -> char {
    if d < 10 {
        (('0' as u32) + d) as char
    } else {
        (('A' as u32) + (d - 10)) as char
    }
}

/// A byte kept as it is in a form component.
pub open spec fn unreserved(b: u8) -> bool {
    (48 <= b <= 57) || (65 <= b <= 90) || (97 <= b <= 122) || b == 45 || b == 95 || b == 46 || b == 126
}

/// One byte of `application/x-www-form-urlencoded`: space as `+`, unreserved bytes
/// as themselves, anything else as `%XX`.
pub open spec fn enc_byte(b: u8) -> Seq<char> {
    if b == 32 {
        seq!['+']
    } else if unreserved(b) {
        seq![(b as u32) as char]
    } else {
        seq!['%', hex_upper((b / 16) as nat), hex_upper((b % 16) as nat)]
    }
}

pub open spec fn urlencode_bytes(bs: Seq<u8>) -> Seq<char>
    decreases bs.len(),
{
    if bs.len() == 0 {
        seq![]
    } else {
        urlencode_bytes(bs.drop_last()) + enc_byte(bs.last())
    }
}

/// Form encoding of a string's UTF-8 bytes.
pub open spec fn urlencode_spec(s: Seq<char>) -> Seq<char> {
    urlencode_bytes(vstd::utf8::encode_utf8(s))
}

/// A character that cannot split a form body: not `&`, `=` or a space.
pub open spec fn form_safe(c: char) -> bool {
    c != '&' && c != '=' && c != ' '
}

proof fn lemma_urlencode_bytes_safe(bs: Seq<u8>)
    ensures
        forall|i: int| 0 <= i < urlencode_bytes(bs).len() ==> form_safe(#[trigger] urlencode_bytes(bs)[i]),
    decreases bs.len(),
{
    if bs.len() > 0 {
        lemma_urlencode_bytes_safe(bs.drop_last());
        let a = urlencode_bytes(bs.drop_last());
        let e = enc_byte(bs.last());
        let b = bs.last();
        assert forall|i: int| 0 <= i < e.len() implies form_safe(#[trigger] e[i]) by {
            if b != 32 && !unreserved(b) {
                assert(hex_upper((b / 16) as nat) != '&');
                assert(hex_upper((b % 16) as nat) != '&');
            }
        }
        assert forall|i: int| 0 <= i < urlencode_bytes(bs).len() implies form_safe(#[trigger] urlencode_bytes(bs)[i]) by {
            if i < a.len() {
                assert(urlencode_bytes(bs)[i] == a[i]);
            } else {
                assert(urlencode_bytes(bs)[i] == e[i - a.len()]);
            }
        }
    }
}

/// An encoded component never holds `&`, `=` or a space, so form fields built from
/// such components cannot run into each other.
pub proof fn lemma_urlencode_form_safe(s: Seq<char>)
    ensures
        forall|i: int| 0 <= i < urlencode_spec(s).len() ==> form_safe(#[trigger] urlencode_spec(s)[i]),
{
    lemma_urlencode_bytes_safe(vstd::utf8::encode_utf8(s));
}

fn hex_upper_exec(d: u8) -> (c: char)
    requires
        d < 16,
    ensures
        c == hex_upper(d as nat),
{
    if d < 10 {
        (48u8 + d) as char
    } else {
        (65u8 + (d - 10)) as char
    }
}

pub fn urlencode_component(s: &str) -> (out: String)
    ensures
        out@ == urlencode_spec(s@),
        forall|i: int| 0 <= i < out@.len() ==> form_safe(#[trigger] out@[i]),
{
    proof {
        lemma_urlencode_form_safe(s@);
    }
    let bs = s.as_bytes();
    let mut out = String::new();
    let mut i: usize = 0;
    while i < bs.len()
        invariant
            i <= bs@.len(),
            bs@ == s.spec_bytes(),
            out@ == urlencode_bytes(bs@.take(i as int)),
        decreases bs@.len() - i,
    {
        assert(bs@.take(i + 1).drop_last() =~= bs@.take(i as int));
        let b = bs[i];
        let ghost before = out@;
        if b == 32 {
            out.push('+');
        } else if (48 <= b && b <= 57) || (65 <= b && b <= 90) || (97 <= b && b <= 122) || b == 45 || b == 95 || b == 46
            || b == 126 {
            out.push(b as char);
        } else {
            out.push('%');
            out.push(hex_upper_exec(b / 16));
            out.push(hex_upper_exec(b % 16));
        }
        assert(out@ =~= before + enc_byte(b));
        i = i + 1;
    }
    assert(bs@.take(bs@.len() as int) =~= bs@);
    out
}

/// `k=v` pairs, both sides encoded, joined by `&`.
pub open spec fn form_body_spec(parts: Seq<(String, String)>) -> Seq<char>
    decreases parts.len(),
{
    if parts.len() == 0 {
        seq![]
    } else if parts.len() == 1 {
        urlencode_spec(parts[0].0@) + "="@ + urlencode_spec(parts[0].1@)
    } else {
        form_body_spec(parts.drop_last()) + "&"@ + urlencode_spec(parts.last().0@) + "="@ + urlencode_spec(
            parts.last().1@,
        )
    }
}

/// The body of an exec request from its form parts (`tool`, `cwd`, `arg`...).
pub fn form_body(parts: &Vec<(String, String)>) -> (body: String)
    ensures
        body@ == form_body_spec(parts@),
{
    let mut body = String::new();
    let mut i: usize = 0;
    while i < parts.len()
        invariant
            i <= parts@.len(),
            body@ == form_body_spec(parts@.take(i as int)),
        decreases parts@.len() - i,
    {
        assert(parts@.take(i + 1).drop_last() =~= parts@.take(i as int));
        if i > 0 {
            body.push_str("&");
        }
        body.push_str(urlencode_component(parts[i].0.as_str()).as_str());
        body.push_str("=");
        body.push_str(urlencode_component(parts[i].1.as_str()).as_str());
        i = i + 1;
    }
    assert(parts@.take(parts@.len() as int) =~= parts@);
    body
}

pub open spec fn notify_args_spec(args: Seq<String>) -> Seq<char>
    decreases args.len(),
{
    if args.len() == 0 {
        seq![]
    } else {
        notify_args_spec(args.drop_last()) + "&arg="@ + urlencode_spec(args.last()@)
    }
}

/// The body of a notify request: `cmd=<cmd>` then `&arg=<arg>` for each argument.
pub open spec fn notify_body_spec(cmd: Seq<char>, args: Seq<String>) -> Seq<char> {
    "cmd="@ + urlencode_spec(cmd) + notify_args_spec(args)
}

pub fn notify_body(cmd: &str, args: &Vec<String>) -> (body: String)
    ensures
        body@ == notify_body_spec(cmd@, args@),
{
    let mut body = "cmd=".to_owned();
    body.push_str(urlencode_component(cmd).as_str());
    let ghost head = body@;
    let mut i: usize = 0;
    while i < args.len()
        invariant
            i <= args@.len(),
            body@ == head + notify_args_spec(args@.take(i as int)),
        decreases args@.len() - i,
    {
        assert(args@.take(i + 1).drop_last() =~= args@.take(i as int));
        body.push_str("&arg=");
        body.push_str(urlencode_component(args[i].as_str()).as_str());
        i = i + 1;
    }
    assert(args@.take(args@.len() as int) =~= args@);
    body
}

/// Every leading `http://` removed (`trim_start_matches`).
pub open spec fn strip_http(s: Seq<char>) -> Seq<char>
    decreases s.len(),
{
    if starts_with_spec(s, "http://"@) && "http://"@.len() > 0 {
        strip_http(s.skip("http://"@.len() as int))
    } else {
        s
    }
}

fn strip_http_exec(cs: &Vec<char>) -> (out: Vec<char>)
    ensures
        out@ == strip_http(cs@),
{
    let pre = str_chars("http://");
    proof {
        reveal_strlit("http://");
    }
    let n = cs.len();
    let mut k: usize = 0;
    assert(cs@.skip(0) =~= cs@);
    while crate::text::match_at_exec(cs.as_slice(), pre.as_slice(), k)
        invariant
            k <= n,
            n == cs@.len(),
            pre@ == "http://"@,
            pre@.len() == 7,
            strip_http(cs@) == strip_http(cs@.skip(k as int)),
        decreases n - k,
    {
        assert(cs@.skip(k as int).subrange(0, 7) =~= cs@.subrange(k as int, k + 7));
        assert(cs@.skip(k as int).skip(7) =~= cs@.skip(k + 7));
        assert(k + 7 <= n);
        k = k + 7;
    }
    proof {
        if cs@.skip(k as int).len() >= 7 {
            assert(cs@.skip(k as int).subrange(0, 7) =~= cs@.subrange(k as int, k + 7));
        }
    }
    let v = slice_to_vec(cs.as_slice(), k, n);
    assert(v@ =~= cs@.skip(k as int));
    v
}

/// `str::parse::<u16>`.
pub open spec fn parse_u16_spec(s: Seq<char>) -> Option<u16> {
    match parse_u64_spec(s) {
        Some(v) => if v <= 65535 {
            Some(v as u16)
        } else {
            None
        },
        None => None,
    }
}

/// Host, port and path of an `http://host[:port][/path]` proxy URL: the port
/// defaults to 80 (also when it does not parse), the path to `/exec`.
pub open spec fn http_target_spec(url: Seq<char>) -> (Seq<char>, u16, Seq<char>) {
    let rest = strip_http(url);
    let idx = char_pos(rest, '/', 0);
    let host_port = rest.take(idx);
    let path = if idx >= rest.len() {
        "/exec"@
    } else {
        rest.skip(idx)
    };
    let c = char_pos(host_port, ':', 0);
    if c < host_port.len() {
        let port = match parse_u16_spec(host_port.skip(c + 1)) {
            Some(p) => p,
            None => 80,
        };
        (host_port.take(c), port, path)
    } else {
        (host_port, 80, path)
    }
}

pub fn http_target(url: &str) -> (r: (String, u16, String))
    ensures
        (r.0@, r.1, r.2@) == http_target_spec(url@),
{
    let cs = str_chars(url);
    let rest = strip_http_exec(&cs);
    proof {
        lemma_char_pos(rest@, '/', 0);
    }
    let idx = char_pos_exec(rest.as_slice(), '/', 0);
    let host_port = slice_to_vec(rest.as_slice(), 0, idx);
    let path: String = if idx >= rest.len() {
        "/exec".to_owned()
    } else {
        let p = slice_to_vec(rest.as_slice(), idx, rest.len());
        assert(p@ =~= rest@.skip(idx as int));
        string_from_chars(p.as_slice())
    };
    proof {
        lemma_char_pos(host_port@, ':', 0);
    }
    let c = char_pos_exec(host_port.as_slice(), ':', 0);
    if c < host_port.len() {
        let pc = slice_to_vec(host_port.as_slice(), c + 1, host_port.len());
        assert(pc@ =~= host_port@.skip(c + 1));
        let port: u16 = match parse_u64(pc.as_slice()) {
            Some(v) => if v <= 65535 {
                v as u16
            } else {
                80
            },
            None => 80,
        };
        let h = slice_to_vec(host_port.as_slice(), 0, c);
        assert(h@ =~= host_port@.take(c as int));
        (string_from_chars(h.as_slice()), port, path)
    } else {
        (string_from_chars(host_port.as_slice()), 80, path)
    }
}

/// The socket path of a `unix://` URL (every leading `unix://` removed).
pub open spec fn strip_unix(s: Seq<char>) -> Seq<char>
    decreases s.len(),
{
    if starts_with_spec(s, "unix://"@) && "unix://"@.len() > 0 {
        strip_unix(s.skip("unix://"@.len() as int))
    } else {
        s
    }
}

pub fn unix_socket_path(url: &str) -> (s: String)
    ensures
        s@ == strip_unix(url@),
{
    let cs = str_chars(url);
    let pre = str_chars("unix://");
    proof {
        reveal_strlit("unix://");
    }
    let n = cs.len();
    let mut k: usize = 0;
    assert(cs@.skip(0) =~= cs@);
    while crate::text::match_at_exec(cs.as_slice(), pre.as_slice(), k)
        invariant
            k <= n,
            n == cs@.len(),
            pre@ == "unix://"@,
            pre@.len() == 7,
            strip_unix(cs@) == strip_unix(cs@.skip(k as int)),
        decreases n - k,
    {
        assert(cs@.skip(k as int).subrange(0, 7) =~= cs@.subrange(k as int, k + 7));
        assert(cs@.skip(k as int).skip(7) =~= cs@.skip(k + 7));
        assert(k + 7 <= n);
        k = k + 7;
    }
    proof {
        if cs@.skip(k as int).len() >= 7 {
            assert(cs@.skip(k as int).subrange(0, 7) =~= cs@.subrange(k as int, k + 7));
        }
    }
    let v = slice_to_vec(cs.as_slice(), k, n);
    assert(v@ =~= cs@.skip(k as int));
    string_from_chars(v.as_slice())
}

/// Head of the chunked exec request.
pub open spec fn exec_head_spec(path: Seq<char>, host: Seq<char>, token: Seq<char>, exec_id: Seq<char>) -> Seq<char> {
    "POST "@ + path + " HTTP/1.1\r\n"@ + "Host: "@ + host + "\r\n"@ + "Authorization: Bearer "@ + token + "\r\n"@
        + "X-Aifo-Proto: 2\r\n"@ + "TE: trailers\r\n"@ + "Content-Type: application/x-www-form-urlencoded\r\n"@
        + "Transfer-Encoding: chunked\r\n"@ + "X-Aifo-Exec-Id: "@ + exec_id + "\r\n"@ + "Connection: close\r\n"@
        + "\r\n"@
}

pub fn exec_request_head(path: &str, host: &str, token: &str, exec_id: &str) -> (s: String)
    ensures
        s@ == exec_head_spec(path@, host@, token@, exec_id@),
{
    let mut s = "POST ".to_owned();
    s.push_str(path);
    s.push_str(" HTTP/1.1\r\n");
    s.push_str("Host: ");
    s.push_str(host);
    s.push_str("\r\n");
    s.push_str("Authorization: Bearer ");
    s.push_str(token);
    s.push_str("\r\n");
    s.push_str("X-Aifo-Proto: 2\r\n");
    s.push_str("TE: trailers\r\n");
    s.push_str("Content-Type: application/x-www-form-urlencoded\r\n");
    s.push_str("Transfer-Encoding: chunked\r\n");
    s.push_str("X-Aifo-Exec-Id: ");
    s.push_str(exec_id);
    s.push_str("\r\n");
    s.push_str("Connection: close\r\n");
    s.push_str("\r\n");
    s
}

/// Head of a request with a body of `len` bytes to `path` (`/notify` with the
/// client header, `/signal` without).
pub open spec fn sized_head_spec(path: Seq<char>, client: bool, host: Seq<char>, token: Seq<char>, len: nat) -> Seq<char> {
    "POST "@ + path + " HTTP/1.1\r\n"@ + "Host: "@ + host + "\r\n"@ + "Authorization: Bearer "@ + token + "\r\n"@
        + "X-Aifo-Proto: 2\r\n"@ + (if client {
        "X-Aifo-Client: rust-shim-native\r\n"@
    } else {
        seq![]
    }) + "Content-Type: application/x-www-form-urlencoded\r\n"@ + "Content-Length: "@ + dec_spec(len) + "\r\n"@
        + "Connection: close\r\n"@ + "\r\n"@
}

fn sized_head(path: &str, client: bool, host: &str, token: &str, len: usize) -> (s: String)
    ensures
        s@ == sized_head_spec(path@, client, host@, token@, len as nat),
{
    let mut s = "POST ".to_owned();
    s.push_str(path);
    s.push_str(" HTTP/1.1\r\n");
    s.push_str("Host: ");
    s.push_str(host);
    s.push_str("\r\n");
    s.push_str("Authorization: Bearer ");
    s.push_str(token);
    s.push_str("\r\n");
    s.push_str("X-Aifo-Proto: 2\r\n");
    if client {
        s.push_str("X-Aifo-Client: rust-shim-native\r\n");
    }
    s.push_str("Content-Type: application/x-www-form-urlencoded\r\n");
    s.push_str("Content-Length: ");
    s.push_str(usize_to_string(len).as_str());
    s.push_str("\r\n");
    s.push_str("Connection: close\r\n");
    s.push_str("\r\n");
    proof {
        reveal_strlit("X-Aifo-Client: rust-shim-native\r\n");
    }
    s
}

/// Head of the notify request for a body of `len` bytes.
pub fn notify_request_head(host: &str, token: &str, len: usize) -> (s: String)
    ensures
        s@ == sized_head_spec("/notify"@, true, host@, token@, len as nat),
{
    sized_head("/notify", true, host, token, len)
}

/// Head of the signal request for a body of `len` bytes.
pub fn signal_request_head(host: &str, token: &str, len: usize) -> (s: String)
    ensures
        s@ == sized_head_spec("/signal"@, false, host@, token@, len as nat),
{
    sized_head("/signal", false, host, token, len)
}

/// The signal body (not encoded).
pub fn signal_body(exec_id: &str, signal: &str) -> (s: String)
    ensures
        s@ == "exec_id="@ + exec_id@ + "&signal="@ + signal@,
{
    let mut s = "exec_id=".to_owned();
    s.push_str(exec_id);
    s.push_str("&signal=");
    s.push_str(signal);
    s
}

/// Upper-case hexadecimal rendering of a natural number (`{:X}`).
pub open spec fn hex_upper_spec(n: nat) -> Seq<char>
    decreases n,
{
    if n < 16 {
        seq![hex_upper(n)]
    } else {
        hex_upper_spec(n / 16).push(hex_upper(n % 16))
    }
}

fn hex_upper_exec_str(n: usize) -> (s: Vec<char>)
    ensures
        s@ == hex_upper_spec(n as nat),
    decreases n,
{
    if n < 16 {
        let mut v: Vec<char> = Vec::new();
        v.push(hex_upper_exec(n as u8));
        v
    } else {
        let mut v = hex_upper_exec_str(n / 16);
        v.push(hex_upper_exec((n % 16) as u8));
        v
    }
}

/// The chunked framing of a body in pieces of 8192 bytes, with the final empty chunk.
pub open spec fn chunked_spec(body: Seq<u8>) -> Seq<u8>
    decreases body.len(),
{
    if body.len() == 0 {
        "0\r\n\r\n"@.map_values(|c: char| c as u8)
    } else {
        let n = if body.len() < 8192 {
            body.len()
        } else {
            8192
        };
        hex_upper_spec(n).map_values(|c: char| c as u8) + "\r\n"@.map_values(|c: char| c as u8) + body.take(n as int)
            + "\r\n"@.map_values(|c: char| c as u8) + chunked_spec(body.skip(n as int))
    }
}

/// The chunked request body.
pub fn chunked_request_body(body: &[u8]) -> (out: Vec<u8>)
    ensures
        out@ == chunked_spec(body@),
{
    let mut out: Vec<u8> = Vec::new();
    let mut ofs: usize = 0;
    proof {
        reveal_strlit("\r\n");
        reveal_strlit("0\r\n\r\n");
        assert(body@.skip(0) =~= body@);
    }
    while ofs < body.len()
        invariant
            ofs <= body@.len(),
            "\r\n"@ == seq!['\r', '\n'],
            "0\r\n\r\n"@ == seq!['0', '\r', '\n', '\r', '\n'],
            out@ + chunked_spec(body@.skip(ofs as int)) == chunked_spec(body@),
        decreases body@.len() - ofs,
    {
        let ghost before = out@;
        let rest_len = body.len() - ofs;
        let n: usize = if rest_len < 8192 {
            rest_len
        } else {
            8192
        };
        let hs = hex_upper_exec_str(n);
        let mut k: usize = 0;
        while k < hs.len()
            invariant
                k <= hs@.len(),
                hs@ == hex_upper_spec(n as nat),
                out@ == before + hs@.take(k as int).map_values(|c: char| c as u8),
            decreases hs@.len() - k,
        {
            out.push(hs[k] as u8);
            assert(hs@.take(k + 1).map_values(|c: char| c as u8) =~= hs@.take(k as int).map_values(|c: char| c as u8).push(
                hs@[k as int] as u8,
            ));
            k = k + 1;
        }
        assert(hs@.take(hs@.len() as int) =~= hs@);
        out.push(13u8);
        out.push(10u8);
        let mut j: usize = 0;
        let ghost mid = out@;
        let blen = body.len();
        while j < n
            invariant
                j <= n,
                blen == body@.len(),
                ofs + n <= blen,
                out@ == mid + body@.subrange(ofs as int, ofs + j),
            decreases n - j,
        {
            assert(ofs + j < blen);
            out.push(body[ofs + j]);
            assert(body@.subrange(ofs as int, ofs + j + 1) =~= body@.subrange(ofs as int, ofs + j).push(body@[ofs + j]));
            j = j + 1;
        }
        out.push(13u8);
        out.push(10u8);
        proof {
            let t = body@.skip(ofs as int);
            assert(t.take(n as int) =~= body@.subrange(ofs as int, ofs + n));
            assert(t.skip(n as int) =~= body@.skip(ofs + n));
            assert("\r\n"@.map_values(|c: char| c as u8) =~= seq![13u8, 10u8]);
            assert(out@ =~= before + (hex_upper_spec(n as nat).map_values(|c: char| c as u8) + "\r\n"@.map_values(
                |c: char| c as u8,
            ) + t.take(n as int) + "\r\n"@.map_values(|c: char| c as u8)));
        }
        ofs = ofs + n;
    }
    out.push(48u8);
    out.push(13u8);
    out.push(10u8);
    out.push(13u8);
    out.push(10u8);
    proof {
        assert(body@.skip(ofs as int) =~= Seq::<u8>::empty());
        assert("0\r\n\r\n"@.map_values(|c: char| c as u8) =~= seq![48u8, 13u8, 10u8, 13u8, 10u8]);
    }
    out
}

/// `pat` occurs in `buf` at `i`.
pub open spec fn bytes_at(buf: Seq<u8>, pat: Seq<u8>, i: int) -> bool {
    0 <= i && i + pat.len() <= buf.len() && buf.subrange(i, i + pat.len()) == pat
}

/// First position of `pat` in `buf` at or after `i`.
pub open spec fn find_bytes(buf: Seq<u8>, pat: Seq<u8>, i: int) -> Option<int>
    decreases buf.len() + 1 - i,
{
    if i < 0 || i + pat.len() > buf.len() {
        None
    } else if bytes_at(buf, pat, i) {
        Some(i)
    } else {
        find_bytes(buf, pat, i + 1)
    }
}

fn bytes_at_exec(buf: &[u8], pat: &[u8], i: usize) -> (b: bool)
    ensures
        b == bytes_at(buf@, pat@, i as int),
{
    let n = buf.len();
    if i > n || pat.len() > n - i {
        return false;
    }
    let mut k: usize = 0;
    while k < pat.len()
        invariant
            n == buf@.len(),
            i + pat@.len() <= n,
            k <= pat@.len(),
            forall|j: int| 0 <= j < k ==> buf@[i + j] == pat@[j],
        decreases pat@.len() - k,
    {
        if buf[i + k] != pat[k] {
            assert(buf@.subrange(i as int, i + pat@.len())[k as int] != pat@[k as int]);
            return false;
        }
        k = k + 1;
    }
    assert(buf@.subrange(i as int, i + pat@.len()) =~= pat@);
    true
}

fn find_bytes_exec(buf: &[u8], pat: &[u8]) -> (r: Option<usize>)
    requires
        pat@.len() > 0,
    ensures
        match r {
            Some(i) => find_bytes(buf@, pat@, 0) == Some(i as int),
            None => find_bytes(buf@, pat@, 0) is None,
        },
{
    let n = buf.len();
    let m = pat.len();
    if m > n {
        return None;
    }
    let mut i: usize = 0;
    while i <= n - m
        invariant
            n == buf@.len(),
            m == pat@.len(),
            0 < m <= n,
            i <= n - m + 1,
            find_bytes(buf@, pat@, 0) == find_bytes(buf@, pat@, i as int),
        decreases n - m + 1 - i,
    {
        if bytes_at_exec(buf, pat, i) {
            return Some(i);
        }
        i = i + 1;
    }
    None
}

/// End of the response headers: after the first blank CRLF line, else after the
/// first blank LF line.
pub open spec fn header_end_spec(buf: Seq<u8>) -> Option<int> {
    match find_bytes(buf, seq![13u8, 10u8, 13u8, 10u8], 0) {
        Some(i) => Some(i + 4),
        None => match find_bytes(buf, seq![10u8, 10u8], 0) {
            Some(i) => Some(i + 2),
            None => None,
        },
    }
}

pub fn find_header_end(buf: &[u8]) -> (r: Option<usize>)
    ensures
        match r {
            Some(i) => header_end_spec(buf@) == Some(i as int),
            None => header_end_spec(buf@) is None,
        },
{
    let crlf2: [u8; 4] = [13u8, 10u8, 13u8, 10u8];
    let lf2: [u8; 2] = [10u8, 10u8];
    assert(crlf2@ =~= seq![13u8, 10u8, 13u8, 10u8]);
    assert(lf2@ =~= seq![10u8, 10u8]);
    proof {
        lemma_find_bytes_bound(buf@, seq![13u8, 10u8, 13u8, 10u8], 0);
        lemma_find_bytes_bound(buf@, seq![10u8, 10u8], 0);
    }
    let n = buf.len();
    match find_bytes_exec(buf, crlf2.as_slice()) {
        Some(i) => {
            assert(i + 4 <= n);
            Some(i + 4)
        },
        None => match find_bytes_exec(buf, lf2.as_slice()) {
            Some(i) => {
                assert(i + 2 <= n);
                Some(i + 2)
            },
            None => None,
        },
    }
}

/// A pattern found from `i` on lies inside the buffer, at or after `i`.
pub proof fn lemma_find_bytes_bound(buf: Seq<u8>, pat: Seq<u8>, i: int)
    ensures
        find_bytes(buf, pat, i) matches Some(k) ==> i <= k && k + pat.len() <= buf.len(),
    decreases buf.len() + 1 - i,
{
    if !(i < 0 || i + pat.len() > buf.len()) && !bytes_at(buf, pat, i) {
        lemma_find_bytes_bound(buf, pat, i + 1);
    }
}

/// `str::parse::<i32>`: an optional sign, then one or more decimal digits, in range.
pub open spec fn parse_i32_spec(s: Seq<char>) -> Option<i32> {
    let neg = s.len() > 0 && s[0] == '-';
    let body = if s.len() > 0 && (s[0] == '-' || s[0] == '+') {
        s.drop_first()
    } else {
        s
    };
    if body.len() == 0 || !crate::text::all_digits(body) {
        None
    } else {
        let v = crate::text::digits_value(body) as int;
        let x = if neg {
            -v
        } else {
            v
        };
        if i32::MIN <= x <= i32::MAX {
            Some(x as i32)
        } else {
            None
        }
    }
}

pub fn parse_i32(s: &[char]) -> (r: Option<i32>)
    ensures
        r == parse_i32_spec(s@),
{
    let n = s.len();
    let neg = n > 0 && s[0] == '-';
    let start: usize = if n > 0 && (s[0] == '-' || s[0] == '+') {
        1
    } else {
        0
    };
    let body = slice_to_vec(s, start, n);
    proof {
        if start == 1 {
            assert(body@ =~= s@.drop_first());
        } else {
            assert(body@ =~= s@);
        }
    }
    if body.len() == 0 || body[0] == '+' {
        proof {
            if body@.len() > 0 {
                assert(!crate::text::is_digit(body@[0]));
            }
        }
        return None;
    }
    match parse_u64(body.as_slice()) {
        Some(v) => {
            if neg {
                if v <= 2147483648 {
                    Some((0i64 - (v as i64)) as i32)
                } else {
                    None
                }
            } else if v <= 2147483647 {
                Some(v as i32)
            } else {
                None
            }
        },
        None => None,
    }
}

/// A header or trailer line `X-Exit-Code: <n>` (name in any ASCII case, after trimming)
/// and its value when it parses.
pub open spec fn exit_code_line(line: Seq<char>) -> Option<i32> {
    let l = trim_spec(line);
    if starts_with_spec(lower_spec(l), "x-exit-code:"@) {
        parse_i32_spec(trim_spec(l.skip(12)))
    } else {
        None
    }
}

fn exit_code_line_exec(line: &[char]) -> (r: Option<i32>)
    ensures
        r == exit_code_line(line@),
{
    let l = trim(line);
    let ll = to_lower(l.as_slice());
    let pre = str_chars("x-exit-code:");
    proof {
        reveal_strlit("x-exit-code:");
    }
    if crate::text::starts_with(ll.as_slice(), pre.as_slice()) {
        let n = l.len();
        let v = slice_to_vec(l.as_slice(), 12, n);
        assert(v@ =~= l@.skip(12));
        let t = trim(v.as_slice());
        parse_i32(t.as_slice())
    } else {
        None
    }
}

/// A header line announcing chunked transfer encoding.
pub open spec fn chunked_line(line: Seq<char>) -> bool {
    let ll = lower_spec(trim_spec(line));
    starts_with_spec(ll, "transfer-encoding:"@) && crate::text::contains_spec(ll, "chunked"@)
}

/// What the response headers say: chunked or not, and the last exit code given.
pub open spec fn header_facts(ls: Seq<Seq<char>>) -> (bool, Option<i32>)
    decreases ls.len(),
{
    if ls.len() == 0 {
        (false, None)
    } else {
        let r = header_facts(ls.drop_last());
        let l = ls.last();
        if chunked_line(l) {
            (true, r.1)
        } else {
            match exit_code_line(l) {
                Some(c) => (r.0, Some(c)),
                None => r,
            }
        }
    }
}

/// Facts of the header text (decoded leniently from the header bytes).
pub fn parse_response_headers(header_text: &str) -> (r: (bool, Option<i32>))
    ensures
        r == header_facts(crate::text::lines_spec(header_text@)),
{
    let cs = str_chars(header_text);
    let ls = crate::text::lines(cs.as_slice());
    let mut chunked = false;
    let mut code: Option<i32> = None;
    let mut i: usize = 0;
    let pre = str_chars("transfer-encoding:");
    let ch = str_chars("chunked");
    while i < ls.len()
        invariant
            i <= ls@.len(),
            pre@ == "transfer-encoding:"@,
            ch@ == "chunked"@,
            crate::text::seqs_view(ls@) == crate::text::lines_spec(header_text@),
            (chunked, code) == header_facts(crate::text::seqs_view(ls@).take(i as int)),
        decreases ls@.len() - i,
    {
        assert(crate::text::seqs_view(ls@).take(i + 1).drop_last() =~= crate::text::seqs_view(ls@).take(i as int));
        assert(crate::text::seqs_view(ls@).take(i + 1).last() == ls@[i as int]@);
        let l = trim(ls[i].as_slice());
        let ll = to_lower(l.as_slice());
        if crate::text::starts_with(ll.as_slice(), pre.as_slice()) && crate::text::contains(ll.as_slice(), ch.as_slice()) {
            chunked = true;
        } else {
            match exit_code_line_exec(ls[i].as_slice()) {
                Some(c) => {
                    code = Some(c);
                },
                None => {},
            }
        }
        i = i + 1;
    }
    assert(crate::text::seqs_view(ls@).take(ls@.len() as int) =~= crate::text::seqs_view(ls@));
    (chunked, code)
}

/// Where the next line of a chunked response ends: at the first CRLF (dropping
/// both bytes), else at the first LF. `None` while no line end has arrived.
pub open spec fn line_split_spec(buf: Seq<u8>) -> Option<(int, int)> {
    match find_bytes(buf, seq![13u8, 10u8], 0) {
        Some(p) => Some((p, p + 2)),
        None => match find_bytes(buf, seq![10u8], 0) {
            Some(p) => Some((p, p + 1)),
            None => None,
        },
    }
}

/// The end of the next line and the bytes it takes with its terminator.
pub fn split_line(buf: &[u8]) -> (r: Option<(usize, usize)>)
    ensures
        match r {
            Some(p) => line_split_spec(buf@) == Some((p.0 as int, p.1 as int)) && p.1 <= buf@.len(),
            None => line_split_spec(buf@) is None,
        },
{
    let crlf: [u8; 2] = [13u8, 10u8];
    let lf: [u8; 1] = [10u8];
    assert(crlf@ =~= seq![13u8, 10u8]);
    assert(lf@ =~= seq![10u8]);
    proof {
        lemma_find_bytes_bound(buf@, seq![13u8, 10u8], 0);
        lemma_find_bytes_bound(buf@, seq![10u8], 0);
    }
    let n = buf.len();
    match find_bytes_exec(buf, crlf.as_slice()) {
        Some(p) => {
            assert(p + 2 <= n);
            Some((p, p + 2))
        },
        None => match find_bytes_exec(buf, lf.as_slice()) {
            Some(p) => {
                assert(p + 1 <= n);
                Some((p, p + 1))
            },
            None => None,
        },
    }
}

/// Calls `String::from_utf8`: the bytes as a string when they are valid UTF-8.
/// Stated: `Some` exactly for valid UTF-8, with the decoded characters.
#[verifier::external_body]
fn utf8_string(bytes: &[u8]) -> (r: Option<String>)
    ensures
        r is Some <==> vstd::utf8::valid_utf8(bytes@),
        r matches Some(s) ==> s@ == vstd::utf8::decode_utf8(bytes@),
{
    String::from_utf8(bytes.to_vec()).ok()
}

/// A line of a chunked response as text (`None` when it is not valid UTF-8, which
/// ends the reading).
pub fn line_text(line: &[u8]) -> (r: Option<String>)
    ensures
        r is Some <==> vstd::utf8::valid_utf8(line@),
        r matches Some(s) ==> s@ == vstd::utf8::decode_utf8(line@),
{
    utf8_string(line)
}

pub open spec fn is_hex(c: char) -> bool {
    ('0' <= c && c <= '9') || ('a' <= c && c <= 'f') || ('A' <= c && c <= 'F')
}

pub open spec fn hex_val(c: char) -> nat {
    if '0' <= c && c <= '9' {
        ((c as u32) - 48) as nat
    } else if 'a' <= c && c <= 'f' {
        ((c as u32) - 87) as nat
    } else {
        ((c as u32) - 55) as nat
    }
}

pub open spec fn hex_value(s: Seq<char>) -> nat
    decreases s.len(),
{
    if s.len() == 0 {
        0
    } else {
        hex_value(s.drop_last()) * 16 + hex_val(s.last())
    }
}

/// `usize::from_str_radix(s, 16)`: an optional `+`, then hexadecimal digits, in range.
pub open spec fn hex_body(s: Seq<char>) -> Seq<char> {
    if s.len() > 0 && s[0] == '+' {
        s.drop_first()
    } else {
        s
    }
}

pub open spec fn parse_hex_spec(s: Seq<char>) -> Option<usize> {
    let body = hex_body(s);
    if body.len() == 0 || !(forall|i: int| 0 <= i < body.len() ==> is_hex(#[trigger] body[i])) {
        None
    } else if hex_value(body) <= usize::MAX {
        Some(hex_value(body) as usize)
    } else {
        None
    }
}

proof fn lemma_hex_upper_digit(d: nat)
    requires
        d < 16,
    ensures
        is_hex(hex_upper(d)),
        hex_val(hex_upper(d)) == d,
{
}

/// The upper-case hexadecimal rendering is a non-empty run of hexadecimal digits
/// worth the number.
pub proof fn lemma_hex_upper_digits(n: nat)
    ensures
        hex_upper_spec(n).len() >= 1,
        forall|i: int| 0 <= i < hex_upper_spec(n).len() ==> is_hex(#[trigger] hex_upper_spec(n)[i]),
        hex_value(hex_upper_spec(n)) == n,
    decreases n,
{
    let h = hex_upper_spec(n);
    if n < 16 {
        lemma_hex_upper_digit(n);
        assert(h.drop_last() =~= Seq::<char>::empty());
        assert(h.last() == hex_upper(n));
        assert(hex_value(h.drop_last()) == 0);
        assert(hex_value(h) == hex_value(h.drop_last()) * 16 + hex_val(h.last()));
    } else {
        lemma_hex_upper_digits(n / 16);
        lemma_hex_upper_digit(n % 16);
        assert(h.drop_last() =~= hex_upper_spec(n / 16));
        assert(h.last() == hex_upper(n % 16));
        assert(hex_value(h) == hex_value(h.drop_last()) * 16 + hex_val(h.last()));
        assert((n / 16) * 16 + n % 16 == n) by (nonlinear_arith);
        assert forall|i: int| 0 <= i < h.len() implies is_hex(#[trigger] h[i]) by {
            if i < h.len() - 1 {
                assert(h[i] == hex_upper_spec(n / 16)[i]);
            }
        }
    }
}

/// A chunk size written in the request framing reads back as the same size.
pub proof fn lemma_chunk_size_round_trip(n: usize)
    ensures
        parse_hex_spec(hex_upper_spec(n as nat)) == Some(n),
{
    lemma_hex_upper_digits(n as nat);
    let h = hex_upper_spec(n as nat);
    assert(is_hex(h[0]));
    assert(hex_body(h) == h);
}

proof fn lemma_hex_value_mono(s: Seq<char>, k: int)
    requires
        0 <= k <= s.len(),
    ensures
        hex_value(s.take(k)) <= hex_value(s),
    decreases s.len() - k,
{
    if k < s.len() {
        lemma_hex_value_mono(s, k + 1);
        assert(s.take(k + 1).drop_last() =~= s.take(k));
    } else {
        assert(s.take(k) =~= s);
    }
}

fn parse_hex(s: &[char]) -> (r: Option<usize>)
    ensures
        r == parse_hex_spec(s@),
{
    let n = s.len();
    let start: usize = if n > 0 && s[0] == '+' {
        1
    } else {
        0
    };
    let body = slice_to_vec(s, start, n);
    proof {
        if start == 1 {
            assert(body@ =~= s@.drop_first());
        } else {
            assert(body@ =~= s@);
        }
    }
    if body.len() == 0 {
        return None;
    }
    let mut v: usize = 0;
    let mut i: usize = 0;
    assert(body@.take(0) =~= Seq::<char>::empty());
    while i < body.len()
        invariant
            i <= body@.len(),
            body@ == hex_body(s@),
            body@.len() > 0,
            v == hex_value(body@.take(i as int)),
            forall|j: int| 0 <= j < i ==> is_hex(#[trigger] body@[j]),
        decreases body@.len() - i,
    {
        let c = body[i];
        assert(body@.take(i + 1).drop_last() =~= body@.take(i as int));
        if !(('0' <= c && c <= '9') || ('a' <= c && c <= 'f') || ('A' <= c && c <= 'F')) {
            assert(!is_hex(body@[i as int]));
            assert(!(forall|j: int| 0 <= j < body@.len() ==> is_hex(#[trigger] body@[j])));
            return None;
        }
        let d: usize = if '0' <= c && c <= '9' {
            (c as u32 - 48) as usize
        } else if 'a' <= c && c <= 'f' {
            (c as u32 - 87) as usize
        } else {
            (c as u32 - 55) as usize
        };
        assert(d == hex_val(c));
        if v > (usize::MAX - d) / 16 {
            proof {
                lemma_hex_value_mono(body@, i + 1);
                assert(hex_value(body@.take(i + 1)) == v * 16 + d);
                assert(v * 16 + d > usize::MAX) by (nonlinear_arith)
                    requires
                        v > (usize::MAX - d) / 16,
                        d < 16,
                ;
                assert(forall|j: int| 0 <= j < body@.len() ==> is_hex(#[trigger] body@[j]) ==> true);
            }
            return None;
        }
        assert(v * 16 + d <= usize::MAX) by (nonlinear_arith)
            requires
                v <= (usize::MAX - d) / 16,
                d < 16,
        ;
        v = v * 16 + d;
        i = i + 1;
    }
    assert(body@.take(body@.len() as int) =~= body@);
    Some(v)
}

/// How a chunk-size line reads: blank (skipped), a size, or something that ends the
/// reading. The size is the hexadecimal number before any `;` extension.
pub enum ChunkLine {
    Blank,
    Size(usize),
    Stop,
}

pub open spec fn chunk_line_spec(line: Seq<char>) -> ChunkLine {
    let t = trim_spec(line);
    if t.len() == 0 {
        ChunkLine::Blank
    } else {
        match parse_hex_spec(t.take(char_pos(t, ';', 0))) {
            Some(n) => ChunkLine::Size(n),
            None => ChunkLine::Stop,
        }
    }
}

pub fn chunk_size_line(line: &str) -> (r: ChunkLine)
    ensures
        r == chunk_line_spec(line@),
{
    let cs = str_chars(line);
    let t = trim(cs.as_slice());
    if t.len() == 0 {
        return ChunkLine::Blank;
    }
    proof {
        lemma_char_pos(t@, ';', 0);
    }
    let k = char_pos_exec(t.as_slice(), ';', 0);
    let hex = slice_to_vec(t.as_slice(), 0, k);
    match parse_hex(hex.as_slice()) {
        Some(n) => ChunkLine::Size(n),
        None => ChunkLine::Stop,
    }
}

/// A trailer line: blank ends the trailers; `X-Exit-Code` gives the code.
pub enum TrailerLine {
    End,
    Exit(i32),
    Other,
}

pub open spec fn trailer_line_spec(line: Seq<char>) -> TrailerLine {
    if trim_spec(line).len() == 0 {
        TrailerLine::End
    } else {
        match exit_code_line(line) {
            Some(c) => TrailerLine::Exit(c),
            None => TrailerLine::Other,
        }
    }
}

pub fn trailer_line(line: &str) -> (r: TrailerLine)
    ensures
        r == trailer_line_spec(line@),
{
    let cs = str_chars(line);
    let t = trim(cs.as_slice());
    if t.len() == 0 {
        return TrailerLine::End;
    }
    match exit_code_line_exec(cs.as_slice()) {
        Some(c) => TrailerLine::Exit(c),
        None => TrailerLine::Other,
    }
}

/// The exit code of a native run from the code the server sent, if any: that code;
/// without one (the connection ended first), 1 when `AIFO_SHIM_EXIT_ZERO_ON_DISCONNECT`
/// is `0`, else 0.
pub open spec fn final_exit_spec(given: Option<i32>, env: Option<Seq<char>>) -> i32 {
    match given {
        Some(x) => x,
        None => if env == Some("0"@) {
            1
        } else {
            0
        },
    }
}

pub fn final_exit_code(given: Option<i32>, env: &Option<String>) -> (c: i32)
    ensures
        c == final_exit_spec(given, crate::proxy::opt_string_view(*env)),
{
    match given {
        Some(x) => x,
        None => {
            let opt_out = match env {
                Some(v) => crate::text::str_eq(v.as_str(), "0"),
                None => false,
            };
            if opt_out {
                1
            } else {
                0
            }
        },
    }
}

/// The exit code of a whole native run that ended without a forwarded signal: a
/// chunked response gives the code of its trailers, any other the code of its
/// headers; without a code the disconnect rule of `final_exit_spec` applies.
pub open spec fn native_exit_spec(
    header_text: Seq<char>,
    body: Seq<u8>,
    env: Option<Seq<char>>,
) -> i32 {
    let head = header_facts(crate::text::lines_spec(header_text));
    let code = if head.0 {
        crate::shim_body::dechunk(body, seq![]).1
    } else {
        head.1
    };
    final_exit_spec(code, env)
}

/// The exit code of a native run from the response's header text, the bytes that
/// followed the headers, and `AIFO_SHIM_EXIT_ZERO_ON_DISCONNECT`.
pub fn native_exit_code(header_text: &str, body: &[u8], env: &Option<String>) -> (c: i32)
    ensures
        c == native_exit_spec(header_text@, body@, crate::proxy::opt_string_view(*env)),
{
    let (chunked, header_code) = parse_response_headers(header_text);
    let code = if chunked {
        let (_out, trailer) = crate::shim_body::decode_chunked_body(body);
        trailer
    } else {
        header_code
    };
    final_exit_code(code, env)
}

/// The signal forwarded for the n-th Ctrl-C: INT, then TERM, then KILL.
pub fn signal_for_count(count: u32) -> (s: &'static str)
    requires
        count >= 1,
    ensures
        s@ == (if count == 1 {
            "INT"@
        } else if count == 2 {
            "TERM"@
        } else {
            "KILL"@
        }),
{
    if count == 1 {
        "INT"
    } else if count == 2 {
        "TERM"
    } else {
        "KILL"
    }
}

/// Exit code after forwarding a signal: 0 unless `AIFO_SHIM_EXIT_ZERO_ON_SIGINT` is
/// set to something other than `1`; then 130 (INT), 143 (TERM), 129 (HUP), 137 (KILL).
pub open spec fn signal_exit_spec(env: Option<Seq<char>>, sig: Seq<char>) -> i32 {
    let zero = match env {
        Some(v) => v == "1"@,
        None => true,
    };
    if zero {
        0
    } else if sig == "INT"@ {
        130
    } else if sig == "TERM"@ {
        143
    } else if sig == "HUP"@ {
        129
    } else {
        137
    }
}

pub fn signal_exit_code(env: &Option<String>, sig: &str) -> (c: i32)
    ensures
        c == signal_exit_spec(crate::proxy::opt_string_view(*env), sig@),
{
    let zero = match env {
        Some(v) => crate::text::str_eq(v.as_str(), "1"),
        None => true,
    };
    if zero {
        0
    } else if crate::text::str_eq(sig, "INT") {
        130
    } else if crate::text::str_eq(sig, "TERM") {
        143
    } else if crate::text::str_eq(sig, "HUP") {
        129
    } else {
        137
    }
}

/// Seconds to wait after a disconnect: `AIFO_SHIM_DISCONNECT_WAIT_SECS` (trimmed)
/// when it parses, else 3 in verbose mode and 1 otherwise.
pub open spec fn wait_secs_spec(env: Option<Seq<char>>, verbose: bool) -> u64 {
    let parsed = match env {
        Some(v) => parse_u64_spec(trim_spec(v)),
        None => None,
    };
    match parsed {
        Some(n) => n,
        None => if verbose {
            3
        } else {
            1
        },
    }
}

pub fn compute_wait_secs(env: &Option<String>, verbose: bool) -> (n: u64)
    ensures
        n == wait_secs_spec(crate::proxy::opt_string_view(*env), verbose),
{
    let parsed = match env {
        Some(v) => {
            let cs = str_chars(v.as_str());
            let t = trim(cs.as_slice());
            parse_u64(t.as_slice())
        },
        None => None,
    };
    match parsed {
        Some(n) => n,
        None => if verbose {
            3
        } else {
            1
        },
    }
}

/// Exit code in a notify response's header lines: the last line that begins (in
/// any ASCII case) with `x-exit-code:` and whose value parses; 1 when none does.
pub open spec fn notify_exit_spec(ls: Seq<Seq<char>>) -> i32
    decreases ls.len(),
{
    if ls.len() == 0 {
        1
    } else {
        let l = ls.last();
        if starts_with_spec(lower_spec(l), "x-exit-code:"@) && parse_i32_spec(trim_spec(l.skip(12))) is Some {
            parse_i32_spec(trim_spec(l.skip(12))).unwrap()
        } else {
            notify_exit_spec(ls.drop_last())
        }
    }
}

/// Where the headers of a complete notify response end (the whole buffer when no
/// blank line was found).
pub open spec fn notify_header_end(buf: Seq<u8>) -> int {
    match header_end_spec(buf) {
        Some(i) => i,
        None => buf.len() as int,
    }
}

/// A complete notify response: the exit code from its headers and where its body starts.
pub fn notify_response(buf: &[u8]) -> (r: (i32, usize))
    ensures
        r.1 as int == notify_header_end(buf@),
        r.0 == notify_exit_spec(crate::text::lines_spec(crate::git::utf8_lossy(buf@.take(r.1 as int)))),
{
    let end = match find_header_end(buf) {
        Some(i) => i,
        None => buf.len(),
    };
    proof {
        lemma_header_end_bound(buf@);
    }
    let head = crate::text::slice_u8(buf, 0, end);
    let text = crate::git::lossy_utf8(head.as_slice());
    let cs = str_chars(text.as_str());
    let ls = crate::text::lines(cs.as_slice());
    let pre = str_chars("x-exit-code:");
    proof {
        reveal_strlit("x-exit-code:");
    }
    let mut code: i32 = 1;
    let mut i: usize = 0;
    while i < ls.len()
        invariant
            i <= ls@.len(),
            pre@ == "x-exit-code:"@,
            pre@.len() == 12,
            code == notify_exit_spec(crate::text::seqs_view(ls@).take(i as int)),
        decreases ls@.len() - i,
    {
        assert(crate::text::seqs_view(ls@).take(i + 1).drop_last() =~= crate::text::seqs_view(ls@).take(i as int));
        assert(crate::text::seqs_view(ls@).take(i + 1).last() == ls@[i as int]@);
        let low = to_lower(ls[i].as_slice());
        if crate::text::starts_with(low.as_slice(), pre.as_slice()) {
            let n = ls[i].len();
            let v = slice_to_vec(ls[i].as_slice(), 12, n);
            assert(v@ =~= ls@[i as int]@.skip(12));
            let t = trim(v.as_slice());
            match parse_i32(t.as_slice()) {
                Some(c) => {
                    code = c;
                },
                None => {},
            }
        }
        i = i + 1;
    }
    assert(crate::text::seqs_view(ls@).take(ls@.len() as int) =~= crate::text::seqs_view(ls@));
    assert(head@ =~= buf@.take(end as int));
    (code, end)
}

proof fn lemma_header_end_bound(buf: Seq<u8>)
    ensures
        header_end_spec(buf) matches Some(i) ==> 0 <= i <= buf.len(),
{
    lemma_find_bytes_bound(buf, seq![13u8, 10u8, 13u8, 10u8], 0);
    lemma_find_bytes_bound(buf, seq![10u8, 10u8], 0);
}

/// The curl arguments that post a signal for an exec (the URL last): over the
/// socket of a `unix://` URL to `http://localhost/signal`, else to the proxy URL with
/// its last `/exec` replaced by `/signal`.
pub open spec fn signal_curl_args_spec(url: Seq<char>, token: Seq<char>, exec_id: Seq<char>, sig: Seq<char>) -> Seq<Seq<char>> {
    let head = seq![
        "-sS"@,
        "-X"@,
        "POST"@,
        "-H"@,
        "Authorization: Bearer "@ + token,
        "-H"@,
        "X-Aifo-Proto: 2"@,
        "-H"@,
        "Content-Type: application/x-www-form-urlencoded"@,
        "--data-urlencode"@,
        "exec_id="@ + exec_id,
        "--data-urlencode"@,
        "signal="@ + sig,
    ];
    if starts_with_spec(url, "unix://"@) {
        head + seq!["--unix-socket"@, strip_unix(url), "http://localhost/signal"@]
    } else {
        let base = match crate::text::find_last_spec(url, "/exec"@) {
            Some(i) => url.take(i),
            None => url,
        };
        head + seq![base + "/signal"@]
    }
}

pub fn signal_curl_args(url: &str, token: &str, exec_id: &str, sig: &str) -> (v: Vec<String>)
    ensures
        strings_view(v@) == signal_curl_args_spec(url@, token@, exec_id@, sig@),
{
    let mut auth = "Authorization: Bearer ".to_owned();
    auth.push_str(token);
    let mut eid = "exec_id=".to_owned();
    eid.push_str(exec_id);
    let mut sg = "signal=".to_owned();
    sg.push_str(sig);
    let mut v = vec![
        "-sS".to_owned(),
        "-X".to_owned(),
        "POST".to_owned(),
        "-H".to_owned(),
        auth,
        "-H".to_owned(),
        "X-Aifo-Proto: 2".to_owned(),
        "-H".to_owned(),
        "Content-Type: application/x-www-form-urlencoded".to_owned(),
        "--data-urlencode".to_owned(),
        eid,
        "--data-urlencode".to_owned(),
        sg,
    ];
    let ghost head = strings_view(v@);
    let cs = str_chars(url);
    let up = str_chars("unix://");
    if crate::text::starts_with(cs.as_slice(), up.as_slice()) {
        crate::escape::push_str_item(&mut v, "--unix-socket");
        crate::escape::push_string_item(&mut v, unix_socket_path(url));
        crate::escape::push_str_item(&mut v, "http://localhost/signal");
    } else {
        let ex = str_chars("/exec");
        proof {
            crate::text::lemma_find_last_bound(cs@, ex@);
        }
        let base: Vec<char> = match crate::text::find_last(cs.as_slice(), ex.as_slice()) {
            Some(i) => slice_to_vec(cs.as_slice(), 0, i),
            None => cs.clone(),
        };
        let mut u = string_from_chars(base.as_slice());
        u.push_str("/signal");
        crate::escape::push_string_item(&mut v, u);
    }
    assert(strings_view(v@) =~= signal_curl_args_spec(url@, token@, exec_id@, sig@));
    v
}

} // verus!
