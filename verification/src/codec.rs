use vstd::prelude::*;
use crate::decimal::{is_digit, push_dec, read_digits_u64, spec_all_digits, spec_dec,
    spec_digits_val};
use crate::logs::{LogEntry, LogEntryView};
use crate::status::{NetworkInfo, NetworkInfoView, ServerStatus, StatusView};
use crate::text::{chars_to_string, str_to_chars};

verus! {

// ---------------------------------------------------------------------------
// The wire format, as specification functions.
//
// A record travels as one object in field order, numbers in decimal, absent
// options as `null`, and strings quoted with `\` and `"` escaped.
// ---------------------------------------------------------------------------

/// One character as it appears inside a quoted string.
pub open spec fn spec_escape_char(c: char) -> Seq<char> {
    if c == '\\' || c == '"' {
        seq!['\\', c]
    } else {
        seq![c]
    }
}

/// A string's characters as they appear inside quotes.
pub open spec fn spec_escape(s: Seq<char>) -> Seq<char>
    decreases s.len(),
{
    if s.len() == 0 {
        Seq::empty()
    } else {
        spec_escape_char(s[0]) + spec_escape(s.skip(1))
    }
}

pub open spec fn spec_bool_text(b: bool) -> Seq<char> {
    if b {
        "true"@
    } else {
        "false"@
    }
}

pub open spec fn spec_opt_u32_text(p: Option<u32>) -> Seq<char> {
    match p {
        None => "null"@,
        Some(n) => spec_dec(n as nat),
    }
}

/// The wire text of a status record.
pub open spec fn spec_encode_status(v: StatusView) -> Seq<char> {
    "{\"running\":"@ + spec_bool_text(v.running) + ",\"port\":"@ + spec_dec(v.port as nat)
        + ",\"pid\":"@ + spec_opt_u32_text(v.pid) + ",\"health_url\":\""@ + spec_escape(
        v.health_url,
    ) + "\",\"external\":"@ + spec_bool_text(v.external) + "}"@
}

/// The wire text of a log record.
pub open spec fn spec_encode_log_entry(v: LogEntryView) -> Seq<char> {
    "{\"timestamp\":\""@ + spec_escape(v.timestamp) + "\",\"level\":\""@ + spec_escape(v.level)
        + "\",\"message\":\""@ + spec_escape(v.message) + "\"}"@
}

/// The wire text of a network report.
pub open spec fn spec_encode_network_info(v: NetworkInfoView) -> Seq<char> {
    "{\"ip\":\""@ + spec_escape(v.ip) + "\",\"port\":"@ + spec_dec(v.port as nat) + "}"@
}

// ---------------------------------------------------------------------------
// Encoding.
// ---------------------------------------------------------------------------

/// Escaping distributes over concatenation.
proof fn lemma_escape_concat(a: Seq<char>, b: Seq<char>)
    ensures
        spec_escape(a + b) == spec_escape(a) + spec_escape(b),
    decreases a.len(),
{
    if a.len() == 0 {
        assert(a + b =~= b);
        assert(spec_escape(a) + spec_escape(b) =~= spec_escape(b));
    } else {
        assert((a + b)[0] == a[0]);
        assert((a + b).skip(1) =~= a.skip(1) + b);
        lemma_escape_concat(a.skip(1), b);
        assert(spec_escape(a + b) =~= spec_escape(a) + spec_escape(b));
    }
}

fn push_str_chars(out: &mut Vec<char>, s: &str)
    ensures
        final(out)@ == old(out)@ + s@,
{
    let v = str_to_chars(s);
    let n = v.len();
    let mut i: usize = 0;
    while i < n
        invariant
            n == v@.len(),
            v@ == s@,
            i <= n,
            out@ == old(out)@ + s@.take(i as int),
        decreases n - i,
    {
        out.push(v[i]);
        assert(out@ =~= old(out)@ + s@.take((i + 1) as int));
        i = i + 1;
    }
    assert(old(out)@ + s@.take(n as int) =~= old(out)@ + s@);
}

fn push_escaped(out: &mut Vec<char>, s: &str)
    ensures
        final(out)@ == old(out)@ + spec_escape(s@),
{
    let v = str_to_chars(s);
    let n = v.len();
    let mut i: usize = 0;
    while i < n
        invariant
            n == v@.len(),
            v@ == s@,
            i <= n,
            out@ == old(out)@ + spec_escape(s@.take(i as int)),
        decreases n - i,
    {
        let c = v[i];
        if c == '\\' || c == '"' {
            out.push('\\');
            out.push(c);
        } else {
            out.push(c);
        }
        proof {
            let g = s@[i as int];
            let one = seq![g];
            assert(s@.take((i + 1) as int) =~= s@.take(i as int) + one);
            lemma_escape_concat(s@.take(i as int), one);
            assert(one[0] == g);
            assert(one.skip(1) =~= Seq::<char>::empty());
            assert(spec_escape(Seq::<char>::empty()) == Seq::<char>::empty());
            assert(spec_escape(one) == spec_escape_char(g) + spec_escape(Seq::<char>::empty()));
            assert(spec_escape(one) =~= spec_escape_char(g));
            assert(spec_escape(s@.take((i + 1) as int)) == spec_escape(s@.take(i as int))
                + spec_escape_char(g));
            assert(out@ =~= (old(out)@ + spec_escape(s@.take(i as int))) + spec_escape_char(g));
            assert(out@ =~= old(out)@ + spec_escape(s@.take((i + 1) as int)));
        }
        i = i + 1;
    }
    proof {
        assert(s@.take(n as int) =~= s@);
    }
}

fn push_bool(out: &mut Vec<char>, b: bool)
    ensures
        final(out)@ == old(out)@ + spec_bool_text(b),
{
    if b {
        push_str_chars(out, "true");
    } else {
        push_str_chars(out, "false");
    }
}

/// The wire text of a status record.
pub fn encode_server_status(s: &ServerStatus) -> (r: String)
    ensures
        r@ == spec_encode_status(s@),
{
    let mut out: Vec<char> = Vec::new();
    push_str_chars(&mut out, "{\"running\":");
    push_bool(&mut out, s.running);
    push_str_chars(&mut out, ",\"port\":");
    push_dec(s.port as u64, &mut out);
    push_str_chars(&mut out, ",\"pid\":");
    match s.pid {
        None => push_str_chars(&mut out, "null"),
        Some(n) => push_dec(n as u64, &mut out),
    }
    push_str_chars(&mut out, ",\"health_url\":\"");
    push_escaped(&mut out, s.health_url.as_str());
    push_str_chars(&mut out, "\",\"external\":");
    push_bool(&mut out, s.external);
    push_str_chars(&mut out, "}");
    assert(out@ =~= spec_encode_status(s@));
    chars_to_string(&out)
}

/// The wire text of a log record.
pub fn encode_log_entry(e: &LogEntry) -> (r: String)
    ensures
        r@ == spec_encode_log_entry(e@),
{
    let mut out: Vec<char> = Vec::new();
    push_str_chars(&mut out, "{\"timestamp\":\"");
    push_escaped(&mut out, e.timestamp.as_str());
    push_str_chars(&mut out, "\",\"level\":\"");
    push_escaped(&mut out, e.level.as_str());
    push_str_chars(&mut out, "\",\"message\":\"");
    push_escaped(&mut out, e.message.as_str());
    push_str_chars(&mut out, "\"}");
    assert(out@ =~= spec_encode_log_entry(e@));
    chars_to_string(&out)
}

/// The wire text of a network report.
pub fn encode_network_info(n: &NetworkInfo) -> (r: String)
    ensures
        r@ == spec_encode_network_info(n@),
{
    let mut out: Vec<char> = Vec::new();
    push_str_chars(&mut out, "{\"ip\":\"");
    push_escaped(&mut out, n.ip.as_str());
    push_str_chars(&mut out, "\",\"port\":");
    push_dec(n.port as u64, &mut out);
    push_str_chars(&mut out, "}");
    assert(out@ =~= spec_encode_network_info(n@));
    chars_to_string(&out)
}

// ---------------------------------------------------------------------------
// Decoding, as specification functions.
// ---------------------------------------------------------------------------

/// Position after a fixed text at `p`, when it is there.
pub open spec fn sp_lit(s: Seq<char>, p: int, lit: Seq<char>) -> Option<int> {
    if 0 <= p && p + lit.len() <= s.len() && s.subrange(p, p + lit.len()) == lit {
        Some(p + lit.len())
    } else {
        None
    }
}

/// End of the digit run that starts at `p`.
pub open spec fn sp_digits_end(s: Seq<char>, p: int) -> int
    decreases s.len() - p,
{
    if 0 <= p < s.len() && is_digit(s[p]) {
        sp_digits_end(s, p + 1)
    } else {
        p
    }
}

/// A number at `p`: the digit run, read as a `u32`.
pub open spec fn sp_u32(s: Seq<char>, p: int) -> Option<(u32, int)> {
    let e = sp_digits_end(s, p);
    if e > p && spec_digits_val(s.subrange(p, e)) <= u32::MAX {
        Some((spec_digits_val(s.subrange(p, e)) as u32, e))
    } else {
        None
    }
}

/// A number at `p` that must fit a port.
pub open spec fn sp_u16(s: Seq<char>, p: int) -> Option<(u16, int)> {
    match sp_u32(s, p) {
        Some((n, q)) => if n <= 65535 {
            Some((n as u16, q))
        } else {
            None
        },
        None => None,
    }
}

pub open spec fn sp_bool(s: Seq<char>, p: int) -> Option<(bool, int)> {
    match sp_lit(s, p, "true"@) {
        Some(q) => Some((true, q)),
        None => match sp_lit(s, p, "false"@) {
            Some(q) => Some((false, q)),
            None => None,
        },
    }
}

pub open spec fn sp_pid(s: Seq<char>, p: int) -> Option<(Option<u32>, int)> {
    match sp_lit(s, p, "null"@) {
        Some(q) => Some((None, q)),
        None => match sp_u32(s, p) {
            Some((n, q)) => Some((Some(n), q)),
            None => None,
        },
    }
}

/// A quoted string's remainder from `p` (the opening quote already read):
/// the characters up to the closing quote, escapes undone, and the position
/// after that quote.
pub open spec fn sp_string(s: Seq<char>, p: int) -> Option<(Seq<char>, int)>
    decreases s.len() - p,
{
    if p < 0 || p >= s.len() {
        None
    } else if s[p] == '"' {
        Some((Seq::empty(), p + 1))
    } else if s[p] == '\\' {
        if p + 1 < s.len() {
            match sp_string(s, p + 2) {
                Some((t, e)) => Some((seq![s[p + 1]] + t, e)),
                None => None,
            }
        } else {
            None
        }
    } else {
        match sp_string(s, p + 1) {
            Some((t, e)) => Some((seq![s[p]] + t, e)),
            None => None,
        }
    }
}

/// The status record a wire text holds, when it is exactly one.
pub open spec fn spec_decode_status(s: Seq<char>) -> Option<StatusView> {
    match sp_lit(s, 0, "{\"running\":"@) {
        None => None,
        Some(p1) => match sp_bool(s, p1) {
            None => None,
            Some((running, p2)) => match sp_lit(s, p2, ",\"port\":"@) {
                None => None,
                Some(p3) => match sp_u16(s, p3) {
                    None => None,
                    Some((port, p4)) => match sp_lit(s, p4, ",\"pid\":"@) {
                        None => None,
                        Some(p5) => match sp_pid(s, p5) {
                            None => None,
                            Some((pid, p6)) => match sp_lit(s, p6, ",\"health_url\":\""@) {
                                None => None,
                                Some(p7) => match sp_string(s, p7) {
                                    None => None,
                                    Some((url, p8)) => match sp_lit(s, p8, ",\"external\":"@) {
                                        None => None,
                                        Some(p9) => match sp_bool(s, p9) {
                                            None => None,
                                            Some((external, p10)) => match sp_lit(s, p10, "}"@) {
                                                None => None,
                                                Some(p11) => if p11 == s.len() {
                                                    Some(
                                                        StatusView {
                                                            running,
                                                            port,
                                                            pid,
                                                            health_url: url,
                                                            external,
                                                        },
                                                    )
                                                } else {
                                                    None
                                                },
                                            },
                                        },
                                    },
                                },
                            },
                        },
                    },
                },
            },
        },
    }
}

/// The log record a wire text holds, when it is exactly one.
pub open spec fn spec_decode_log_entry(s: Seq<char>) -> Option<LogEntryView> {
    match sp_lit(s, 0, "{\"timestamp\":\""@) {
        None => None,
        Some(p1) => match sp_string(s, p1) {
            None => None,
            Some((timestamp, p2)) => match sp_lit(s, p2, ",\"level\":\""@) {
                None => None,
                Some(p3) => match sp_string(s, p3) {
                    None => None,
                    Some((level, p4)) => match sp_lit(s, p4, ",\"message\":\""@) {
                        None => None,
                        Some(p5) => match sp_string(s, p5) {
                            None => None,
                            Some((message, p6)) => match sp_lit(s, p6, "}"@) {
                                None => None,
                                Some(p7) => if p7 == s.len() {
                                    Some(LogEntryView { timestamp, level, message })
                                } else {
                                    None
                                },
                            },
                        },
                    },
                },
            },
        },
    }
}

/// The network report a wire text holds, when it is exactly one.
pub open spec fn spec_decode_network_info(s: Seq<char>) -> Option<NetworkInfoView> {
    match sp_lit(s, 0, "{\"ip\":\""@) {
        None => None,
        Some(p1) => match sp_string(s, p1) {
            None => None,
            Some((ip, p2)) => match sp_lit(s, p2, ",\"port\":"@) {
                None => None,
                Some(p3) => match sp_u16(s, p3) {
                    None => None,
                    Some((port, p4)) => match sp_lit(s, p4, "}"@) {
                        None => None,
                        Some(p5) => if p5 == s.len() {
                            Some(NetworkInfoView { ip, port })
                        } else {
                            None
                        },
                    },
                },
            },
        },
    }
}

// ---------------------------------------------------------------------------
// Decoding, executable.
// ---------------------------------------------------------------------------

fn expect_lit(v: &Vec<char>, p: usize, lit: &str) -> (r: Option<usize>)
    requires
        p <= v@.len(),
    ensures
        match r {
            Some(q) => sp_lit(v@, p as int, lit@) == Some(q as int) && p <= q <= v@.len(),
            None => sp_lit(v@, p as int, lit@) is None,
        },
{
    let l = str_to_chars(lit);
    let m = l.len();
    let n = v.len();
    if m > n - p {
        return None;
    }
    let mut j: usize = 0;
    while j < m
        invariant
            p + m <= n == v@.len(),
            m == lit@.len(),
            l@ == lit@,
            j <= m,
            forall|k: int| 0 <= k < j ==> v@[p + k] == lit@[k],
        decreases m - j,
    {
        if v[p + j] != l[j] {
            assert(v@.subrange(p as int, p + m as int)[j as int] != lit@[j as int]);
            return None;
        }
        j = j + 1;
    }
    assert(v@.subrange(p as int, p + m as int) =~= lit@);
    Some(p + m)
}

fn parse_bool_at(v: &Vec<char>, p: usize) -> (r: Option<(bool, usize)>)
    requires
        p <= v@.len(),
    ensures
        match r {
            Some(bq) => sp_bool(v@, p as int) == Some((bq.0, bq.1 as int)) && bq.1 <= v@.len(),
            None => sp_bool(v@, p as int) is None,
        },
{
    match expect_lit(v, p, "true") {
        Some(q) => Some((true, q)),
        None => match expect_lit(v, p, "false") {
            Some(q) => Some((false, q)),
            None => None,
        },
    }
}

proof fn lemma_digits_end_at(s: Seq<char>, p: int, e: int)
    requires
        0 <= p <= e <= s.len(),
        forall|j: int| p <= j < e ==> is_digit(#[trigger] s[j]),
        e == s.len() || !is_digit(s[e]),
    ensures
        sp_digits_end(s, p) == e,
    decreases e - p,
{
    if p < e {
        lemma_digits_end_at(s, p + 1, e);
    }
}

fn parse_u32_at(v: &Vec<char>, p: usize) -> (r: Option<(u32, usize)>)
    requires
        p <= v@.len(),
    ensures
        match r {
            Some(nq) => sp_u32(v@, p as int) == Some((nq.0, nq.1 as int)) && nq.1 <= v@.len(),
            None => sp_u32(v@, p as int) is None,
        },
{
    let n = v.len();
    let mut e: usize = p;
    while e < n && '0' <= v[e] && v[e] <= '9'
        invariant
            p <= e <= n == v@.len(),
            forall|j: int| p <= j < e ==> is_digit(#[trigger] v@[j]),
        decreases n - e,
    {
        e = e + 1;
    }
    proof {
        lemma_digits_end_at(v@, p as int, e as int);
    }
    if e == p {
        return None;
    }
    assert(spec_all_digits(v@.subrange(p as int, e as int))) by {
        assert(forall|j: int|
            0 <= j < e - p ==> v@.subrange(p as int, e as int)[j] == v@[p + j] && is_digit(
                #[trigger] v@.subrange(p as int, e as int)[j],
            ));
    }
    match read_digits_u64(v, p, e) {
        Some(x) => {
            if x <= 0xFFFF_FFFFu64 {
                Some((x as u32, e))
            } else {
                None
            }
        },
        None => None,
    }
}

fn parse_u16_at(v: &Vec<char>, p: usize) -> (r: Option<(u16, usize)>)
    requires
        p <= v@.len(),
    ensures
        match r {
            Some(nq) => sp_u16(v@, p as int) == Some((nq.0, nq.1 as int)) && nq.1 <= v@.len(),
            None => sp_u16(v@, p as int) is None,
        },
{
    match parse_u32_at(v, p) {
        Some((n, q)) => {
            if n <= 65535 {
                Some((n as u16, q))
            } else {
                None
            }
        },
        None => None,
    }
}

fn parse_pid_at(v: &Vec<char>, p: usize) -> (r: Option<(Option<u32>, usize)>)
    requires
        p <= v@.len(),
    ensures
        match r {
            Some(nq) => sp_pid(v@, p as int) == Some((nq.0, nq.1 as int)) && nq.1 <= v@.len(),
            None => sp_pid(v@, p as int) is None,
        },
{
    match expect_lit(v, p, "null") {
        Some(q) => Some((None, q)),
        None => match parse_u32_at(v, p) {
            Some((n, q)) => Some((Some(n), q)),
            None => None,
        },
    }
}

fn parse_string_at(v: &Vec<char>, p: usize) -> (r: Option<(Vec<char>, usize)>)
    requires
        p <= v@.len(),
    ensures
        match r {
            Some(te) => sp_string(v@, p as int) == Some((te.0@, te.1 as int)) && p < te.1
                <= v@.len(),
            None => sp_string(v@, p as int) is None,
        },
    decreases v@.len() - p,
{
    let n = v.len();
    if p == n {
        return None;
    }
    let c = v[p];
    if c == '"' {
        let t: Vec<char> = Vec::new();
        assert(t@ =~= Seq::<char>::empty());
        Some((t, p + 1))
    } else if c == '\\' {
        if p + 1 < n {
            match parse_string_at(v, p + 2) {
                Some((t, e)) => {
                    let mut t2 = t;
                    t2.insert(0, v[p + 1]);
                    assert(t2@ =~= seq![v@[p + 1]] + t@);
                    Some((t2, e))
                },
                None => None,
            }
        } else {
            None
        }
    } else {
        match parse_string_at(v, p + 1) {
            Some((t, e)) => {
                let mut t2 = t;
                t2.insert(0, c);
                assert(t2@ =~= seq![v@[p as int]] + t@);
                Some((t2, e))
            },
            None => None,
        }
    }
}

/// Reads a status record back from its wire text. Exactly the texts that
/// `spec_decode_status` accepts yield a value.
pub fn decode_server_status(s: &str) -> (r: Option<ServerStatus>)
    ensures
        match r {
            Some(st) => spec_decode_status(s@) == Some(st@),
            None => spec_decode_status(s@) is None,
        },
{
    let v = str_to_chars(s);
    let p1 = match expect_lit(&v, 0, "{\"running\":") {
        Some(q) => q,
        None => {
            return None;
        },
    };
    let (running, p2) = match parse_bool_at(&v, p1) {
        Some(x) => x,
        None => {
            return None;
        },
    };
    let p3 = match expect_lit(&v, p2, ",\"port\":") {
        Some(q) => q,
        None => {
            return None;
        },
    };
    let (port, p4) = match parse_u16_at(&v, p3) {
        Some(x) => x,
        None => {
            return None;
        },
    };
    let p5 = match expect_lit(&v, p4, ",\"pid\":") {
        Some(q) => q,
        None => {
            return None;
        },
    };
    let (pid, p6) = match parse_pid_at(&v, p5) {
        Some(x) => x,
        None => {
            return None;
        },
    };
    let p7 = match expect_lit(&v, p6, ",\"health_url\":\"") {
        Some(q) => q,
        None => {
            return None;
        },
    };
    let (url, p8) = match parse_string_at(&v, p7) {
        Some(x) => x,
        None => {
            return None;
        },
    };
    let p9 = match expect_lit(&v, p8, ",\"external\":") {
        Some(q) => q,
        None => {
            return None;
        },
    };
    let (external, p10) = match parse_bool_at(&v, p9) {
        Some(x) => x,
        None => {
            return None;
        },
    };
    let p11 = match expect_lit(&v, p10, "}") {
        Some(q) => q,
        None => {
            return None;
        },
    };
    if p11 != v.len() {
        return None;
    }
    let st = ServerStatus {
        running,
        port,
        pid,
        health_url: chars_to_string(&url),
        external,
    };
    Some(st)
}

/// Reads a log record back from its wire text.
pub fn decode_log_entry(s: &str) -> (r: Option<LogEntry>)
    ensures
        match r {
            Some(e) => spec_decode_log_entry(s@) == Some(e@),
            None => spec_decode_log_entry(s@) is None,
        },
{
    let v = str_to_chars(s);
    let p1 = match expect_lit(&v, 0, "{\"timestamp\":\"") {
        Some(q) => q,
        None => {
            return None;
        },
    };
    let (timestamp, p2) = match parse_string_at(&v, p1) {
        Some(x) => x,
        None => {
            return None;
        },
    };
    let p3 = match expect_lit(&v, p2, ",\"level\":\"") {
        Some(q) => q,
        None => {
            return None;
        },
    };
    let (level, p4) = match parse_string_at(&v, p3) {
        Some(x) => x,
        None => {
            return None;
        },
    };
    let p5 = match expect_lit(&v, p4, ",\"message\":\"") {
        Some(q) => q,
        None => {
            return None;
        },
    };
    let (message, p6) = match parse_string_at(&v, p5) {
        Some(x) => x,
        None => {
            return None;
        },
    };
    let p7 = match expect_lit(&v, p6, "}") {
        Some(q) => q,
        None => {
            return None;
        },
    };
    if p7 != v.len() {
        return None;
    }
    Some(
        LogEntry {
            timestamp: chars_to_string(&timestamp),
            level: chars_to_string(&level),
            message: chars_to_string(&message),
        },
    )
}

/// Reads a network report back from its wire text.
pub fn decode_network_info(s: &str) -> (r: Option<NetworkInfo>)
    ensures
        match r {
            Some(n) => spec_decode_network_info(s@) == Some(n@),
            None => spec_decode_network_info(s@) is None,
        },
{
    let v = str_to_chars(s);
    let p1 = match expect_lit(&v, 0, "{\"ip\":\"") {
        Some(q) => q,
        None => {
            return None;
        },
    };
    let (ip, p2) = match parse_string_at(&v, p1) {
        Some(x) => x,
        None => {
            return None;
        },
    };
    let p3 = match expect_lit(&v, p2, ",\"port\":") {
        Some(q) => q,
        None => {
            return None;
        },
    };
    let (port, p4) = match parse_u16_at(&v, p3) {
        Some(x) => x,
        None => {
            return None;
        },
    };
    let p5 = match expect_lit(&v, p4, "}") {
        Some(q) => q,
        None => {
            return None;
        },
    };
    if p5 != v.len() {
        return None;
    }
    Some(NetworkInfo { ip: chars_to_string(&ip), port })
}

// ---------------------------------------------------------------------------
// Round trips: decoding an encoding gives back every field exactly.
// ---------------------------------------------------------------------------

proof fn lemma_sp_lit_at(s: Seq<char>, p: int, lit: Seq<char>)
    requires
        0 <= p,
        p + lit.len() <= s.len(),
        s.subrange(p, p + lit.len()) == lit,
    ensures
        sp_lit(s, p, lit) == Some(p + lit.len()),
{
}

proof fn lemma_sp_u32_at(s: Seq<char>, p: int, n: u32)
    requires
        0 <= p,
        p + spec_dec(n as nat).len() <= s.len(),
        s.subrange(p, p + spec_dec(n as nat).len()) == spec_dec(n as nat),
        p + spec_dec(n as nat).len() == s.len() || !is_digit(s[p + spec_dec(n as nat).len()]),
    ensures
        sp_u32(s, p) == Some((n, p + spec_dec(n as nat).len())),
{
    let d = spec_dec(n as nat);
    crate::decimal::lemma_spec_dec_len(n as nat);
    crate::decimal::lemma_spec_dec_digits(n as nat);
    assert(forall|j: int| p <= j < p + d.len() ==> is_digit(#[trigger] s[j])) by {
        assert(forall|j: int|
            p <= j < p + d.len() ==> s[j] == s.subrange(p, p + d.len())[j - p]);
    }
    lemma_digits_end_at(s, p, p + d.len());
    crate::decimal::lemma_dec_val(n as nat);
    assert(spec_digits_val(s.subrange(p, p + d.len())) == n as nat);
}

proof fn lemma_sp_u16_at(s: Seq<char>, p: int, n: u16)
    requires
        0 <= p,
        p + spec_dec(n as nat).len() <= s.len(),
        s.subrange(p, p + spec_dec(n as nat).len()) == spec_dec(n as nat),
        p + spec_dec(n as nat).len() == s.len() || !is_digit(s[p + spec_dec(n as nat).len()]),
    ensures
        sp_u16(s, p) == Some((n, p + spec_dec(n as nat).len())),
{
    lemma_sp_u32_at(s, p, n as u32);
}

proof fn lemma_sp_bool_at(s: Seq<char>, p: int, b: bool)
    requires
        0 <= p,
        p + spec_bool_text(b).len() <= s.len(),
        s.subrange(p, p + spec_bool_text(b).len()) == spec_bool_text(b),
    ensures
        sp_bool(s, p) == Some((b, p + spec_bool_text(b).len())),
{
    reveal_strlit("true");
    reveal_strlit("false");
    if b {
        lemma_sp_lit_at(s, p, "true"@);
    } else {
        lemma_sp_lit_at(s, p, "false"@);
        assert(s[p] == s.subrange(p, p + 5)[0]);
        assert(s[p] == 'f');
        if sp_lit(s, p, "true"@) is Some {
            assert(s.subrange(p, p + 4) == "true"@);
            assert(s[p] == s.subrange(p, p + 4)[0]);
            assert(false);
        }
    }
}

proof fn lemma_sp_pid_at(s: Seq<char>, p: int, pid: Option<u32>)
    requires
        0 <= p,
        p + spec_opt_u32_text(pid).len() <= s.len(),
        s.subrange(p, p + spec_opt_u32_text(pid).len()) == spec_opt_u32_text(pid),
        p + spec_opt_u32_text(pid).len() == s.len() || !is_digit(
            s[p + spec_opt_u32_text(pid).len()],
        ),
    ensures
        sp_pid(s, p) == Some((pid, p + spec_opt_u32_text(pid).len())),
{
    reveal_strlit("null");
    match pid {
        None => {
            lemma_sp_lit_at(s, p, "null"@);
        },
        Some(n) => {
            crate::decimal::lemma_spec_dec_len(n as nat);
            crate::decimal::lemma_spec_dec_digits(n as nat);
            assert(s[p] == s.subrange(p, p + spec_dec(n as nat).len())[0]);
            assert(is_digit(s[p]));
            if sp_lit(s, p, "null"@) is Some {
                assert(s.subrange(p, p + 4) == "null"@);
                assert(s[p] == s.subrange(p, p + 4)[0]);
                assert(s[p] == 'n');
                assert(false);
            }
            lemma_sp_u32_at(s, p, n);
        },
    }
}

proof fn lemma_sp_string_at(s: Seq<char>, p: int, t: Seq<char>)
    requires
        0 <= p,
        p + spec_escape(t).len() < s.len(),
        s.subrange(p, p + spec_escape(t).len()) == spec_escape(t),
        s[p + spec_escape(t).len()] == '"',
    ensures
        sp_string(s, p) == Some((t, p + spec_escape(t).len() + 1)),
    decreases t.len(),
{
    let esc = spec_escape(t);
    if t.len() == 0 {
        assert(esc.len() == 0);
        assert(s[p] == '"');
    } else {
        let c = t[0];
        let rest = t.skip(1);
        let erest = spec_escape(rest);
        assert(esc == spec_escape_char(c) + erest);
        if c == '\\' || c == '"' {
            assert(esc[0] == '\\');
            assert(esc[1] == c);
            assert(s[p] == s.subrange(p, p + esc.len())[0]);
            assert(s[p] == '\\');
            assert(s[p + 1] == s.subrange(p, p + esc.len())[1]);
            assert(s[p + 1] == c);
            assert(s.subrange(p + 2, p + 2 + erest.len()) =~= erest) by {
                assert(forall|j: int|
                    0 <= j < erest.len() ==> #[trigger] s.subrange(p + 2, p + 2 + erest.len())[j]
                        == s[p + 2 + j] && s[p + 2 + j] == s.subrange(p, p + esc.len())[2 + j]);
            }
            assert(s[p + 2 + erest.len()] == '"');
            lemma_sp_string_at(s, p + 2, rest);
            assert(seq![s[p + 1]] + rest =~= t);
        } else {
            assert(esc[0] == c);
            assert(s[p] == s.subrange(p, p + esc.len())[0]);
            assert(s[p] == c);
            assert(s.subrange(p + 1, p + 1 + erest.len()) =~= erest) by {
                assert(forall|j: int|
                    0 <= j < erest.len() ==> #[trigger] s.subrange(p + 1, p + 1 + erest.len())[j]
                        == s[p + 1 + j] && s[p + 1 + j] == s.subrange(p, p + esc.len())[1 + j]);
            }
            assert(s[p + 1 + erest.len()] == '"');
            lemma_sp_string_at(s, p + 1, rest);
            assert(seq![s[p]] + rest =~= t);
        }
    }
}

/// Round trip for a status record: every field, the absent pid included,
/// survives encoding and decoding exactly.
#[verifier::rlimit(100)]
pub proof fn lemma_status_roundtrip(v: StatusView)
    ensures
        spec_decode_status(spec_encode_status(v)) == Some(v),
{
    reveal_strlit("{\"running\":");
    reveal_strlit(",\"port\":");
    reveal_strlit(",\"pid\":");
    reveal_strlit(",\"health_url\":\"");
    reveal_strlit("\",\"external\":");
    reveal_strlit(",\"external\":");
    reveal_strlit("}");
    let s = spec_encode_status(v);
    let l1 = "{\"running\":"@;
    let bt = spec_bool_text(v.running);
    let l2 = ",\"port\":"@;
    let dport = spec_dec(v.port as nat);
    let l3 = ",\"pid\":"@;
    let dpid = spec_opt_u32_text(v.pid);
    let l4 = ",\"health_url\":\""@;
    let esc = spec_escape(v.health_url);
    let l5q = "\",\"external\":"@;
    let l5 = ",\"external\":"@;
    let bt2 = spec_bool_text(v.external);
    let l6 = "}"@;
    assert(l5q =~= seq!['"'] + l5);
    assert(s == l1 + bt + l2 + dport + l3 + dpid + l4 + esc + l5q + bt2 + l6);
    if v.running {
        reveal_strlit("true");
    } else {
        reveal_strlit("false");
    }
    if v.external {
        reveal_strlit("true");
    } else {
        reveal_strlit("false");
    }
    let p1 = l1.len() as int;
    let p2 = p1 + bt.len();
    let p3 = p2 + l2.len();
    let p4 = p3 + dport.len();
    let p5 = p4 + l3.len();
    let p6 = p5 + dpid.len();
    let p7 = p6 + l4.len();
    let p8 = p7 + esc.len() + 1;
    let p9 = p8 + l5.len();
    let p10 = p9 + bt2.len();
    let p11 = p10 + l6.len();
    assert(s.len() == p11);
    assert(s.subrange(0, p1) =~= l1);
    lemma_sp_lit_at(s, 0, l1);
    assert(s.subrange(p1, p2) =~= bt);
    lemma_sp_bool_at(s, p1, v.running);
    assert(s.subrange(p2, p3) =~= l2);
    lemma_sp_lit_at(s, p2, l2);
    assert(s.subrange(p3, p4) =~= dport);
    assert(s[p4] == l3[0]);
    assert(!is_digit(s[p4]));
    lemma_sp_u16_at(s, p3, v.port);
    assert(s.subrange(p4, p5) =~= l3);
    lemma_sp_lit_at(s, p4, l3);
    assert(s.subrange(p5, p6) =~= dpid);
    assert(s[p6] == l4[0]);
    assert(!is_digit(s[p6]));
    lemma_sp_pid_at(s, p5, v.pid);
    assert(s.subrange(p6, p7) =~= l4);
    lemma_sp_lit_at(s, p6, l4);
    assert(s.subrange(p7, p7 + esc.len()) =~= esc);
    assert(s[p7 + esc.len()] == '"');
    lemma_sp_string_at(s, p7, v.health_url);
    assert(s.subrange(p8, p9) =~= l5);
    lemma_sp_lit_at(s, p8, l5);
    assert(s.subrange(p9, p10) =~= bt2);
    lemma_sp_bool_at(s, p9, v.external);
    assert(s.subrange(p10, p11) =~= l6);
    lemma_sp_lit_at(s, p10, l6);
}

/// Round trip for a log record.
#[verifier::rlimit(100)]
pub proof fn lemma_log_entry_roundtrip(v: LogEntryView)
    ensures
        spec_decode_log_entry(spec_encode_log_entry(v)) == Some(v),
{
    reveal_strlit("{\"timestamp\":\"");
    reveal_strlit("\",\"level\":\"");
    reveal_strlit(",\"level\":\"");
    reveal_strlit("\",\"message\":\"");
    reveal_strlit(",\"message\":\"");
    reveal_strlit("\"}");
    reveal_strlit("}");
    let s = spec_encode_log_entry(v);
    let l1 = "{\"timestamp\":\""@;
    let e1 = spec_escape(v.timestamp);
    let l2q = "\",\"level\":\""@;
    let l2 = ",\"level\":\""@;
    let e2 = spec_escape(v.level);
    let l3q = "\",\"message\":\""@;
    let l3 = ",\"message\":\""@;
    let e3 = spec_escape(v.message);
    let l4q = "\"}"@;
    let l4 = "}"@;
    assert(l2q =~= seq!['"'] + l2);
    assert(l3q =~= seq!['"'] + l3);
    assert(l4q =~= seq!['"'] + l4);
    assert(s == l1 + e1 + l2q + e2 + l3q + e3 + l4q);
    let p1 = l1.len() as int;
    let p2 = p1 + e1.len() + 1;
    let p3 = p2 + l2.len();
    let p4 = p3 + e2.len() + 1;
    let p5 = p4 + l3.len();
    let p6 = p5 + e3.len() + 1;
    let p7 = p6 + l4.len();
    assert(s.len() == p7);
    assert(s.subrange(0, p1) =~= l1);
    lemma_sp_lit_at(s, 0, l1);
    assert(s.subrange(p1, p1 + e1.len()) =~= e1);
    assert(s[p1 + e1.len()] == '"');
    lemma_sp_string_at(s, p1, v.timestamp);
    assert(s.subrange(p2, p3) =~= l2);
    lemma_sp_lit_at(s, p2, l2);
    assert(s.subrange(p3, p3 + e2.len()) =~= e2);
    assert(s[p3 + e2.len()] == '"');
    lemma_sp_string_at(s, p3, v.level);
    assert(s.subrange(p4, p5) =~= l3);
    lemma_sp_lit_at(s, p4, l3);
    assert(s.subrange(p5, p5 + e3.len()) =~= e3);
    assert(s[p5 + e3.len()] == '"');
    lemma_sp_string_at(s, p5, v.message);
    assert(s.subrange(p6, p7) =~= l4);
    lemma_sp_lit_at(s, p6, l4);
}

/// Round trip for a network report.
#[verifier::rlimit(100)]
pub proof fn lemma_network_info_roundtrip(v: NetworkInfoView)
    ensures
        spec_decode_network_info(spec_encode_network_info(v)) == Some(v),
{
    reveal_strlit("{\"ip\":\"");
    reveal_strlit("\",\"port\":");
    reveal_strlit(",\"port\":");
    reveal_strlit("}");
    let s = spec_encode_network_info(v);
    let l1 = "{\"ip\":\""@;
    let e1 = spec_escape(v.ip);
    let l2q = "\",\"port\":"@;
    let l2 = ",\"port\":"@;
    let dport = spec_dec(v.port as nat);
    let l3 = "}"@;
    assert(l2q =~= seq!['"'] + l2);
    assert(s == l1 + e1 + l2q + dport + l3);
    let p1 = l1.len() as int;
    let p2 = p1 + e1.len() + 1;
    let p3 = p2 + l2.len();
    let p4 = p3 + dport.len();
    let p5 = p4 + l3.len();
    assert(s.len() == p5);
    assert(s.subrange(0, p1) =~= l1);
    lemma_sp_lit_at(s, 0, l1);
    assert(s.subrange(p1, p1 + e1.len()) =~= e1);
    assert(s[p1 + e1.len()] == '"');
    lemma_sp_string_at(s, p1, v.ip);
    assert(s.subrange(p2, p3) =~= l2);
    lemma_sp_lit_at(s, p2, l2);
    assert(s.subrange(p3, p4) =~= dport);
    assert(s[p4] == l3[0]);
    assert(!is_digit(s[p4]));
    lemma_sp_u16_at(s, p3, v.port);
    assert(s.subrange(p4, p5) =~= l3);
    lemma_sp_lit_at(s, p4, l3);
}

} // verus!
