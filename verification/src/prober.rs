use vstd::prelude::*;
use crate::decimal::{is_digit, push_dec, read_digits_u64, spec_all_digits, spec_dec,
    spec_digits_val};
use crate::text::{chars_contain, spec_contains, str_to_chars};

verus! {

/// ASCII whitespace, as the OS introspection tools emit it.
pub open spec fn is_space(c: char) -> bool {
    c == ' ' || c == '\t' || c == '\n' || c == '\r' || c == '\u{b}' || c == '\u{c}'
}

fn space_char(c: char) -> (b: bool)
    ensures
        b == is_space(c),
{
    c == ' ' || c == '\t' || c == '\n' || c == '\r' || c == '\u{b}' || c == '\u{c}'
}

/// The text with leading whitespace removed.
pub open spec fn spec_trim_start(s: Seq<char>) -> Seq<char>
    decreases s.len(),
{
    if s.len() > 0 && is_space(s[0]) {
        spec_trim_start(s.skip(1))
    } else {
        s
    }
}

/// The text with trailing whitespace removed.
pub open spec fn spec_trim_end(s: Seq<char>) -> Seq<char>
    decreases s.len(),
{
    if s.len() > 0 && is_space(s.last()) {
        spec_trim_end(s.drop_last())
    } else {
        s
    }
}

proof fn lemma_trim_start_at(s: Seq<char>, i: int)
    requires
        0 <= i <= s.len(),
        forall|j: int| 0 <= j < i ==> is_space(#[trigger] s[j]),
        i == s.len() || !is_space(s[i]),
    ensures
        spec_trim_start(s) == s.skip(i),
    decreases i,
{
    if i == 0 {
        assert(s.skip(0) =~= s);
    } else {
        assert(is_space(s[0]));
        lemma_trim_start_at(s.skip(1), i - 1);
        assert(s.skip(1).skip(i - 1) =~= s.skip(i));
    }
}

proof fn lemma_trim_end_at(s: Seq<char>, h: int)
    requires
        0 <= h <= s.len(),
        forall|j: int| h <= j < s.len() ==> is_space(#[trigger] s[j]),
        h == 0 || !is_space(s[h - 1]),
    ensures
        spec_trim_end(s) == s.take(h),
    decreases s.len(),
{
    if h == s.len() {
        if s.len() == 0 {
            assert(s.take(h) =~= s);
        } else {
            assert(!is_space(s.last()));
            assert(s.take(h) =~= s);
        }
    } else {
        assert(is_space(s.last()));
        lemma_trim_end_at(s.drop_last(), h);
        assert(s.drop_last().take(h) =~= s.take(h));
    }
}

/// A number as the OS tools print one: an optional `+` sign, then decimal
/// digits, fitting in 32 bits; anything else reads as nothing.
pub open spec fn spec_parse_u32(s: Seq<char>) -> Option<u32> {
    let body = if s.len() > 0 && s[0] == '+' {
        s.skip(1)
    } else {
        s
    };
    if body.len() > 0 && spec_all_digits(body) && spec_digits_val(body) <= u32::MAX {
        Some(spec_digits_val(body) as u32)
    } else {
        None
    }
}

/// Reads `v[lo..hi]` as a `u32` under `spec_parse_u32`.
fn parse_u32_range(v: &Vec<char>, lo: usize, hi: usize) -> (r: Option<u32>)
    requires
        lo <= hi <= v@.len(),
    ensures
        r == spec_parse_u32(v@.subrange(lo as int, hi as int)),
{
    let ghost s = v@.subrange(lo as int, hi as int);
    let mut b: usize = lo;
    if lo < hi && v[lo] == '+' {
        b = lo + 1;
    }
    let ghost body = v@.subrange(b as int, hi as int);
    proof {
        if s.len() > 0 && s[0] == '+' {
            assert(body =~= s.skip(1));
        } else {
            assert(body =~= s);
        }
    }
    if b == hi {
        return None;
    }
    let mut i: usize = b;
    while i < hi
        invariant
            lo <= b <= i <= hi <= v@.len(),
            s == v@.subrange(lo as int, hi as int),
            body == v@.subrange(b as int, hi as int),
            body == if s.len() > 0 && s[0] == '+' {
                s.skip(1)
            } else {
                s
            },
            forall|j: int| b <= j < i ==> is_digit(#[trigger] v@[j]),
        decreases hi - i,
    {
        let c = v[i];
        if !('0' <= c && c <= '9') {
            assert(body[i - b] == v@[i as int]);
            assert(!spec_all_digits(body));
            return None;
        }
        i = i + 1;
    }
    assert(spec_all_digits(body)) by {
        assert(forall|j: int|
            0 <= j < body.len() ==> body[j] == v@[b + j] && is_digit(#[trigger] body[j]));
    }
    let n = read_digits_u64(v, b, hi);
    match n {
        Some(x) => {
            if x <= 0xFFFF_FFFFu64 {
                Some(x as u32)
            } else {
                None
            }
        },
        None => None,
    }
}

/// Reads a process id as `lsof -ti` prints one: the whole text, with
/// surrounding whitespace removed, must be a single number.
pub fn parse_pid_text(s: &str) -> (r: Option<u32>)
    ensures
        r == spec_parse_u32(spec_trim_end(spec_trim_start(s@))),
{
    let v = str_to_chars(s);
    let n = v.len();
    let mut lo: usize = 0;
    while lo < n && space_char(v[lo])
        invariant
            lo <= n == v@.len(),
            forall|j: int| 0 <= j < lo ==> is_space(#[trigger] v@[j]),
        decreases n - lo,
    {
        lo = lo + 1;
    }
    proof {
        lemma_trim_start_at(v@, lo as int);
    }
    let mut hi: usize = n;
    while hi > lo && space_char(v[hi - 1])
        invariant
            lo <= hi <= n == v@.len(),
            forall|j: int| hi <= j < n ==> is_space(#[trigger] v@[j]),
        decreases hi,
    {
        hi = hi - 1;
    }
    proof {
        let t = spec_trim_start(v@);
        assert(t == v@.skip(lo as int));
        assert(forall|j: int|
            hi - lo <= j < t.len() ==> is_space(#[trigger] t[j]) && t[j] == v@[j + lo]);
        if hi > lo {
            assert(!is_space(v@[hi - 1]));
            assert(t[hi - lo - 1] == v@[hi - 1]);
        }
        lemma_trim_end_at(t, hi - lo);
        assert(spec_trim_end(t) =~= v@.subrange(lo as int, hi as int));
    }
    parse_u32_range(&v, lo, hi)
}

/// The trailing non-whitespace token of the text.
pub open spec fn spec_tail_token(s: Seq<char>) -> Seq<char>
    decreases s.len(),
{
    if s.len() == 0 || is_space(s.last()) {
        Seq::empty()
    } else {
        spec_tail_token(s.drop_last()).push(s.last())
    }
}

proof fn lemma_tail_token_at(s: Seq<char>, t: int)
    requires
        0 <= t <= s.len(),
        forall|j: int| t <= j < s.len() ==> !is_space(#[trigger] s[j]),
        t == 0 || is_space(s[t - 1]),
    ensures
        spec_tail_token(s) == s.skip(t),
    decreases s.len(),
{
    if t == s.len() {
        assert(s.skip(t) =~= Seq::<char>::empty());
        if s.len() > 0 {
            assert(is_space(s.last()));
        }
    } else {
        assert(!is_space(s.last()));
        lemma_tail_token_at(s.drop_last(), t);
        assert(s.drop_last().skip(t).push(s.last()) =~= s.skip(t));
    }
}

/// A line of a connection table that concerns the port and a listening
/// socket: it mentions `:{port}` and the listening marker.
pub open spec fn spec_line_matches(line: Seq<char>, port: nat) -> bool {
    &&& spec_contains(line, seq![':'] + spec_dec(port))
    &&& spec_contains(line, "LISTENING"@)
}

fn line_matches(line: &Vec<char>, port: u16) -> (b: bool)
    ensures
        b == spec_line_matches(line@, port as nat),
{
    let mut token: Vec<char> = Vec::new();
    token.push(':');
    push_dec(port as u64, &mut token);
    assert(token@ =~= seq![':'] + spec_dec(port as nat));
    let marker = str_to_chars("LISTENING");
    chars_contain(line, &token) && chars_contain(line, &marker)
}

/// The first `'\n'` position in the text (its length when there is none).
pub open spec fn spec_first_nl(s: Seq<char>) -> nat
    decreases s.len(),
{
    if s.len() == 0 {
        0
    } else if s[0] == '\n' {
        0
    } else {
        1 + spec_first_nl(s.skip(1))
    }
}

proof fn lemma_first_nl_at(s: Seq<char>, i: int)
    requires
        0 <= i <= s.len(),
        i < s.len() ==> s[i] == '\n',
        forall|j: int| 0 <= j < i ==> s[j] != '\n',
    ensures
        spec_first_nl(s) == i,
    decreases s.len(),
{
    if s.len() == 0 {
    } else if s[0] == '\n' {
        assert(i == 0);
    } else {
        lemma_first_nl_at(s.skip(1), i - 1);
    }
}

/// A line with its carriage return removed, as the line-splitting of the
/// tool output sees it.
pub open spec fn spec_strip_cr(l: Seq<char>) -> Seq<char> {
    if l.len() > 0 && l.last() == '\r' {
        l.drop_last()
    } else {
        l
    }
}

/// The result of scanning a connection-table listing for the port: the
/// trailing token of the first line that mentions `:{port}` and `LISTENING`,
/// read as a number; nothing when no line matches or that token is no number.
pub open spec fn spec_scan_listing(s: Seq<char>, port: nat) -> Option<u32>
    decreases s.len(),
{
    if s.len() == 0 {
        None
    } else {
        let q = vstd::math::min(spec_first_nl(s) as int, s.len() as int);
        let raw = s.take(q);
        let line = if q < s.len() {
            spec_strip_cr(raw)
        } else {
            raw
        };
        if spec_line_matches(line, port) {
            spec_parse_u32(spec_tail_token(spec_trim_end(line)))
        } else if q >= s.len() {
            None
        } else {
            spec_scan_listing(s.skip(q + 1), port)
        }
    }
}

/// Reads the trailing token of `line` as a `u32` (`spec_parse_u32` of
/// `spec_tail_token` of the trimmed line).
fn parse_line_pid(line: &Vec<char>) -> (r: Option<u32>)
    ensures
        r == spec_parse_u32(spec_tail_token(spec_trim_end(line@))),
{
    let n = line.len();
    let mut hi: usize = n;
    while hi > 0 && space_char(line[hi - 1])
        invariant
            hi <= n == line@.len(),
            forall|j: int| hi <= j < n ==> is_space(#[trigger] line@[j]),
        decreases hi,
    {
        hi = hi - 1;
    }
    proof {
        lemma_trim_end_at(line@, hi as int);
    }
    let mut t: usize = hi;
    while t > 0 && !space_char(line[t - 1])
        invariant
            t <= hi <= n == line@.len(),
            forall|j: int| t <= j < hi ==> !is_space(#[trigger] line@[j]),
        decreases t,
    {
        t = t - 1;
    }
    proof {
        let trimmed = spec_trim_end(line@);
        assert(trimmed == line@.take(hi as int));
        assert(forall|j: int|
            t <= j < hi ==> trimmed[j] == line@[j] && !is_space(#[trigger] trimmed[j]));
        lemma_tail_token_at(trimmed, t as int);
        assert(spec_tail_token(trimmed) =~= line@.subrange(t as int, hi as int));
    }
    parse_u32_range(line, t, hi)
}

fn subvec(v: &Vec<char>, a: usize, b: usize) -> (r: Vec<char>)
    requires
        a <= b <= v@.len(),
    ensures
        r@ == v@.subrange(a as int, b as int),
{
    let mut r: Vec<char> = Vec::new();
    let mut i: usize = a;
    while i < b
        invariant
            a <= i <= b <= v@.len(),
            r@ == v@.subrange(a as int, i as int),
        decreases b - i,
    {
        r.push(v[i]);
        assert(r@ =~= v@.subrange(a as int, (i + 1) as int));
        i = i + 1;
    }
    r
}

fn scan_from(v: &Vec<char>, port: u16, p: usize) -> (r: Option<u32>)
    requires
        p <= v@.len(),
    ensures
        r == spec_scan_listing(v@.skip(p as int), port as nat),
    decreases v@.len() - p,
{
    let ghost s = v@.skip(p as int);
    let n = v.len();
    if p == n {
        return None;
    }
    let mut q: usize = p;
    while q < n && v[q] != '\n'
        invariant
            p <= q <= n == v@.len(),
            forall|j: int| p <= j < q ==> v@[j] != '\n',
        decreases n - q,
    {
        q = q + 1;
    }
    proof {
        assert(forall|j: int| 0 <= j < q - p ==> s[j] == v@[j + p] && s[j] != '\n');
        if q < n {
            assert(s[q - p] == v@[q as int]);
        }
        lemma_first_nl_at(s, q - p);
    }
    let mut line = subvec(v, p, q);
    proof {
        assert(line@ =~= s.take(q - p));
    }
    if q < n {
        // the line was newline-terminated: drop one carriage return
        let ll = line.len();
        if ll > 0 && line[ll - 1] == '\r' {
            line.pop();
            assert(line@ =~= spec_strip_cr(s.take(q - p)));
        }
    }
    assert(line@ == if q - p < s.len() as int {
        spec_strip_cr(s.take(q - p))
    } else {
        s.take(q - p)
    });
    if line_matches(&line, port) {
        parse_line_pid(&line)
    } else if q == n {
        None
    } else {
        let r = scan_from(v, port, q + 1);
        proof {
            assert(v@.skip((q + 1) as int) =~= s.skip(q - p + 1));
        }
        r
    }
}

/// A lookup degrades to nothing, never an error: empty tool output reads as
/// no pid, and an empty connection table names no listener for any port.
pub proof fn lemma_empty_output_no_pid(port: u16)
    ensures
        spec_parse_u32(spec_trim_end(spec_trim_start(Seq::<char>::empty()))) is None,
        spec_scan_listing(Seq::<char>::empty(), port as nat) is None,
{
    assert(spec_trim_start(Seq::<char>::empty()) == Seq::<char>::empty());
    assert(spec_trim_end(Seq::<char>::empty()) == Seq::<char>::empty());
}

/// Scans a connection-table listing (as `netstat -ano -p TCP` prints one)
/// for the process listening on `port`.
pub fn scan_listing_for_pid(text: &str, port: u16) -> (r: Option<u32>)
    ensures
        r == spec_scan_listing(text@, port as nat),
{
    let v = str_to_chars(text);
    let r = scan_from(&v, port, 0);
    proof {
        assert(v@.skip(0) =~= v@);
    }
    r
}

} // verus!
