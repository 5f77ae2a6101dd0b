//! A character-level JSON subset, exactly as the library needs it: string
//! escaping as the configuration and request writers produce it, and a
//! recursive-descent reader for the documents the library consumes.  The
//! reader follows the JSON grammar for objects, arrays, strings and the three
//! literals; number tokens are read leniently (any run of sign, digit, dot
//! and exponent characters).

use vstd::prelude::*;

verus! {

// ---------------------------------------------------------------- white space

/// JSON insignificant white space: space, tab, line feed, carriage return.
pub open spec fn is_json_ws(c: char) -> bool {
    c == ' ' || c == '\t' || c == '\n' || c == '\r'
}

pub fn is_json_ws_char(c: char) -> (r: bool)
    ensures
        r == is_json_ws(c),
{
    c == ' ' || c == '\t' || c == '\n' || c == '\r'
}

/// The first index at or after `i` holding no white space.
pub open spec fn skip_ws(s: Seq<char>, i: int) -> int
    decreases s.len() - i,
{
    if 0 <= i && i < s.len() && is_json_ws(s[i]) {
        skip_ws(s, i + 1)
    } else {
        i
    }
}

pub fn ws_end(s: &Vec<char>, i: usize) -> (r: usize)
    requires
        i <= s@.len(),
    ensures
        r == skip_ws(s@, i as int),
        i <= r <= s@.len(),
{
    let mut j = i;
    while j < s.len() && is_json_ws_char(s[j])
        invariant
            i <= j <= s@.len(),
            skip_ws(s@, i as int) == skip_ws(s@, j as int),
        decreases s@.len() - j,
    {
        j += 1;
    }
    j
}

// ----------------------------------------------------------------------- hex

/// The lower-case hexadecimal digit character for `n` (0 through 15).
pub open spec fn hex_char(n: int) -> char {
    if n < 10 {
        crate::text::digit_char(n)
    } else if n == 10 {
        'a'
    } else if n == 11 {
        'b'
    } else if n == 12 {
        'c'
    } else if n == 13 {
        'd'
    } else if n == 14 {
        'e'
    } else {
        'f'
    }
}

pub fn hex_of(n: u32) -> (c: char)
    requires
        n < 16,
    ensures
        c == hex_char(n as int),
{
    if n < 10 {
        crate::text::digit_of(n)
    } else if n == 10 {
        'a'
    } else if n == 11 {
        'b'
    } else if n == 12 {
        'c'
    } else if n == 13 {
        'd'
    } else if n == 14 {
        'e'
    } else {
        'f'
    }
}

/// The value of a hexadecimal digit character, either case.
pub open spec fn hex_val(c: char) -> Option<int> {
    let u = c as u32;
    if '0' as u32 <= u && u <= '9' as u32 {
        Some(u - '0' as u32)
    } else if 'a' as u32 <= u && u <= 'f' as u32 {
        Some(u - 'a' as u32 + 10)
    } else if 'A' as u32 <= u && u <= 'F' as u32 {
        Some(u - 'A' as u32 + 10)
    } else {
        None
    }
}

pub fn hex_val_char(c: char) -> (r: Option<u32>)
    ensures
        match r {
            Some(v) => hex_val(c) == Some(v as int) && v < 16,
            None => hex_val(c) is None,
        },
{
    let u = c as u32;
    if '0' as u32 <= u && u <= '9' as u32 {
        Some(u - '0' as u32)
    } else if 'a' as u32 <= u && u <= 'f' as u32 {
        Some(u - 'a' as u32 + 10)
    } else if 'A' as u32 <= u && u <= 'F' as u32 {
        Some(u - 'A' as u32 + 10)
    } else {
        None
    }
}

// ------------------------------------------------------------------ escaping

/// The escape of one character inside a JSON string, exactly as serde_json
/// writes it: quote and backslash get a two-character escape, the five named
/// control characters get theirs, the remaining control characters get
/// `\u00XX` with lower-case hex, and every other character stands as itself.
pub open spec fn esc_char(c: char) -> Seq<char> {
    let u = c as u32;
    if c == '"' {
        seq!['\\', '"']
    } else if c == '\\' {
        seq!['\\', '\\']
    } else if u == 0x08 {
        seq!['\\', 'b']
    } else if u == 0x09 {
        seq!['\\', 't']
    } else if u == 0x0A {
        seq!['\\', 'n']
    } else if u == 0x0C {
        seq!['\\', 'f']
    } else if u == 0x0D {
        seq!['\\', 'r']
    } else if u < 0x20 {
        seq!['\\', 'u', '0', '0', hex_char((u / 16) as int), hex_char((u % 16) as int)]
    } else {
        seq![c]
    }
}

/// The escaped form of a whole string body.
pub open spec fn esc_seq(s: Seq<char>) -> Seq<char>
    decreases s.len(),
{
    if s.len() == 0 {
        Seq::empty()
    } else {
        esc_char(s[0]) + esc_seq(s.subrange(1, s.len() as int))
    }
}

pub proof fn lemma_esc_append(a: Seq<char>, b: Seq<char>)
    ensures
        esc_seq(a + b) == esc_seq(a) + esc_seq(b),
    decreases a.len(),
{
    if a.len() == 0 {
        assert(a + b =~= b);
        assert(esc_seq(a) + esc_seq(b) =~= esc_seq(b));
    } else {
        let t = a.subrange(1, a.len() as int);
        assert((a + b).subrange(1, (a + b).len() as int) =~= t + b);
        lemma_esc_append(t, b);
        assert((a + b)[0] == a[0]);
        assert(esc_char(a[0]) + (esc_seq(t) + esc_seq(b)) =~= (esc_char(a[0]) + esc_seq(t))
            + esc_seq(b));
    }
}

pub proof fn lemma_esc_one(c: char)
    ensures
        esc_seq(seq![c]) == esc_char(c),
{
    assert(seq![c].subrange(1, 1) =~= Seq::<char>::empty());
    assert(esc_seq(Seq::<char>::empty()) == Seq::<char>::empty());
    assert(seq![c][0] == c);
    assert(esc_char(c) + Seq::<char>::empty() =~= esc_char(c));
}

/// Appends the escaped form of `s` to `out`.
pub fn push_escaped(out: &mut Vec<char>, s: &Vec<char>)
    ensures
        final(out)@ == old(out)@ + esc_seq(s@),
{
    let mut i: usize = 0;
    while i < s.len()
        invariant
            0 <= i <= s@.len(),
            out@ == old(out)@ + esc_seq(s@.subrange(0, i as int)),
        decreases s@.len() - i,
    {
        let c = s[i];
        let u = c as u32;
        if c == '"' {
            out.push('\\');
            out.push('"');
        } else if c == '\\' {
            out.push('\\');
            out.push('\\');
        } else if u == 0x08 {
            out.push('\\');
            out.push('b');
        } else if u == 0x09 {
            out.push('\\');
            out.push('t');
        } else if u == 0x0A {
            out.push('\\');
            out.push('n');
        } else if u == 0x0C {
            out.push('\\');
            out.push('f');
        } else if u == 0x0D {
            out.push('\\');
            out.push('r');
        } else if u < 0x20 {
            out.push('\\');
            out.push('u');
            out.push('0');
            out.push('0');
            out.push(hex_of(u / 16));
            out.push(hex_of(u % 16));
        } else {
            out.push(c);
        }
        proof {
            lemma_esc_append(s@.subrange(0, i as int), seq![s@[i as int]]);
            lemma_esc_one(s@[i as int]);
            assert(s@.subrange(0, i + 1) =~= s@.subrange(0, i as int) + seq![s@[i as int]]);
            assert(out@ =~= old(out)@ + esc_seq(s@.subrange(0, i + 1)));
        }
        i += 1;
    }
    assert(s@.subrange(0, s@.len() as int) =~= s@);
}

// ------------------------------------------------------------ string reading

/// Reads four hexadecimal digits starting at `i`.
pub open spec fn four_hex(s: Seq<char>, i: int) -> Option<int> {
    if 0 <= i && i + 4 <= s.len() {
        match (hex_val(s[i]), hex_val(s[i + 1]), hex_val(s[i + 2]), hex_val(s[i + 3])) {
            (Some(a), Some(b), Some(c), Some(d)) => Some(a * 4096 + b * 256 + c * 16 + d),
            _ => None,
        }
    } else {
        None
    }
}

/// The character with scalar value `n` (meaningful when `n` is a Unicode
/// scalar value).
pub open spec fn scalar_char(n: int) -> char {
    (n as u32) as char
}

/// Reads a `\uXXXX` payload at `i` (the first hex digit), combining a
/// surrogate pair into one character as JSON requires; a lone surrogate
/// fails.
pub open spec fn parse_u_escape(s: Seq<char>, i: int) -> Option<(char, int)> {
    match four_hex(s, i) {
        None => None,
        Some(n) => {
            if 0xD800 <= n && n < 0xDC00 {
                if i + 10 <= s.len() && s[i + 4] == '\\' && s[i + 5] == 'u' {
                    match four_hex(s, i + 6) {
                        None => None,
                        Some(m) => {
                            if 0xDC00 <= m && m < 0xE000 {
                                Some(
                                    (
                                        scalar_char(0x10000 + (n - 0xD800) * 0x400 + (m - 0xDC00)),
                                        i + 10,
                                    ),
                                )
                            } else {
                                None
                            }
                        },
                    }
                } else {
                    None
                }
            } else if 0xDC00 <= n && n < 0xE000 {
                None
            } else {
                Some((scalar_char(n), i + 4))
            }
        },
    }
}

/// Reads the character named by an escape, `i` standing just after the
/// backslash.
pub open spec fn parse_escape(s: Seq<char>, i: int) -> Option<(char, int)> {
    if 0 <= i && i < s.len() {
        let c = s[i];
        if c == '"' {
            Some(('"', i + 1))
        } else if c == '\\' {
            Some(('\\', i + 1))
        } else if c == '/' {
            Some(('/', i + 1))
        } else if c == 'b' {
            Some(('\u{0008}', i + 1))
        } else if c == 'f' {
            Some(('\u{000C}', i + 1))
        } else if c == 'n' {
            Some(('\n', i + 1))
        } else if c == 'r' {
            Some(('\r', i + 1))
        } else if c == 't' {
            Some(('\t', i + 1))
        } else if c == 'u' {
            parse_u_escape(s, i + 1)
        } else {
            None
        }
    } else {
        None
    }
}

/// Reads a string body starting at `i` (just after the opening quote),
/// up to and including the closing quote; yields the decoded content and the
/// index after the closing quote.  An unescaped control character, a bad
/// escape or a missing closing quote fails.
pub open spec fn parse_str_body(s: Seq<char>, i: int) -> Option<(Seq<char>, int)>
    decreases s.len() - i,
{
    if 0 <= i && i < s.len() {
        let c = s[i];
        if c == '"' {
            Some((Seq::empty(), i + 1))
        } else if c == '\\' {
            match parse_escape(s, i + 1) {
                None => None,
                Some((c2, j)) => {
                    if i < j && j <= s.len() {
                        match parse_str_body(s, j) {
                            None => None,
                            Some((t, k)) => Some((seq![c2] + t, k)),
                        }
                    } else {
                        None
                    }
                },
            }
        } else if (c as u32) < 0x20 {
            None
        } else {
            match parse_str_body(s, i + 1) {
                None => None,
                Some((t, k)) => Some((seq![c] + t, k)),
            }
        }
    } else {
        None
    }
}

/// Prepends already-read content to the outcome of reading the rest.
pub open spec fn psb_prepend(pre: Seq<char>, r: Option<(Seq<char>, int)>) -> Option<
    (Seq<char>, int),
> {
    match r {
        None => None,
        Some((t, k)) => Some((pre + t, k)),
    }
}

proof fn lemma_psb_prepend_empty(r: Option<(Seq<char>, int)>)
    ensures
        psb_prepend(Seq::empty(), r) == r,
{
    match r {
        None => {},
        Some((t, k)) => {
            assert(Seq::<char>::empty() + t =~= t);
        },
    }
}

proof fn lemma_psb_prepend_assoc(a: Seq<char>, b: Seq<char>, r: Option<(Seq<char>, int)>)
    ensures
        psb_prepend(a, psb_prepend(b, r)) == psb_prepend(a + b, r),
{
    match r {
        None => {},
        Some((t, k)) => {
            assert(a + (b + t) =~= (a + b) + t);
        },
    }
}

fn four_hex_exec(s: &Vec<char>, i: usize) -> (r: Option<u32>)
    requires
        i <= s@.len(),
    ensures
        match r {
            None => four_hex(s@, i as int) is None,
            Some(n) => four_hex(s@, i as int) == Some(n as int) && n < 0x10000,
        },
{
    if s.len() - i >= 4 {
        let a = hex_val_char(s[i]);
        let b = hex_val_char(s[i + 1]);
        let c = hex_val_char(s[i + 2]);
        let d = hex_val_char(s[i + 3]);
        match (a, b, c, d) {
            (Some(a), Some(b), Some(c), Some(d)) => Some(a * 4096 + b * 256 + c * 16 + d),
            _ => None,
        }
    } else {
        None
    }
}

fn scan_u_escape(s: &Vec<char>, i: usize) -> (r: Option<(char, usize)>)
    requires
        i <= s@.len(),
    ensures
        match r {
            None => parse_u_escape(s@, i as int) is None,
            Some(p) => parse_u_escape(s@, i as int) == Some((p.0, p.1 as int)) && i < p.1 <= s@.len(),
        },
{
    let _len = s.len();
    match four_hex_exec(s, i) {
        None => None,
        Some(n) => {
            if 0xD800 <= n && n < 0xDC00 {
                if s.len() - i >= 10 && s[i + 4] == '\\' && s[i + 5] == 'u' {
                    match four_hex_exec(s, i + 6) {
                        None => None,
                        Some(m) => {
                            if 0xDC00 <= m && m < 0xE000 {
                                let code: u32 = 0x10000 + (n - 0xD800) * 0x400 + (m - 0xDC00);
                                match crate::text::char_from_u32(code) {
                                    Some(c) => {
                                        proof {
                                            vstd::utf8::char_u32_cast(c, code);
                                        }
                                        Some((c, i + 10))
                                    },
                                    None => {
                                        proof {
                                            assert(false);
                                        }
                                        None
                                    },
                                }
                            } else {
                                None
                            }
                        },
                    }
                } else {
                    None
                }
            } else if 0xDC00 <= n && n < 0xE000 {
                None
            } else {
                match crate::text::char_from_u32(n) {
                    Some(c) => {
                        proof {
                            vstd::utf8::char_u32_cast(c, n);
                            assert(i + 4 <= s@.len());
                        }
                        Some((c, i + 4))
                    },
                    None => {
                        proof {
                            assert(false);
                        }
                        None
                    },
                }
            }
        },
    }
}

fn scan_escape(s: &Vec<char>, i: usize) -> (r: Option<(char, usize)>)
    requires
        i <= s@.len(),
    ensures
        match r {
            None => parse_escape(s@, i as int) is None,
            Some(p) => parse_escape(s@, i as int) == Some((p.0, p.1 as int)) && i < p.1 <= s@.len(),
        },
{
    if i == s.len() {
        return None;
    }
    let c = s[i];
    if c == '"' {
        Some(('"', i + 1))
    } else if c == '\\' {
        Some(('\\', i + 1))
    } else if c == '/' {
        Some(('/', i + 1))
    } else if c == 'b' {
        Some(('\u{0008}', i + 1))
    } else if c == 'f' {
        Some(('\u{000C}', i + 1))
    } else if c == 'n' {
        Some(('\n', i + 1))
    } else if c == 'r' {
        Some(('\r', i + 1))
    } else if c == 't' {
        Some(('\t', i + 1))
    } else if c == 'u' {
        scan_u_escape(s, i + 1)
    } else {
        None
    }
}

/// Reads a string body and decodes it, `start` standing just after the
/// opening quote.
pub fn scan_string(s: &Vec<char>, start: usize) -> (r: Option<(Vec<char>, usize)>)
    requires
        start <= s@.len(),
    ensures
        match r {
            None => parse_str_body(s@, start as int) is None,
            Some(p) => parse_str_body(s@, start as int) == Some((p.0@, p.1 as int)) && start < p.1
                <= s@.len(),
        },
{
    let mut acc: Vec<char> = Vec::new();
    let mut j = start;
    proof {
        lemma_psb_prepend_empty(parse_str_body(s@, start as int));
    }
    loop
        invariant
            start <= j <= s@.len(),
            psb_prepend(acc@, parse_str_body(s@, j as int)) == parse_str_body(s@, start as int),
        decreases s@.len() - j,
    {
        if j == s.len() {
            return None;
        }
        let c = s[j];
        let u = c as u32;
        if c == '"' {
            proof {
                assert(acc@ + Seq::<char>::empty() =~= acc@);
            }
            return Some((acc, j + 1));
        } else if c == '\\' {
            match scan_escape(s, j + 1) {
                None => {
                    return None;
                },
                Some((c2, j2)) => {
                    proof {
                        lemma_psb_prepend_assoc(acc@, seq![c2], parse_str_body(s@, j2 as int));
                        assert(acc@.push(c2) =~= acc@ + seq![c2]);
                    }
                    acc.push(c2);
                    j = j2;
                },
            }
        } else if u < 0x20 {
            return None;
        } else {
            proof {
                lemma_psb_prepend_assoc(acc@, seq![c], parse_str_body(s@, j + 1));
                assert(acc@.push(c) =~= acc@ + seq![c]);
            }
            acc.push(c);
            j = j + 1;
        }
    }
}

/// Escaping leaves a string without quotes, backslashes and control
/// characters as it stands.
pub proof fn lemma_esc_plain(p: Seq<char>)
    requires
        forall|j: int| 0 <= j < p.len() ==> esc_char(#[trigger] p[j]) == seq![p[j]],
    ensures
        esc_seq(p) == p,
    decreases p.len(),
{
    if p.len() > 0 {
        let rest = p.subrange(1, p.len() as int);
        assert(forall|j: int| 0 <= j < rest.len() ==> esc_char(#[trigger] rest[j]) == seq![rest[j]])
            by {
            assert(forall|j: int| 0 <= j < rest.len() ==> rest[j] == p[j + 1]);
        }
        lemma_esc_plain(rest);
        assert(esc_seq(p) =~= seq![p[0]] + rest);
        assert(seq![p[0]] + rest =~= p);
    }
}

/// Reading a string body over the escaped form of `p`, a closing quote
/// after it, yields exactly `p` and stops just after that quote.
#[verifier::rlimit(100)]
pub proof fn lemma_parse_escaped_at(s: Seq<char>, i: int, p: Seq<char>)
    requires
        0 <= i,
        i + esc_seq(p).len() + 1 <= s.len(),
        s.subrange(i, i + esc_seq(p).len() + 1) == esc_seq(p) + seq!['"'],
    ensures
        parse_str_body(s, i) == Some((p, i + esc_seq(p).len() + 1)),
    decreases p.len(),
{
    let n = esc_seq(p).len() as int;
    let sub = s.subrange(i, i + n + 1);
    let q = esc_seq(p) + seq!['"'];
    if p.len() == 0 {
        assert(n == 0);
        assert(s[i] == '"') by {
            assert(sub[0] == s[i]);
            assert(q[0] == '"');
        }
        assert(p =~= Seq::<char>::empty());
    } else {
        let c = p[0];
        let rest = p.subrange(1, p.len() as int);
        let e = esc_char(c);
        let ln = e.len() as int;
        let r = esc_seq(rest);
        assert(esc_seq(p) == e + r);
        assert(n == ln + r.len());
        assert forall|t: int| 0 <= t <= r.len() implies s.subrange(
            i + ln,
            i + ln + r.len() + 1,
        )[t] == (r + seq!['"'])[t] by {
            let sub2 = s.subrange(i + ln, i + ln + r.len() + 1);
            assert(sub2[t] == s[i + ln + t]);
            assert(sub[ln + t] == s[i + (ln + t)]);
            assert(sub[ln + t] == q[ln + t]);
            if t < r.len() {
                assert(q[ln + t] == (e + r)[ln + t]);
                assert((e + r)[ln + t] == r[t]);
                assert((r + seq!['"'])[t] == r[t]);
            } else {
                assert(q[ln + t] == '"');
                assert((r + seq!['"'])[t] == '"');
            }
        }
        assert(s.subrange(i + ln, i + ln + r.len() + 1) =~= r + seq!['"']);
        lemma_parse_escaped_at(s, i + ln, rest);
        let u = c as u32;
        assert(seq![c] + rest =~= p);
        assert(s[i] == e[0]) by {
            assert(sub[0] == s[i]);
            assert(q[0] == e[0]);
        }
        if ln > 1 {
            assert(s[i + 1] == e[1]) by {
                assert(sub[1] == s[i + 1]);
                assert(q[1] == e[1]);
            }
        }
        if c == '"' {
            assert(s[i] == '\\' && s[i + 1] == '"');
            assert(parse_escape(s, i + 1) == Some(('"', i + 2)));
        } else if c == '\\' {
            assert(s[i] == '\\' && s[i + 1] == '\\');
            assert(parse_escape(s, i + 1) == Some(('\\', i + 2)));
        } else if u == 0x08 {
            assert(s[i] == '\\' && s[i + 1] == 'b');
            proof_char_code(c, '\u{0008}');
            assert(parse_escape(s, i + 1) == Some((c, i + 2)));
        } else if u == 0x09 {
            assert(s[i] == '\\' && s[i + 1] == 't');
            proof_char_code(c, '\t');
            assert(parse_escape(s, i + 1) == Some((c, i + 2)));
        } else if u == 0x0A {
            assert(s[i] == '\\' && s[i + 1] == 'n');
            proof_char_code(c, '\n');
            assert(parse_escape(s, i + 1) == Some((c, i + 2)));
        } else if u == 0x0C {
            assert(s[i] == '\\' && s[i + 1] == 'f');
            proof_char_code(c, '\u{000C}');
            assert(parse_escape(s, i + 1) == Some((c, i + 2)));
        } else if u == 0x0D {
            assert(s[i] == '\\' && s[i + 1] == 'r');
            proof_char_code(c, '\r');
            assert(parse_escape(s, i + 1) == Some((c, i + 2)));
        } else if u < 0x20 {
            assert(s[i + 2] == e[2] && s[i + 3] == e[3] && s[i + 4] == e[4] && s[i + 5] == e[5])
                by {
                assert(sub[2] == s[i + 2] && sub[3] == s[i + 3] && sub[4] == s[i + 4] && sub[5]
                    == s[i + 5]);
                assert(q[2] == e[2] && q[3] == e[3] && q[4] == e[4] && q[5] == e[5]);
            }
            assert(s[i] == '\\' && s[i + 1] == 'u' && s[i + 2] == '0' && s[i + 3] == '0' && s[i
                + 4] == hex_char((u / 16) as int) && s[i + 5] == hex_char((u % 16) as int));
            assert(hex_val('0') == Some(0int));
            assert(hex_val(hex_char((u / 16) as int)) == Some((u / 16) as int));
            assert(hex_val(hex_char((u % 16) as int)) == Some((u % 16) as int));
            assert(four_hex(s, i + 2) == Some((u / 16) as int * 16 + (u % 16) as int));
            assert((u / 16) as int * 16 + (u % 16) as int == u as int) by {
                vstd::arithmetic::div_mod::lemma_fundamental_div_mod(u as int, 16);
            }
            assert(parse_u_escape(s, i + 2) == Some((scalar_char(u as int), i + 6)));
            vstd::utf8::char_u32_cast(c, u);
            assert(scalar_char(u as int) == c);
            assert(parse_escape(s, i + 1) == Some((c, i + 6)));
        } else {
            assert(s[i] == c);
        }
    }
}

/// Two characters with one scalar value are one character.
proof fn proof_char_code(a: char, b: char)
    requires
        a as u32 == b as u32,
    ensures
        a == b,
{
    vstd::utf8::char_u32_cast(a, a as u32);
    vstd::utf8::char_u32_cast(b, b as u32);
}

// ------------------------------------------------------------ value reading

/// A character that may stand in a number token.  Number tokens are read
/// leniently: any non-empty run of these characters is accepted.
pub open spec fn is_number_char(c: char) -> bool {
    ('0' as u32 <= c as u32 && c as u32 <= '9' as u32) || c == '-' || c == '+' || c == '.' || c
        == 'e' || c == 'E'
}

pub fn is_number_char_exec(c: char) -> (r: bool)
    ensures
        r == is_number_char(c),
{
    ('0' as u32 <= c as u32 && c as u32 <= '9' as u32) || c == '-' || c == '+' || c == '.' || c
        == 'e' || c == 'E'
}

/// The first index at or after `i` holding no number character.
pub open spec fn skip_number(s: Seq<char>, i: int) -> int
    decreases s.len() - i,
{
    if 0 <= i && i < s.len() && is_number_char(s[i]) {
        skip_number(s, i + 1)
    } else {
        i
    }
}

pub fn number_end(s: &Vec<char>, i: usize) -> (r: usize)
    requires
        i <= s@.len(),
    ensures
        r == skip_number(s@, i as int),
        i <= r <= s@.len(),
{
    let mut j = i;
    while j < s.len() && is_number_char_exec(s[j])
        invariant
            i <= j <= s@.len(),
            skip_number(s@, i as int) == skip_number(s@, j as int),
        decreases s@.len() - j,
    {
        j += 1;
    }
    j
}

/// Reads one JSON value starting at `i` and yields the index just after it.
/// `d` bounds the nesting of objects and arrays still allowed; a document
/// nested deeper fails, as serde_json's default recursion limit makes it
/// fail there.
pub open spec fn skip_value(s: Seq<char>, i: int, d: int) -> Option<int>
    decreases d, s.len() - i, 0int,
{
    if 0 <= i && i < s.len() && d >= 0 {
        let c = s[i];
        if c == '"' {
            match parse_str_body(s, i + 1) {
                None => None,
                Some((t, k)) => Some(k),
            }
        } else if c == '{' {
            if d > 0 {
                let j = skip_ws(s, i + 1);
                if i < j && j <= s.len() {
                    skip_members(s, j, d - 1, true)
                } else {
                    None
                }
            } else {
                None
            }
        } else if c == '[' {
            if d > 0 {
                let j = skip_ws(s, i + 1);
                if i < j && j <= s.len() {
                    skip_elements(s, j, d - 1, true)
                } else {
                    None
                }
            } else {
                None
            }
        } else if c == 't' {
            if i + 4 <= s.len() && s[i + 1] == 'r' && s[i + 2] == 'u' && s[i + 3] == 'e' {
                Some(i + 4)
            } else {
                None
            }
        } else if c == 'f' {
            if i + 5 <= s.len() && s[i + 1] == 'a' && s[i + 2] == 'l' && s[i + 3] == 's' && s[i + 4]
                == 'e' {
                Some(i + 5)
            } else {
                None
            }
        } else if c == 'n' {
            if i + 4 <= s.len() && s[i + 1] == 'u' && s[i + 2] == 'l' && s[i + 3] == 'l' {
                Some(i + 4)
            } else {
                None
            }
        } else if is_number_char(c) {
            Some(skip_number(s, i + 1))
        } else {
            None
        }
    } else {
        None
    }
}

/// Reads the members of an object from just after its opening brace (white
/// space already skipped) to just after its closing brace.  `first` says
/// whether a closing brace may come at once (it may not right after a comma).
pub open spec fn skip_members(s: Seq<char>, i: int, d: int, first: bool) -> Option<int>
    decreases d, s.len() - i, 1int,
{
    if 0 <= i && i < s.len() {
        if first && s[i] == '}' {
            Some(i + 1)
        } else if s[i] == '"' {
            match parse_str_body(s, i + 1) {
                None => None,
                Some((key, k)) => {
                    if i < k && k <= s.len() {
                        let k2 = skip_ws(s, k);
                        if k2 < s.len() && s[k2] == ':' && i < k2 {
                            let v = skip_ws(s, k2 + 1);
                            if k2 < v && v <= s.len() {
                                match skip_value(s, v, d) {
                                    None => None,
                                    Some(e) => {
                                        if i < e && e <= s.len() {
                                            skip_after_member(s, e, d, i)
                                        } else {
                                            None
                                        }
                                    },
                                }
                            } else {
                                None
                            }
                        } else {
                            None
                        }
                    } else {
                        None
                    }
                },
            }
        } else {
            None
        }
    } else {
        None
    }
}

/// After a member's value ending at `e`: a comma leads to the next member, a
/// closing brace ends the object.  `lo` carries the member's start for
/// termination bookkeeping.
pub open spec fn skip_after_member(s: Seq<char>, e: int, d: int, lo: int) -> Option<int>
    decreases d, s.len() - e, 2int,
{
    if lo < e && 0 <= e && e <= s.len() {
        let e2 = skip_ws(s, e);
        if e2 < s.len() && e <= e2 {
            if s[e2] == ',' {
                let m = skip_ws(s, e2 + 1);
                if e2 < m && m <= s.len() {
                    skip_members(s, m, d, false)
                } else {
                    None
                }
            } else if s[e2] == '}' {
                Some(e2 + 1)
            } else {
                None
            }
        } else {
            None
        }
    } else {
        None
    }
}

/// Reads the elements of an array from just after its opening bracket (white
/// space already skipped) to just after its closing bracket.
pub open spec fn skip_elements(s: Seq<char>, i: int, d: int, first: bool) -> Option<int>
    decreases d, s.len() - i, 1int,
{
    if 0 <= i && i < s.len() {
        if first && s[i] == ']' {
            Some(i + 1)
        } else {
            match skip_value(s, i, d) {
                None => None,
                Some(e) => {
                    if i < e && e <= s.len() {
                        skip_after_element(s, e, d, i)
                    } else {
                        None
                    }
                },
            }
        }
    } else {
        None
    }
}

/// After an element ending at `e`: a comma leads to the next element, a
/// closing bracket ends the array.
pub open spec fn skip_after_element(s: Seq<char>, e: int, d: int, lo: int) -> Option<int>
    decreases d, s.len() - e, 2int,
{
    if lo < e && 0 <= e && e <= s.len() {
        let e2 = skip_ws(s, e);
        if e2 < s.len() && e <= e2 {
            if s[e2] == ',' {
                let m = skip_ws(s, e2 + 1);
                if e2 < m && m <= s.len() {
                    skip_elements(s, m, d, false)
                } else {
                    None
                }
            } else if s[e2] == ']' {
                Some(e2 + 1)
            } else {
                None
            }
        } else {
            None
        }
    } else {
        None
    }
}

pub fn scan_value(s: &Vec<char>, i: usize, d: u32) -> (r: Option<usize>)
    requires
        i <= s@.len(),
    ensures
        match r {
            None => skip_value(s@, i as int, d as int) is None,
            Some(e) => skip_value(s@, i as int, d as int) == Some(e as int) && i < e <= s@.len(),
        },
    decreases d, s@.len() - i, 0int,
{
    let len = s.len();
    if i == len {
        return None;
    }
    let c = s[i];
    if c == '"' {
        match scan_string(s, i + 1) {
            None => None,
            Some((_t, k)) => Some(k),
        }
    } else if c == '{' {
        if d > 0 {
            let j = ws_end(s, i + 1);
            scan_members(s, j, d - 1, true)
        } else {
            None
        }
    } else if c == '[' {
        if d > 0 {
            let j = ws_end(s, i + 1);
            scan_elements(s, j, d - 1, true)
        } else {
            None
        }
    } else if c == 't' {
        if len - i >= 4 && s[i + 1] == 'r' && s[i + 2] == 'u' && s[i + 3] == 'e' {
            Some(i + 4)
        } else {
            None
        }
    } else if c == 'f' {
        if len - i >= 5 && s[i + 1] == 'a' && s[i + 2] == 'l' && s[i + 3] == 's' && s[i + 4] == 'e' {
            Some(i + 5)
        } else {
            None
        }
    } else if c == 'n' {
        if len - i >= 4 && s[i + 1] == 'u' && s[i + 2] == 'l' && s[i + 3] == 'l' {
            Some(i + 4)
        } else {
            None
        }
    } else if is_number_char_exec(c) {
        Some(number_end(s, i + 1))
    } else {
        None
    }
}

pub fn scan_members(s: &Vec<char>, i: usize, d: u32, first: bool) -> (r: Option<usize>)
    requires
        i <= s@.len(),
    ensures
        match r {
            None => skip_members(s@, i as int, d as int, first) is None,
            Some(e) => skip_members(s@, i as int, d as int, first) == Some(e as int) && i < e
                <= s@.len(),
        },
    decreases d, s@.len() - i, 1int,
{
    let len = s.len();
    if i == len {
        return None;
    }
    if first && s[i] == '}' {
        return Some(i + 1);
    }
    if s[i] != '"' {
        return None;
    }
    match scan_string(s, i + 1) {
        None => None,
        Some((_key, k)) => {
            let k2 = ws_end(s, k);
            if !(k2 < len && s[k2] == ':') {
                return None;
            }
            let v = ws_end(s, k2 + 1);
            match scan_value(s, v, d) {
                None => None,
                Some(e) => {
                    let e2 = ws_end(s, e);
                    if e2 < len {
                        if s[e2] == ',' {
                            let m = ws_end(s, e2 + 1);
                            scan_members(s, m, d, false)
                        } else if s[e2] == '}' {
                            Some(e2 + 1)
                        } else {
                            None
                        }
                    } else {
                        None
                    }
                },
            }
        },
    }
}

pub fn scan_elements(s: &Vec<char>, i: usize, d: u32, first: bool) -> (r: Option<usize>)
    requires
        i <= s@.len(),
    ensures
        match r {
            None => skip_elements(s@, i as int, d as int, first) is None,
            Some(e) => skip_elements(s@, i as int, d as int, first) == Some(e as int) && i < e
                <= s@.len(),
        },
    decreases d, s@.len() - i, 1int,
{
    let len = s.len();
    if i == len {
        return None;
    }
    if first && s[i] == ']' {
        return Some(i + 1);
    }
    match scan_value(s, i, d) {
        None => None,
        Some(e) => {
            let e2 = ws_end(s, e);
            if e2 < len {
                if s[e2] == ',' {
                    let m = ws_end(s, e2 + 1);
                    scan_elements(s, m, d, false)
                } else if s[e2] == ']' {
                    Some(e2 + 1)
                } else {
                    None
                }
            } else {
                None
            }
        },
    }
}

} // verus!
