//! The persisted configuration: one optional `global_file` path, written as
//! pretty-printed JSON and read back forgivingly (a document that does not
//! parse yields the default configuration).

use vstd::prelude::*;
use crate::json::{esc_seq, parse_str_body, scan_string, scan_value, skip_value, skip_ws, ws_end};
use crate::text::push_str_chars;

verus! {

/// The application's settings: the default target file for new tasks, if one
/// was configured.
pub struct Config {
    pub global_file: Option<Vec<char>>,
}

impl View for Config {
    type V = Option<Seq<char>>;

    open spec fn view(&self) -> Option<Seq<char>> {
        match self.global_file {
            None => None,
            Some(ref v) => Some(v@),
        }
    }
}

impl Default for Config {
    /// The configuration used when no file exists or the file does not
    /// parse: no global file.
    fn default() -> (c: Config)
        ensures
            c@ is None,
    {
        Config { global_file: None }
    }
}

/// The characters of the configuration's one member name.
pub open spec fn key_chars() -> Seq<char> {
    seq!['g', 'l', 'o', 'b', 'a', 'l', '_', 'f', 'i', 'l', 'e']
}

/// The characters before the member's value in the written document.
pub open spec fn config_head() -> Seq<char> {
    seq![
        '{',
        '\n',
        ' ',
        ' ',
        '"',
        'g',
        'l',
        'o',
        'b',
        'a',
        'l',
        '_',
        'f',
        'i',
        'l',
        'e',
        '"',
        ':',
        ' ',
    ]
}

/// The characters after the member's value in the written document.
pub open spec fn config_tail() -> Seq<char> {
    seq!['\n', '}']
}

pub open spec fn null_chars() -> Seq<char> {
    seq!['n', 'u', 'l', 'l']
}

/// The configuration document exactly as it is written: the one member,
/// pretty-printed with a two-space indent, the path escaped as a JSON
/// string, an absent path written as `null`.
pub open spec fn config_text(g: Option<Seq<char>>) -> Seq<char> {
    match g {
        None => config_head() + null_chars() + config_tail(),
        Some(p) => config_head() + seq!['"'] + esc_seq(p) + seq!['"'] + config_tail(),
    }
}

/// Serializes the configuration, character for character the document that
/// `config_text` describes.
pub fn serialize_config(c: &Config) -> (r: Vec<char>)
    ensures
        r@ == config_text(c@),
{
    let mut out: Vec<char> = Vec::new();
    push_str_chars(&mut out, "{\n  \"global_file\": ");
    proof {
        reveal_strlit("{\n  \"global_file\": ");
        assert("{\n  \"global_file\": "@ =~= config_head());
    }
    match &c.global_file {
        None => {
            push_str_chars(&mut out, "null");
            proof {
                reveal_strlit("null");
                assert("null"@ =~= null_chars());
            }
        },
        Some(p) => {
            out.push('"');
            crate::json::push_escaped(&mut out, p);
            out.push('"');
        },
    }
    out.push('\n');
    out.push('}');
    proof {
        assert(out@ =~= config_text(c@));
    }
    out
}

/// The nesting allowance for member values that are skipped, matching
/// serde_json's default recursion limit.
pub open spec fn spec_depth_limit() -> int {
    128
}

/// The decoded path a member value stands for, seen abstractly.
pub open spec fn opt_chars_view(o: Option<Vec<char>>) -> Option<Seq<char>> {
    match o {
        None => None,
        Some(ref v) => Some(v@),
    }
}

/// The ghost value a captured member has: not seen yet, or seen with the
/// decoded path (absent or present).
pub open spec fn seen_view(a: Option<Option<Vec<char>>>) -> Option<Option<Seq<char>>> {
    match a {
        None => None,
        Some(v) => Some(opt_chars_view(v)),
    }
}

/// Does a decoded member name spell `global_file`?
pub fn is_global_file_key(v: &Vec<char>) -> (r: bool)
    ensures
        r == (v@ == key_chars()),
{
    if v.len() != 11 {
        proof {
            if v@ == key_chars() {
                assert(v@.len() == 11);
            }
        }
        return false;
    }
    let ok = v[0] == 'g' && v[1] == 'l' && v[2] == 'o' && v[3] == 'b' && v[4] == 'a' && v[5] == 'l'
        && v[6] == '_' && v[7] == 'f' && v[8] == 'i' && v[9] == 'l' && v[10] == 'e';
    proof {
        if ok {
            assert(v@ =~= key_chars());
        } else {
            if v@ == key_chars() {
                assert(v@[0] == 'g' && v@[1] == 'l' && v@[2] == 'o' && v@[3] == 'b' && v@[4] == 'a'
                    && v@[5] == 'l' && v@[6] == '_' && v@[7] == 'f' && v@[8] == 'i' && v@[9] == 'l'
                    && v@[10] == 'e');
            }
        }
    }
    ok
}

/// The configuration a finished object decodes to: an unseen member means an
/// absent path.
pub open spec fn member_result(acc: Option<Option<Seq<char>>>) -> Option<Seq<char>> {
    match acc {
        None => None,
        Some(v) => v,
    }
}

/// Reads the members of the configuration object from `i` (just after the
/// opening brace or a separating comma, white space skipped): the
/// `global_file` member must be a string or `null` and may come once, other
/// members are skipped, and the result is the decoded path with the index
/// just after the closing brace.  `acc` carries the member if already seen;
/// `first` says whether the closing brace may come at once.
pub open spec fn config_members(
    s: Seq<char>,
    i: int,
    acc: Option<Option<Seq<char>>>,
    first: bool,
) -> Option<(Option<Seq<char>>, int)>
    decreases s.len() - i, 1int,
{
    if 0 <= i && i < s.len() {
        if first && s[i] == '}' {
            Some((member_result(acc), i + 1))
        } else if s[i] == '"' {
            match parse_str_body(s, i + 1) {
                None => None,
                Some((key, k)) => {
                    if i < k && k <= s.len() {
                        let k2 = skip_ws(s, k);
                        if i < k2 && k2 < s.len() && s[k2] == ':' {
                            let v = skip_ws(s, k2 + 1);
                            if k2 < v && v <= s.len() {
                                if key == key_chars() {
                                    if acc is Some {
                                        None
                                    } else if v < s.len() && s[v] == '"' {
                                        match parse_str_body(s, v + 1) {
                                            None => None,
                                            Some((p, e)) => {
                                                if v < e && e <= s.len() {
                                                    config_after_member(s, e, Some(Some(p)), i)
                                                } else {
                                                    None
                                                }
                                            },
                                        }
                                    } else if v + 4 <= s.len() && s[v] == 'n' && s[v + 1] == 'u'
                                        && s[v + 2] == 'l' && s[v + 3] == 'l' {
                                        config_after_member(s, v + 4, Some(None), i)
                                    } else {
                                        None
                                    }
                                } else {
                                    match skip_value(s, v, spec_depth_limit()) {
                                        None => None,
                                        Some(e) => {
                                            if v < e && e <= s.len() {
                                                config_after_member(s, e, acc, i)
                                            } else {
                                                None
                                            }
                                        },
                                    }
                                }
                            } else {
                                None
                            }
                        } else {
                            None
                        }
                    } else {
                        None
                    }
                },
            }
        } else {
            None
        }
    } else {
        None
    }
}

/// After a member's value ending at `e`: a comma leads to the next member, a
/// closing brace ends the object.
pub open spec fn config_after_member(
    s: Seq<char>,
    e: int,
    acc: Option<Option<Seq<char>>>,
    lo: int,
) -> Option<(Option<Seq<char>>, int)>
    decreases s.len() - e, 2int,
{
    if lo < e && 0 <= e && e <= s.len() {
        let e2 = skip_ws(s, e);
        if e <= e2 && e2 < s.len() {
            if s[e2] == ',' {
                let m = skip_ws(s, e2 + 1);
                if e2 < m && m <= s.len() {
                    config_members(s, m, acc, false)
                } else {
                    None
                }
            } else if s[e2] == '}' {
                Some((member_result(acc), e2 + 1))
            } else {
                None
            }
        } else {
            None
        }
    } else {
        None
    }
}

/// Reads a whole configuration document the way serde_json decodes the
/// configuration: one object, nothing but white space around it, a missing
/// `global_file` member meaning an absent path.  `None` is a document that
/// does not decode.
pub open spec fn parse_config(s: Seq<char>) -> Option<Option<Seq<char>>> {
    let i = skip_ws(s, 0);
    if 0 <= i && i < s.len() && s[i] == '{' {
        let j = skip_ws(s, i + 1);
        if i < j && j <= s.len() {
            match config_members(s, j, None, true) {
                None => None,
                Some((g, e)) => {
                    if 0 <= e && e <= s.len() && skip_ws(s, e) == s.len() {
                        Some(g)
                    } else {
                        None
                    }
                },
            }
        } else {
            None
        }
    } else {
        None
    }
}

fn config_members_exec(s: &Vec<char>, i: usize, acc: Option<Option<Vec<char>>>, first: bool) -> (r:
    Option<(Option<Vec<char>>, usize)>)
    requires
        i <= s@.len(),
    ensures
        match r {
            None => config_members(s@, i as int, seen_view(acc), first) is None,
            Some(p) => config_members(s@, i as int, seen_view(acc), first) == Some(
                (opt_chars_view(p.0), p.1 as int),
            ) && i < p.1 <= s@.len(),
        },
    decreases s@.len() - i, 1int,
{
    let len = s.len();
    if i == len {
        return None;
    }
    if first && s[i] == '}' {
        return Some((unwrap_seen(acc), i + 1));
    }
    if s[i] != '"' {
        return None;
    }
    match scan_string(s, i + 1) {
        None => None,
        Some((key, k)) => {
            let k2 = ws_end(s, k);
            if !(k2 < len && s[k2] == ':') {
                return None;
            }
            let v = ws_end(s, k2 + 1);
            if is_global_file_key(&key) {
                if acc.is_some() {
                    return None;
                }
                if v < len && s[v] == '"' {
                    match scan_string(s, v + 1) {
                        None => None,
                        Some((p, e)) => config_after_member_exec(s, e, Some(Some(p)), i),
                    }
                } else if len - v >= 4 && s[v] == 'n' && s[v + 1] == 'u' && s[v + 2] == 'l' && s[v
                    + 3] == 'l' {
                    config_after_member_exec(s, v + 4, Some(None), i)
                } else {
                    None
                }
            } else {
                match scan_value(s, v, 128) {
                    None => None,
                    Some(e) => config_after_member_exec(s, e, acc, i),
                }
            }
        },
    }
}

fn config_after_member_exec(s: &Vec<char>, e: usize, acc: Option<Option<Vec<char>>>, lo: usize) -> (
    r: Option<(Option<Vec<char>>, usize)>)
    requires
        lo < e <= s@.len(),
    ensures
        match r {
            None => config_after_member(s@, e as int, seen_view(acc), lo as int) is None,
            Some(p) => config_after_member(s@, e as int, seen_view(acc), lo as int) == Some(
                (opt_chars_view(p.0), p.1 as int),
            ) && e <= p.1 <= s@.len(),
        },
    decreases s@.len() - e, 2int,
{
    let len = s.len();
    let e2 = ws_end(s, e);
    if !(e2 < len) {
        return None;
    }
    if s[e2] == ',' {
        let m = ws_end(s, e2 + 1);
        config_members_exec(s, m, acc, false)
    } else if s[e2] == '}' {
        Some((unwrap_seen(acc), e2 + 1))
    } else {
        None
    }
}

fn unwrap_seen(acc: Option<Option<Vec<char>>>) -> (r: Option<Vec<char>>)
    ensures
        opt_chars_view(r) == member_result(seen_view(acc)),
{
    match acc {
        None => None,
        Some(v) => v,
    }
}

/// Decodes a configuration document; `None` is a document that does not
/// decode (and the loader then falls back to the default).
pub fn parse_config_chars(s: &Vec<char>) -> (r: Option<Config>)
    ensures
        match r {
            None => parse_config(s@) is None,
            Some(c) => parse_config(s@) == Some(c@),
        },
{
    let i = ws_end(s, 0);
    if !(i < s.len() && s[i] == '{') {
        return None;
    }
    let j = ws_end(s, i + 1);
    match config_members_exec(s, j, None, true) {
        None => None,
        Some((g, e)) => {
            let e2 = ws_end(s, e);
            if e2 == s.len() {
                Some(Config { global_file: g })
            } else {
                None
            }
        },
    }
}

proof fn lemma_key_plain()
    ensures
        esc_seq(key_chars()) == key_chars(),
{
    assert forall|j: int| 0 <= j < key_chars().len() implies crate::json::esc_char(
        #[trigger] key_chars()[j],
    ) == seq![key_chars()[j]] by {
        let c = key_chars()[j];
        assert(crate::json::esc_char(c) =~= seq![c]);
    }
    crate::json::lemma_esc_plain(key_chars());
}

/// Reading the written document's fixed opening: the brace, the member name,
/// the colon, and the white space around them.
#[verifier::rlimit(100)]
proof fn lemma_head_parse(s: Seq<char>)
    requires
        s.len() >= 19,
        s.subrange(0, 19) == config_head(),
    ensures
        s[0] == '{',
        s[4] == '"',
        s[17] == ':',
        skip_ws(s, 0) == 0,
        skip_ws(s, 1) == 4,
        skip_ws(s, 17) == 17,
        skip_ws(s, 18) == skip_ws(s, 19),
        parse_str_body(s, 5) == Some((key_chars(), 17int)),
{
    let sub = s.subrange(0, 19);
    assert forall|t: int| 0 <= t < 19 implies s[t] == config_head()[t] by {
        assert(sub[t] == s[t]);
    }
    assert(s[0] == '{' && s[1] == '\n' && s[2] == ' ' && s[3] == ' ' && s[4] == '"');
    assert(s[16] == '"' && s[17] == ':' && s[18] == ' ');
    assert(skip_ws(s, 0) == 0);
    assert(skip_ws(s, 1) == skip_ws(s, 2));
    assert(skip_ws(s, 2) == skip_ws(s, 3));
    assert(skip_ws(s, 3) == skip_ws(s, 4));
    assert(skip_ws(s, 4) == 4);
    assert(skip_ws(s, 17) == 17);
    assert(skip_ws(s, 18) == skip_ws(s, 19));
    lemma_key_plain();
    assert(s.subrange(5, 17) =~= key_chars() + seq!['"']) by {
        assert(forall|t: int| 0 <= t < 12 ==> #[trigger] s.subrange(5, 17)[t] == s[t + 5]);
    }
    crate::json::lemma_parse_escaped_at(s, 5, key_chars());
}

#[verifier::rlimit(100)]
proof fn lemma_round_trip_none()
    ensures
        parse_config(config_text(None)) == Some(None::<Seq<char>>),
{
    let s = config_text(None);
    assert(s.len() == 25);
    assert(s.subrange(0, 19) =~= config_head());
    lemma_head_parse(s);
    assert(s[19] == 'n' && s[20] == 'u' && s[21] == 'l' && s[22] == 'l' && s[23] == '\n' && s[24]
        == '}');
    assert(skip_ws(s, 19) == 19);
    assert(skip_ws(s, 23) == skip_ws(s, 24));
    assert(skip_ws(s, 24) == 24);
    assert(config_after_member(s, 23, Some(None), 4) == Some((None::<Seq<char>>, 25int)));
    assert(config_members(s, 4, None, true) == Some((None::<Seq<char>>, 25int)));
    assert(skip_ws(s, 25) == 25);
    assert(parse_config(s) == Some(None::<Seq<char>>));
}

#[verifier::rlimit(100)]
proof fn lemma_round_trip_some(p: Seq<char>)
    ensures
        parse_config(config_text(Some(p))) == Some(Some(p)),
{
    let s = config_text(Some(p));
    let el = esc_seq(p).len() as int;
    assert(s.len() == 23 + el);
    assert(s.subrange(0, 19) =~= config_head());
    lemma_head_parse(s);
    assert(s[19] == '"');
    assert(s[21 + el] == '\n' && s[22 + el] == '}');
    assert(skip_ws(s, 19) == 19);
    assert(s.subrange(20, 21 + el) =~= esc_seq(p) + seq!['"']) by {
        assert(forall|t: int| 0 <= t <= el ==> #[trigger] s.subrange(20, 21 + el)[t] == s[t + 20]);
    }
    crate::json::lemma_parse_escaped_at(s, 20, p);
    assert(parse_str_body(s, 20) == Some((p, 21 + el)));
    assert(skip_ws(s, 21 + el) == skip_ws(s, 22 + el));
    assert(skip_ws(s, 22 + el) == 22 + el);
    assert(config_after_member(s, 21 + el, Some(Some(p)), 4) == Some((Some(p), 23 + el)));
    assert(config_members(s, 4, None, true) == Some((Some(p), 23 + el)));
    assert(skip_ws(s, 23 + el) == 23 + el);
    assert(parse_config(s) == Some(Some(p)));
}

/// Saving a configuration and then loading it in a later run returns the
/// same configuration: the document the writer produces decodes to exactly
/// the value it was produced from.
pub proof fn lemma_config_round_trip(g: Option<Seq<char>>)
    ensures
        parse_config(config_text(g)) == Some(g),
{
    match g {
        None => lemma_round_trip_none(),
        Some(p) => lemma_round_trip_some(p),
    }
}

/// What loading makes of the file's characters: the decoded configuration,
/// or the default when the document does not decode.  The second result says
/// whether the fallback was taken (so the caller can warn); the process
/// never aborts over a corrupted document.
pub fn load_config_from_text(s: &Vec<char>) -> (r: (Config, bool))
    ensures
        r.1 == (parse_config(s@) is None),
        r.0@ == (match parse_config(s@) {
            None => None::<Seq<char>>,
            Some(g) => g,
        }),
{
    match parse_config_chars(s) {
        Some(c) => (c, false),
        None => (Config { global_file: None }, true),
    }
}

/// Loads the configuration from the file's characters, or from nothing when
/// the file is absent.  An absent file and a document that does not decode
/// both yield the default configuration; only the latter is worth a warning
/// (the second result); neither aborts.
pub fn load_config(contents: Option<&Vec<char>>) -> (r: (Config, bool))
    ensures
        match contents {
            None => r.0@ is None && !r.1,
            Some(s) => r.1 == (parse_config(s@) is None) && r.0@ == (match parse_config(s@) {
                None => None::<Seq<char>>,
                Some(g) => g,
            }),
        },
{
    match contents {
        None => (Config { global_file: None }, false),
        Some(s) => load_config_from_text(s),
    }
}

} // verus!
