//! The completion client's verified half: the prompt and request document
//! sent to the service, the reading of its answer, and the choice of the
//! final line content for every outcome of the call.  The network call
//! itself stays with the calling binary, which hands the body bytes back.

use vstd::prelude::*;
use crate::json::{esc_seq, parse_str_body, scan_string, scan_value, skip_value, skip_ws, ws_end};
use crate::task::{status_fallback, status_fallback_text, transport_fallback, transport_fallback_text};
use crate::text::{push_str_chars, trim_chars, trim_seq};

verus! {

/// The fixed text around the raw task in the prompt.
pub open spec fn prompt_head() -> Seq<char> {
    "Human: You are a helpful assistant. Take the following raw task and improve it for a markdown task list.\n        Make it clearer and more actionable. Add a single '- [ ] \u{1F4CB}' prefix. Raw task: \""@
}

pub open spec fn prompt_tail() -> Seq<char> {
    "\"\n\nAssistant:"@
}

/// The whole prompt for a raw task.
pub open spec fn prompt_text(raw: Seq<char>) -> Seq<char> {
    prompt_head() + raw + prompt_tail()
}

/// Builds the prompt sent to the completion service.
pub fn build_prompt(raw: &Vec<char>) -> (r: Vec<char>)
    ensures
        r@ == prompt_text(raw@),
{
    let mut out: Vec<char> = Vec::new();
    push_str_chars(
        &mut out,
        "Human: You are a helpful assistant. Take the following raw task and improve it for a markdown task list.\n        Make it clearer and more actionable. Add a single '- [ ] \u{1F4CB}' prefix. Raw task: \"",
    );
    crate::task::push_all(&mut out, raw);
    push_str_chars(&mut out, "\"\n\nAssistant:");
    out
}

/// The fixed text around the escaped prompt in the request document.
pub open spec fn request_head() -> Seq<char> {
    "{\"model\":\"google/gemini-2.0-flash-001\",\"prompt\":\""@
}

pub open spec fn request_tail() -> Seq<char> {
    "\",\"max_tokens\":100}"@
}

/// The request document: the fixed model name, the escaped prompt, and the
/// token budget, exactly as serde_json writes the request compactly.
pub open spec fn request_body_text(raw: Seq<char>) -> Seq<char> {
    request_head() + esc_seq(prompt_text(raw)) + request_tail()
}

/// Builds the request document for a raw task.
pub fn build_request_body(raw: &Vec<char>) -> (r: Vec<char>)
    ensures
        r@ == request_body_text(raw@),
{
    let prompt = build_prompt(raw);
    let mut out: Vec<char> = Vec::new();
    push_str_chars(&mut out, "{\"model\":\"google/gemini-2.0-flash-001\",\"prompt\":\"");
    crate::json::push_escaped(&mut out, &prompt);
    push_str_chars(&mut out, "\",\"max_tokens\":100}");
    out
}

// ------------------------------------------------------------ the answer

/// The member name holding the candidate completions.
pub open spec fn choices_key() -> Seq<char> {
    seq!['c', 'h', 'o', 'i', 'c', 'e', 's']
}

/// The member name holding one candidate's text.
pub open spec fn text_key() -> Seq<char> {
    seq!['t', 'e', 'x', 't']
}

/// The nesting allowance for members that are skipped.
pub open spec fn skip_depth() -> int {
    128
}

/// Reads the members of one candidate object: the required `text` member (a
/// string, at most once), other members skipped; yields the text and the
/// index after the closing brace.
pub open spec fn choice_members(s: Seq<char>, i: int, acc: Option<Seq<char>>, first: bool) -> Option<
    (Seq<char>, int),
>
    decreases s.len() - i, 1int,
{
    if 0 <= i && i < s.len() {
        if first && s[i] == '}' {
            match acc {
                None => None,
                Some(t) => Some((t, i + 1)),
            }
        } else if s[i] == '"' {
            match parse_str_body(s, i + 1) {
                None => None,
                Some((key, k)) => {
                    if i < k && k <= s.len() {
                        let k2 = skip_ws(s, k);
                        if i < k2 && k2 < s.len() && s[k2] == ':' {
                            let v = skip_ws(s, k2 + 1);
                            if k2 < v && v <= s.len() {
                                if key == text_key() {
                                    if acc is Some {
                                        None
                                    } else if v < s.len() && s[v] == '"' {
                                        match parse_str_body(s, v + 1) {
                                            None => None,
                                            Some((t, e)) => {
                                                if v < e && e <= s.len() {
                                                    choice_after_member(s, e, Some(t), i)
                                                } else {
                                                    None
                                                }
                                            },
                                        }
                                    } else {
                                        None
                                    }
                                } else {
                                    match skip_value(s, v, skip_depth()) {
                                        None => None,
                                        Some(e) => {
                                            if v < e && e <= s.len() {
                                                choice_after_member(s, e, acc, i)
                                            } else {
                                                None
                                            }
                                        },
                                    }
                                }
                            } else {
                                None
                            }
                        } else {
                            None
                        }
                    } else {
                        None
                    }
                },
            }
        } else {
            None
        }
    } else {
        None
    }
}

pub open spec fn choice_after_member(s: Seq<char>, e: int, acc: Option<Seq<char>>, lo: int) -> Option<
    (Seq<char>, int),
>
    decreases s.len() - e, 2int,
{
    if lo < e && 0 <= e && e <= s.len() {
        let e2 = skip_ws(s, e);
        if e <= e2 && e2 < s.len() {
            if s[e2] == ',' {
                let m = skip_ws(s, e2 + 1);
                if e2 < m && m <= s.len() {
                    choice_members(s, m, acc, false)
                } else {
                    None
                }
            } else if s[e2] == '}' {
                match acc {
                    None => None,
                    Some(t) => Some((t, e2 + 1)),
                }
            } else {
                None
            }
        } else {
            None
        }
    } else {
        None
    }
}

/// Reads the elements of the `choices` array: each one a candidate object;
/// yields every candidate's text in order.
pub open spec fn choices_elements(s: Seq<char>, i: int, acc: Seq<Seq<char>>, first: bool) -> Option<
    (Seq<Seq<char>>, int),
>
    decreases s.len() - i, 1int,
{
    if 0 <= i && i < s.len() {
        if first && s[i] == ']' {
            Some((acc, i + 1))
        } else if s[i] == '{' {
            let j = skip_ws(s, i + 1);
            if i < j && j <= s.len() {
                match choice_members(s, j, None, true) {
                    None => None,
                    Some((t, e)) => {
                        if i < e && e <= s.len() {
                            choices_after_element(s, e, acc.push(t), i)
                        } else {
                            None
                        }
                    },
                }
            } else {
                None
            }
        } else {
            None
        }
    } else {
        None
    }
}

pub open spec fn choices_after_element(s: Seq<char>, e: int, acc: Seq<Seq<char>>, lo: int) -> Option<
    (Seq<Seq<char>>, int),
>
    decreases s.len() - e, 2int,
{
    if lo < e && 0 <= e && e <= s.len() {
        let e2 = skip_ws(s, e);
        if e <= e2 && e2 < s.len() {
            if s[e2] == ',' {
                let m = skip_ws(s, e2 + 1);
                if e2 < m && m <= s.len() {
                    choices_elements(s, m, acc, false)
                } else {
                    None
                }
            } else if s[e2] == ']' {
                Some((acc, e2 + 1))
            } else {
                None
            }
        } else {
            None
        }
    } else {
        None
    }
}

/// Reads the members of the answer's top object: the required `choices`
/// member (an array of candidate objects, at most once), other members
/// skipped.
pub open spec fn response_members(
    s: Seq<char>,
    i: int,
    acc: Option<Seq<Seq<char>>>,
    first: bool,
) -> Option<(Seq<Seq<char>>, int)>
    decreases s.len() - i, 1int,
{
    if 0 <= i && i < s.len() {
        if first && s[i] == '}' {
            match acc {
                None => None,
                Some(ts) => Some((ts, i + 1)),
            }
        } else if s[i] == '"' {
            match parse_str_body(s, i + 1) {
                None => None,
                Some((key, k)) => {
                    if i < k && k <= s.len() {
                        let k2 = skip_ws(s, k);
                        if i < k2 && k2 < s.len() && s[k2] == ':' {
                            let v = skip_ws(s, k2 + 1);
                            if k2 < v && v <= s.len() {
                                if key == choices_key() {
                                    if acc is Some {
                                        None
                                    } else if v < s.len() && s[v] == '[' {
                                        let w = skip_ws(s, v + 1);
                                        if v < w && w <= s.len() {
                                            match choices_elements(s, w, Seq::empty(), true) {
                                                None => None,
                                                Some((ts, e)) => {
                                                    if i < e && e <= s.len() {
                                                        response_after_member(s, e, Some(ts), i)
                                                    } else {
                                                        None
                                                    }
                                                },
                                            }
                                        } else {
                                            None
                                        }
                                    } else {
                                        None
                                    }
                                } else {
                                    match skip_value(s, v, skip_depth()) {
                                        None => None,
                                        Some(e) => {
                                            if v < e && e <= s.len() {
                                                response_after_member(s, e, acc, i)
                                            } else {
                                                None
                                            }
                                        },
                                    }
                                }
                            } else {
                                None
                            }
                        } else {
                            None
                        }
                    } else {
                        None
                    }
                },
            }
        } else {
            None
        }
    } else {
        None
    }
}

pub open spec fn response_after_member(
    s: Seq<char>,
    e: int,
    acc: Option<Seq<Seq<char>>>,
    lo: int,
) -> Option<(Seq<Seq<char>>, int)>
    decreases s.len() - e, 2int,
{
    if lo < e && 0 <= e && e <= s.len() {
        let e2 = skip_ws(s, e);
        if e <= e2 && e2 < s.len() {
            if s[e2] == ',' {
                let m = skip_ws(s, e2 + 1);
                if e2 < m && m <= s.len() {
                    response_members(s, m, acc, false)
                } else {
                    None
                }
            } else if s[e2] == '}' {
                match acc {
                    None => None,
                    Some(ts) => Some((ts, e2 + 1)),
                }
            } else {
                None
            }
        } else {
            None
        }
    } else {
        None
    }
}

/// Decodes a whole answer document the way serde_json decodes the answer
/// struct: one object, a required `choices` array of objects each with a
/// required string `text`, unknown members skipped, nothing but white space
/// around the object.  `None` is a document that does not decode.
pub open spec fn parse_response(s: Seq<char>) -> Option<Seq<Seq<char>>> {
    let i = skip_ws(s, 0);
    if 0 <= i && i < s.len() && s[i] == '{' {
        let j = skip_ws(s, i + 1);
        if i < j && j <= s.len() {
            match response_members(s, j, None, true) {
                None => None,
                Some((ts, e)) => {
                    if 0 <= e && e <= s.len() && skip_ws(s, e) == s.len() {
                        Some(ts)
                    } else {
                        None
                    }
                },
            }
        } else {
            None
        }
    } else {
        None
    }
}

/// The text a candidate's member value stands for, seen abstractly.
pub open spec fn opt_text_view(o: Option<Vec<char>>) -> Option<Seq<char>> {
    match o {
        None => None,
        Some(ref v) => Some(v@),
    }
}

/// The candidates' texts, seen abstractly.
pub open spec fn texts_view(v: Seq<Vec<char>>) -> Seq<Seq<char>> {
    Seq::new(v.len(), |k: int| v[k]@)
}

proof fn lemma_texts_view_push(v: Seq<Vec<char>>, t: Vec<char>)
    ensures
        texts_view(v.push(t)) == texts_view(v).push(t@),
{
    assert(texts_view(v.push(t)) =~= texts_view(v).push(t@));
}

/// Does a decoded member name spell `text`?
fn is_text_key(v: &Vec<char>) -> (r: bool)
    ensures
        r == (v@ == text_key()),
{
    if v.len() != 4 {
        proof {
            if v@ == text_key() {
                assert(v@.len() == 4);
            }
        }
        return false;
    }
    let ok = v[0] == 't' && v[1] == 'e' && v[2] == 'x' && v[3] == 't';
    proof {
        if ok {
            assert(v@ =~= text_key());
        } else {
            if v@ == text_key() {
                assert(v@[0] == 't' && v@[1] == 'e' && v@[2] == 'x' && v@[3] == 't');
            }
        }
    }
    ok
}

/// Does a decoded member name spell `choices`?
fn is_choices_key(v: &Vec<char>) -> (r: bool)
    ensures
        r == (v@ == choices_key()),
{
    if v.len() != 7 {
        proof {
            if v@ == choices_key() {
                assert(v@.len() == 7);
            }
        }
        return false;
    }
    let ok = v[0] == 'c' && v[1] == 'h' && v[2] == 'o' && v[3] == 'i' && v[4] == 'c' && v[5] == 'e'
        && v[6] == 's';
    proof {
        if ok {
            assert(v@ =~= choices_key());
        } else {
            if v@ == choices_key() {
                assert(v@[0] == 'c' && v@[1] == 'h' && v@[2] == 'o' && v@[3] == 'i' && v@[4] == 'c'
                    && v@[5] == 'e' && v@[6] == 's');
            }
        }
    }
    ok
}

fn choice_members_exec(s: &Vec<char>, i: usize, acc: Option<Vec<char>>, first: bool) -> (r: Option<
    (Vec<char>, usize),
>)
    requires
        i <= s@.len(),
    ensures
        match r {
            None => choice_members(s@, i as int, opt_text_view(acc), first) is None,
            Some(p) => choice_members(s@, i as int, opt_text_view(acc), first) == Some(
                (p.0@, p.1 as int),
            ) && i < p.1 <= s@.len(),
        },
    decreases s@.len() - i, 1int,
{
    let len = s.len();
    if i == len {
        return None;
    }
    if first && s[i] == '}' {
        return match acc {
            None => None,
            Some(t) => Some((t, i + 1)),
        };
    }
    if s[i] != '"' {
        return None;
    }
    match scan_string(s, i + 1) {
        None => None,
        Some((key, k)) => {
            let k2 = ws_end(s, k);
            if !(k2 < len && s[k2] == ':') {
                return None;
            }
            let v = ws_end(s, k2 + 1);
            if is_text_key(&key) {
                if acc.is_some() {
                    return None;
                }
                if v < len && s[v] == '"' {
                    match scan_string(s, v + 1) {
                        None => None,
                        Some((t, e)) => choice_after_member_exec(s, e, Some(t), i),
                    }
                } else {
                    None
                }
            } else {
                match scan_value(s, v, 128) {
                    None => None,
                    Some(e) => choice_after_member_exec(s, e, acc, i),
                }
            }
        },
    }
}

fn choice_after_member_exec(s: &Vec<char>, e: usize, acc: Option<Vec<char>>, lo: usize) -> (r:
    Option<(Vec<char>, usize)>)
    requires
        lo < e <= s@.len(),
    ensures
        match r {
            None => choice_after_member(s@, e as int, opt_text_view(acc), lo as int) is None,
            Some(p) => choice_after_member(s@, e as int, opt_text_view(acc), lo as int) == Some(
                (p.0@, p.1 as int),
            ) && e <= p.1 <= s@.len(),
        },
    decreases s@.len() - e, 2int,
{
    let len = s.len();
    let e2 = ws_end(s, e);
    if !(e2 < len) {
        return None;
    }
    if s[e2] == ',' {
        let m = ws_end(s, e2 + 1);
        choice_members_exec(s, m, acc, false)
    } else if s[e2] == '}' {
        match acc {
            None => None,
            Some(t) => Some((t, e2 + 1)),
        }
    } else {
        None
    }
}

fn choices_elements_exec(s: &Vec<char>, i: usize, acc: Vec<Vec<char>>, first: bool) -> (r: Option<
    (Vec<Vec<char>>, usize),
>)
    requires
        i <= s@.len(),
    ensures
        match r {
            None => choices_elements(s@, i as int, texts_view(acc@), first) is None,
            Some(p) => choices_elements(s@, i as int, texts_view(acc@), first) == Some(
                (texts_view(p.0@), p.1 as int),
            ) && i < p.1 <= s@.len(),
        },
    decreases s@.len() - i, 1int,
{
    let len = s.len();
    if i == len {
        return None;
    }
    if first && s[i] == ']' {
        return Some((acc, i + 1));
    }
    if s[i] != '{' {
        return None;
    }
    let j = ws_end(s, i + 1);
    match choice_members_exec(s, j, None, true) {
        None => None,
        Some((t, e)) => {
            proof {
                lemma_texts_view_push(acc@, t);
            }
            let mut acc2 = acc;
            acc2.push(t);
            choices_after_element_exec(s, e, acc2, i)
        },
    }
}

fn choices_after_element_exec(s: &Vec<char>, e: usize, acc: Vec<Vec<char>>, lo: usize) -> (r:
    Option<(Vec<Vec<char>>, usize)>)
    requires
        lo < e <= s@.len(),
    ensures
        match r {
            None => choices_after_element(s@, e as int, texts_view(acc@), lo as int) is None,
            Some(p) => choices_after_element(s@, e as int, texts_view(acc@), lo as int) == Some(
                (texts_view(p.0@), p.1 as int),
            ) && e <= p.1 <= s@.len(),
        },
    decreases s@.len() - e, 2int,
{
    let len = s.len();
    let e2 = ws_end(s, e);
    if !(e2 < len) {
        return None;
    }
    if s[e2] == ',' {
        let m = ws_end(s, e2 + 1);
        choices_elements_exec(s, m, acc, false)
    } else if s[e2] == ']' {
        Some((acc, e2 + 1))
    } else {
        None
    }
}

fn response_members_exec(s: &Vec<char>, i: usize, acc: Option<Vec<Vec<char>>>, first: bool) -> (r:
    Option<(Vec<Vec<char>>, usize)>)
    requires
        i <= s@.len(),
    ensures
        match r {
            None => response_members(s@, i as int, acc_texts_view(acc), first) is None,
            Some(p) => response_members(s@, i as int, acc_texts_view(acc), first) == Some(
                (texts_view(p.0@), p.1 as int),
            ) && i < p.1 <= s@.len(),
        },
    decreases s@.len() - i, 1int,
{
    let len = s.len();
    if i == len {
        return None;
    }
    if first && s[i] == '}' {
        return match acc {
            None => None,
            Some(ts) => Some((ts, i + 1)),
        };
    }
    if s[i] != '"' {
        return None;
    }
    match scan_string(s, i + 1) {
        None => None,
        Some((key, k)) => {
            let k2 = ws_end(s, k);
            if !(k2 < len && s[k2] == ':') {
                return None;
            }
            let v = ws_end(s, k2 + 1);
            if is_choices_key(&key) {
                if acc.is_some() {
                    return None;
                }
                if v < len && s[v] == '[' {
                    let w = ws_end(s, v + 1);
                    let empty: Vec<Vec<char>> = Vec::new();
                    proof {
                        assert(texts_view(empty@) =~= Seq::<Seq<char>>::empty());
                    }
                    match choices_elements_exec(s, w, empty, true) {
                        None => None,
                        Some((ts, e)) => response_after_member_exec(s, e, Some(ts), i),
                    }
                } else {
                    None
                }
            } else {
                match scan_value(s, v, 128) {
                    None => None,
                    Some(e) => response_after_member_exec(s, e, acc, i),
                }
            }
        },
    }
}

/// The top object's captured member, seen abstractly.
pub open spec fn acc_texts_view(a: Option<Vec<Vec<char>>>) -> Option<Seq<Seq<char>>> {
    match a {
        None => None,
        Some(ref v) => Some(texts_view(v@)),
    }
}

fn response_after_member_exec(s: &Vec<char>, e: usize, acc: Option<Vec<Vec<char>>>, lo: usize) -> (
    r: Option<(Vec<Vec<char>>, usize)>)
    requires
        lo < e <= s@.len(),
    ensures
        match r {
            None => response_after_member(s@, e as int, acc_texts_view(acc), lo as int) is None,
            Some(p) => response_after_member(s@, e as int, acc_texts_view(acc), lo as int) == Some(
                (texts_view(p.0@), p.1 as int),
            ) && e <= p.1 <= s@.len(),
        },
    decreases s@.len() - e, 2int,
{
    let len = s.len();
    let e2 = ws_end(s, e);
    if !(e2 < len) {
        return None;
    }
    if s[e2] == ',' {
        let m = ws_end(s, e2 + 1);
        response_members_exec(s, m, acc, false)
    } else if s[e2] == '}' {
        match acc {
            None => None,
            Some(ts) => Some((ts, e2 + 1)),
        }
    } else {
        None
    }
}

/// Decodes a whole answer document; `None` is a document that does not
/// decode (a transport-level failure to the caller).
pub fn parse_response_chars(s: &Vec<char>) -> (r: Option<Vec<Vec<char>>>)
    ensures
        match r {
            None => parse_response(s@) is None,
            Some(ts) => parse_response(s@) == Some(texts_view(ts@)),
        },
{
    let i = ws_end(s, 0);
    if !(i < s.len() && s[i] == '{') {
        return None;
    }
    let j = ws_end(s, i + 1);
    match response_members_exec(s, j, None, true) {
        None => None,
        Some((ts, e)) => {
            let e2 = ws_end(s, e);
            if e2 == s.len() {
                Some(ts)
            } else {
                None
            }
        },
    }
}

// --------------------------------------------------------- the final content

/// One call's outcome, as the calling binary reports it: the request never
/// got an answer (or the answer's bytes were not text), the service answered
/// with a failure status, or it answered successfully with a body.
pub enum ApiOutcome {
    Transport,
    HttpError,
    Success(Vec<char>),
}

/// The line content after a successful status: the first candidate's text,
/// trimmed; the raw text itself when the candidate list is empty; and the
/// transport fallback when the body does not decode.
pub open spec fn success_text(body: Seq<char>, raw: Seq<char>) -> Seq<char> {
    match parse_response(body) {
        None => transport_fallback_text(raw),
        Some(texts) => if texts.len() == 0 {
            raw
        } else {
            trim_seq(texts[0])
        },
    }
}

/// The line content for every outcome of the completion call: the clipboard
/// fallback when no answer could be read, the plain checkbox fallback when
/// the service reported failure, and the service's (or raw) text on
/// success.  Task creation is never blocked on the call's outcome.
pub fn improved_content(outcome: &ApiOutcome, raw: &Vec<char>) -> (r: Vec<char>)
    ensures
        match outcome {
            ApiOutcome::Transport => r@ == transport_fallback_text(raw@),
            ApiOutcome::HttpError => r@ == status_fallback_text(raw@),
            ApiOutcome::Success(body) => r@ == success_text(body@, raw@),
        },
{
    match outcome {
        ApiOutcome::Transport => transport_fallback(raw),
        ApiOutcome::HttpError => status_fallback(raw),
        ApiOutcome::Success(body) => {
            match parse_response_chars(body) {
                None => transport_fallback(raw),
                Some(texts) => {
                    if texts.len() == 0 {
                        let mut out: Vec<char> = Vec::new();
                        crate::task::push_all(&mut out, raw);
                        proof {
                            assert(out@ =~= raw@);
                        }
                        out
                    } else {
                        let first = &texts[0];
                        proof {
                            assert(texts_view(texts@)[0] == texts@[0]@);
                        }
                        trim_chars(first)
                    }
                },
            }
        },
    }
}

} // verus!
