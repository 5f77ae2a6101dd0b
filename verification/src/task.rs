//! Building the markdown task line, and deciding which file it goes to.

use vstd::prelude::*;
use crate::text::push_str_chars;

verus! {

/// The markdown checkbox prefix, `- [ ] `.
pub open spec fn checkbox_chars() -> Seq<char> {
    seq!['-', ' ', '[', ' ', ']', ' ']
}

/// The clipboard character the local fallback line carries.
pub open spec fn clipboard_char() -> char {
    '\u{1F4CB}'
}

/// The clock character before the timestamp.
pub open spec fn clock_char() -> char {
    '\u{1F553}'
}

/// The line content used when the completion call cannot be made at all
/// (transport failure or an unreadable answer): checkbox, clipboard, and the
/// raw text.
pub open spec fn transport_fallback_text(raw: Seq<char>) -> Seq<char> {
    checkbox_chars() + seq![clipboard_char()] + raw
}

/// The line content used when the service answers with a failure status:
/// checkbox and the raw text.
pub open spec fn status_fallback_text(raw: Seq<char>) -> Seq<char> {
    checkbox_chars() + raw
}

/// The separator between the content and the timestamp: ` - ` and the clock.
pub open spec fn separator_chars() -> Seq<char> {
    seq![' ', '-', ' ', clock_char()]
}

/// The full line appended to the task file (without the final line break):
/// the content, the separator, the timestamp.
pub open spec fn task_line_text(content: Seq<char>, ts: Seq<char>) -> Seq<char> {
    content + separator_chars() + ts
}

pub fn transport_fallback(raw: &Vec<char>) -> (r: Vec<char>)
    ensures
        r@ == transport_fallback_text(raw@),
{
    let mut out: Vec<char> = Vec::new();
    push_str_chars(&mut out, "- [ ] ");
    proof {
        reveal_strlit("- [ ] ");
        assert("- [ ] "@ =~= checkbox_chars());
    }
    out.push('\u{1F4CB}');
    let mut i: usize = 0;
    while i < raw.len()
        invariant
            0 <= i <= raw@.len(),
            out@ == checkbox_chars() + seq![clipboard_char()] + raw@.subrange(0, i as int),
        decreases raw@.len() - i,
    {
        out.push(raw[i]);
        assert(out@ =~= checkbox_chars() + seq![clipboard_char()] + raw@.subrange(0, i + 1));
        i += 1;
    }
    assert(raw@.subrange(0, raw@.len() as int) =~= raw@);
    assert(out@ =~= transport_fallback_text(raw@));
    out
}

pub fn status_fallback(raw: &Vec<char>) -> (r: Vec<char>)
    ensures
        r@ == status_fallback_text(raw@),
{
    let mut out: Vec<char> = Vec::new();
    push_str_chars(&mut out, "- [ ] ");
    proof {
        reveal_strlit("- [ ] ");
        assert("- [ ] "@ =~= checkbox_chars());
    }
    let mut i: usize = 0;
    while i < raw.len()
        invariant
            0 <= i <= raw@.len(),
            out@ == checkbox_chars() + raw@.subrange(0, i as int),
        decreases raw@.len() - i,
    {
        out.push(raw[i]);
        assert(out@ =~= checkbox_chars() + raw@.subrange(0, i + 1));
        i += 1;
    }
    assert(raw@.subrange(0, raw@.len() as int) =~= raw@);
    out
}

/// Appends every character of `src` to `out`.
pub fn push_all(out: &mut Vec<char>, src: &Vec<char>)
    ensures
        final(out)@ == old(out)@ + src@,
{
    let mut i: usize = 0;
    while i < src.len()
        invariant
            0 <= i <= src@.len(),
            out@ == old(out)@ + src@.subrange(0, i as int),
        decreases src@.len() - i,
    {
        out.push(src[i]);
        assert(out@ =~= old(out)@ + src@.subrange(0, i + 1));
        i += 1;
    }
    assert(src@.subrange(0, src@.len() as int) =~= src@);
}

/// Builds the line appended to the task file: content, separator, timestamp.
pub fn task_line(content: &Vec<char>, ts: &Vec<char>) -> (r: Vec<char>)
    ensures
        r@ == task_line_text(content@, ts@),
{
    let mut out: Vec<char> = Vec::new();
    push_all(&mut out, content);
    out.push(' ');
    out.push('-');
    out.push(' ');
    out.push('\u{1F553}');
    push_all(&mut out, ts);
    proof {
        assert(out@ =~= task_line_text(content@, ts@));
    }
    out
}

/// The file a new task goes to: an explicit path wins, else the configured
/// global file; there is no target when neither is given.
pub fn resolve_target(explicit: Option<Vec<char>>, global: Option<Vec<char>>) -> (r: Option<
    Vec<char>,
>)
    ensures
        explicit is Some ==> r == explicit,
        explicit is None ==> r == global,
        r is None <==> (explicit is None && global is None),
{
    match explicit {
        Some(p) => Some(p),
        None => global,
    }
}

/// When the completion call fails in transport, the appended line is the
/// checkbox-and-clipboard fallback over the raw text, the separator, and the
/// timestamp.
pub proof fn lemma_line_after_transport_failure(raw: Seq<char>, ts: Seq<char>)
    ensures
        task_line_text(transport_fallback_text(raw), ts) == checkbox_chars() + seq![
            clipboard_char(),
        ] + raw + separator_chars() + ts,
{
    assert(task_line_text(transport_fallback_text(raw), ts) =~= checkbox_chars() + seq![
        clipboard_char(),
    ] + raw + separator_chars() + ts);
}

/// When the service answers with a failure status, the appended line is the
/// plain checkbox fallback over the raw text, the separator, and the
/// timestamp — the clipboard prefix is not added a second time.
pub proof fn lemma_line_after_status_failure(raw: Seq<char>, ts: Seq<char>)
    ensures
        task_line_text(status_fallback_text(raw), ts) == checkbox_chars() + raw
            + separator_chars() + ts,
{
    assert(task_line_text(status_fallback_text(raw), ts) =~= checkbox_chars() + raw
        + separator_chars() + ts);
}

} // verus!
