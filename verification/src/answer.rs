//! The last gate before an answer is published: a reply with no text, a reply
//! that still calls a tool, or a reply that writes a tool call out as text is not
//! an answer. Each such reason travels as an English sentence and is read back as
//! the code the interface looks its wording up by.
use vstd::prelude::*;
use crate::search::{contains_chars, occurs_at};
use crate::text::{chars_of, trim_chars, trim_seq};

verus! {

/// The raw tool-call markers endpoints sometimes write into the text: DeepSeek's
/// native call markers and the DSML call tags.
pub open spec fn tool_markers() -> Seq<Seq<char>> {
    seq![
        "<\u{ff5c}tool\u{2581}calls\u{2581}begin\u{ff5c}>"@,
        "<\u{ff5c}tool\u{2581}call\u{2581}begin\u{ff5c}>"@,
        "<DSMLcalls>"@,
        "<DSMLinvoke"@,
    ]
}

/// The text holds one of the tool-call markers.
pub open spec fn has_tool_markup(text: Seq<char>) -> bool {
    exists|m: int, i: int| 0 <= m < tool_markers().len() && occurs_at(text, tool_markers()[m], i)
}

pub fn tool_markup(text: &str) -> (b: bool)
    ensures
        b == has_tool_markup(text@),
{
    let t = chars_of(text);
    let m0 = chars_of("<\u{ff5c}tool\u{2581}calls\u{2581}begin\u{ff5c}>");
    let m1 = chars_of("<\u{ff5c}tool\u{2581}call\u{2581}begin\u{ff5c}>");
    let m2 = chars_of("<DSMLcalls>");
    let m3 = chars_of("<DSMLinvoke");
    let b0 = contains_chars(&t, &m0);
    let b1 = contains_chars(&t, &m1);
    let b2 = contains_chars(&t, &m2);
    let b3 = contains_chars(&t, &m3);
    proof {
        if b0 {
            let i = choose|i: int| occurs_at(t@, m0@, i);
            assert(occurs_at(text@, tool_markers()[0], i));
        }
        if b1 {
            let i = choose|i: int| occurs_at(t@, m1@, i);
            assert(occurs_at(text@, tool_markers()[1], i));
        }
        if b2 {
            let i = choose|i: int| occurs_at(t@, m2@, i);
            assert(occurs_at(text@, tool_markers()[2], i));
        }
        if b3 {
            let i = choose|i: int| occurs_at(t@, m3@, i);
            assert(occurs_at(text@, tool_markers()[3], i));
        }
        if has_tool_markup(text@) {
            let (m, i) = choose|m: int, i: int|
                0 <= m < tool_markers().len() && occurs_at(text@, tool_markers()[m], i);
            if m == 0 {
                assert(occurs_at(t@, m0@, i));
            } else if m == 1 {
                assert(occurs_at(t@, m1@, i));
            } else if m == 2 {
                assert(occurs_at(t@, m2@, i));
            } else {
                assert(occurs_at(t@, m3@, i));
            }
        }
    }
    b0 || b1 || b2 || b3
}

/// Why a final reply cannot be published.
pub enum Unpublishable {
    /// the reply still calls a tool
    ToolCall,
    /// the reply has no text
    Empty,
    /// the reply writes a tool call out as text
    ToolText,
}

/// The verdict on a final reply. A call beats everything else; an empty reply is
/// empty before anything else is looked at; markup comes last.
pub open spec fn final_verdict(text: Seq<char>, has_tool_calls: bool) -> Option<Unpublishable> {
    if has_tool_calls {
        Some(Unpublishable::ToolCall)
    } else if trim_seq(text).len() == 0 {
        Some(Unpublishable::Empty)
    } else if has_tool_markup(text) {
        Some(Unpublishable::ToolText)
    } else {
        None
    }
}

/// The sentence that carries each verdict.
pub open spec fn reason_text(v: Unpublishable) -> Seq<char> {
    match v {
        Unpublishable::ToolCall => "Model called a tool instead of answering"@,
        Unpublishable::Empty => "Model returned an empty answer"@,
        Unpublishable::ToolText => "Model wrote a tool call as text instead of answering"@,
    }
}

/// Whether a final reply can be published, and if not, the sentence saying why.
/// The reason depends on the reply's text and on whether it calls a tool; the
/// question it answers is not consulted.
pub fn finalization_error(text: &str, has_tool_calls: bool, question: &str) -> (r: Option<
    &'static str,
>)
    ensures
        r is Some <==> final_verdict(text@, has_tool_calls) is Some,
        r matches Some(s) ==> s@ == reason_text(final_verdict(text@, has_tool_calls)->0),
{
    if has_tool_calls {
        return Some("Model called a tool instead of answering");
    }
    let t = chars_of(text);
    if trim_chars(&t).len() == 0 {
        return Some("Model returned an empty answer");
    }
    if tool_markup(text) {
        return Some("Model wrote a tool call as text instead of answering");
    }
    None
}

/// The sentence a reply too long to stream carries.
pub open spec fn too_long_text() -> Seq<char> {
    "Model final answer exceeded the size limit"@
}

/// The code a failure message is shown by: the first of the known sentences that
/// stands anywhere in it, so that a sentence wrapped in context keeps its code.
pub open spec fn code_for(message: Seq<char>) -> Option<Seq<char>> {
    if exists|i: int| occurs_at(message, reason_text(Unpublishable::Empty), i) {
        Some("answer_empty"@)
    } else if exists|i: int| occurs_at(message, reason_text(Unpublishable::ToolCall), i) {
        Some("answer_tool_call"@)
    } else if exists|i: int| occurs_at(message, reason_text(Unpublishable::ToolText), i) {
        Some("answer_tool_text"@)
    } else if exists|i: int| occurs_at(message, too_long_text(), i) {
        Some("answer_too_long"@)
    } else {
        None
    }
}

pub fn unpublishable_code(message: &str) -> (r: Option<&'static str>)
    ensures
        r is Some <==> code_for(message@) is Some,
        r matches Some(c) ==> c@ == code_for(message@)->0,
{
    let m = chars_of(message);
    let e = chars_of("Model returned an empty answer");
    let c = chars_of("Model called a tool instead of answering");
    let t = chars_of("Model wrote a tool call as text instead of answering");
    let l = chars_of("Model final answer exceeded the size limit");
    proof {
        assert(e@ == reason_text(Unpublishable::Empty));
        assert(c@ == reason_text(Unpublishable::ToolCall));
        assert(t@ == reason_text(Unpublishable::ToolText));
        assert(l@ == too_long_text());
    }
    if contains_chars(&m, &e) {
        return Some("answer_empty");
    }
    if contains_chars(&m, &c) {
        return Some("answer_tool_call");
    }
    if contains_chars(&m, &t) {
        return Some("answer_tool_text");
    }
    if contains_chars(&m, &l) {
        return Some("answer_too_long");
    }
    None
}

} // verus!
