//! Competency questions: what a question someone writes down, edits, or
//! records an answer to must look like, and the tally of how the ontology
//! agent's proposals were decided.
use vstd::prelude::*;
use crate::text::{chars_of, string_of, trim_seq, trim_str};

verus! {

/// Why a question request is turned down.
#[derive(Clone, Copy, Debug, PartialEq, Eq, Structural)]
pub enum QuestionRefusal {
    /// The question is blank.
    QuestionRequired,
}

impl QuestionRefusal {
    pub fn code(&self) -> (c: &'static str)
        ensures
            c@ == "question_required"@,
    {
        "question_required"
    }

    pub fn message(&self) -> (m: &'static str)
        ensures
            m@ == "question is required"@,
    {
        "question is required"
    }
}

/// A question a person writes down; it is accepted as soon as it is stored.
pub struct CreateQuestionReq {
    pub question: String,
    pub expected_answer: Option<String>,
    pub needs: Option<serde_json::Value>,
}

/// A text trimmed, and kept only when something is left.
pub open spec fn kept(o: Option<String>) -> Option<Seq<char>> {
    match o {
        Some(s) => if trim_seq(s@).len() > 0 {
            Some(trim_seq(s@))
        } else {
            None
        },
        None => None,
    }
}

pub open spec fn opt_chars(o: Option<String>) -> Option<Seq<char>> {
    match o {
        Some(s) => Some(s@),
        None => None,
    }
}

fn keep_trimmed(o: &Option<String>) -> (r: Option<String>)
    ensures
        opt_chars(r) == kept(*o),
{
    match o {
        Some(s) => {
            let t = trim_str(s.as_str());
            if t.unicode_len() > 0 {
                Some(t)
            } else {
                None
            }
        },
        None => None,
    }
}

impl CreateQuestionReq {
    /// The question trimmed, and the expected answer trimmed when it is not
    /// blank; a blank question is refused.
    pub fn checked(&self) -> (r: Result<(String, Option<String>), QuestionRefusal>)
        ensures
            trim_seq(self.question@).len() == 0 <==> r is Err,
            r matches Ok((q, e)) ==> q@ == trim_seq(self.question@) && opt_chars(e) == kept(
                self.expected_answer,
            ),
    {
        let q = trim_str(self.question.as_str());
        if q.unicode_len() == 0 {
            return Err(QuestionRefusal::QuestionRequired);
        }
        Ok((q, keep_trimmed(&self.expected_answer)))
    }
}

/// An edit of a question: any of its text, expected answer (an empty one
/// clears it), what it needs, and its status.
pub struct UpdateQuestionReq {
    pub question: Option<String>,
    pub expected_answer: Option<String>,
    pub needs: Option<serde_json::Value>,
    /// `accepted`, `rejected` or `retired`.
    pub status: Option<String>,
}

/// What an edit does: whether the question's fields are written, with the
/// question and expected answer trimmed; and the status to set, if any.
pub struct QuestionUpdate {
    pub write_fields: bool,
    pub question: Option<String>,
    pub expected_answer: Option<String>,
    pub status: Option<String>,
}

pub open spec fn trimmed_opt(o: Option<String>) -> Option<Seq<char>> {
    match o {
        Some(s) => Some(trim_seq(s@)),
        None => None,
    }
}

fn trim_opt(o: &Option<String>) -> (r: Option<String>)
    ensures
        opt_chars(r) == trimmed_opt(*o),
{
    match o {
        Some(s) => Some(trim_str(s.as_str())),
        None => None,
    }
}

impl UpdateQuestionReq {
    /// A question given blank is refused. Otherwise the fields are written when
    /// any of question, expected answer or needs is given, trimmed; and the
    /// status is set when given.
    pub fn plan(&self) -> (r: Result<QuestionUpdate, QuestionRefusal>)
        ensures
            (self.question matches Some(q) && trim_seq(q@).len() == 0) <==> r is Err,
            r matches Ok(u) ==> {
                &&& u.write_fields == (self.question is Some || self.expected_answer is Some
                    || self.needs is Some)
                &&& opt_chars(u.question) == trimmed_opt(self.question)
                &&& opt_chars(u.expected_answer) == trimmed_opt(self.expected_answer)
                &&& opt_chars(u.status) == opt_chars(self.status)
            },
    {
        match &self.question {
            Some(q) => {
                let t = trim_str(q.as_str());
                if t.unicode_len() == 0 {
                    return Err(QuestionRefusal::QuestionRequired);
                }
            },
            None => {},
        }
        let status = match &self.status {
            Some(s) => Some(string_of(&chars_of(s.as_str()))),
            None => None,
        };
        Ok(
            QuestionUpdate {
                write_fields: self.question.is_some() || self.expected_answer.is_some()
                    || self.needs.is_some(),
                question: trim_opt(&self.question),
                expected_answer: trim_opt(&self.expected_answer),
                status,
            },
        )
    }
}

/// How much of an answer is kept with a result, in characters.
pub const MAX_ANSWER_CHARS: usize = 4000;

/// The outcome of asking a question: whether it was answered, the answer
/// received, how it was judged (`expected` or `shape`), and any detail.
pub struct QuestionResultReq {
    pub answered: bool,
    pub answer: Option<String>,
    pub judged_by: Option<String>,
    pub detail: Option<serde_json::Value>,
}

impl QuestionResultReq {
    /// What is recorded: whether it was answered, the answer's first 4000
    /// characters, and how it was judged (`expected` when not said).
    pub fn recorded(&self) -> (r: (bool, Option<String>, String))
        ensures
            r.0 == self.answered,
            opt_chars(r.1) == match self.answer {
                Some(a) => Some(a@.take(if a@.len() < 4000 {
                    a@.len() as int
                } else {
                    4000
                })),
                None => None,
            },
            r.2@ == match self.judged_by {
                Some(j) => j@,
                None => "expected"@,
            },
    {
        let answer = match &self.answer {
            Some(a) => {
                let v = chars_of(a.as_str());
                let n = if v.len() < MAX_ANSWER_CHARS {
                    v.len()
                } else {
                    MAX_ANSWER_CHARS
                };
                let cut = crate::text::slice_chars(&v, 0, n);
                proof {
                    assert(cut@ =~= a@.take(n as int));
                }
                Some(string_of(&cut))
            },
            None => None,
        };
        let judged = match &self.judged_by {
            Some(j) => string_of(&chars_of(j.as_str())),
            None => string_of(&chars_of("expected")),
        };
        (self.answered, answer, judged)
    }
}

/// A proposal of the ontology agent an editor adopts: which section of the
/// proposal and which key in it.
pub struct AdoptReq {
    pub section: String,
    pub key: String,
}

/// How the agent's proposals were decided: how many were decided (adopted or
/// rejected), and how many of those a person changed (adopted after editing,
/// or rejected).
pub fn proposal_tally(adopted: i64, adopted_edited: i64, rejected: i64) -> (r: (i64, i64))
    requires
        i64::MIN <= adopted + rejected <= i64::MAX,
        i64::MIN <= adopted_edited + rejected <= i64::MAX,
    ensures
        r.0 == adopted + rejected,
        r.1 == adopted_edited + rejected,
{
    (adopted + rejected, adopted_edited + rejected)
}

} // verus!
