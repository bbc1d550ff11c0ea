//! Answers: what a resource is represented by.

use crate::error::{Error, ErrorView};
use crate::text::{a_text_holds_what_is_written_in_it, holds, holds_text};
use vstd::prelude::*;
use vstd::string::*;
use vstd::utf8::encode_utf8;

verus! {

/// A representation in UTF-8.
#[derive(Debug, PartialEq, Eq)]
pub struct Answer {
    /// The media type, without its parameters.
    pub media: String,
    pub body: Vec<u8>,
    /// Whether the answer holds for as long as the process runs.
    pub cacheable: bool,
}

/// [`Answer`] over sequences.
#[verifier::ext_equal]
pub struct AnswerView {
    pub media: Seq<char>,
    pub body: Seq<u8>,
    pub cacheable: bool,
}

/// The character set of every answer.
pub const CHARSET: &'static str = "utf-8";

impl View for Answer {
    type V = AnswerView;

    open spec fn view(&self) -> AnswerView {
        AnswerView { media: self.media@, body: self.body@, cacheable: self.cacheable }
    }
}

impl Answer {
    /// The media type with its parameter, the character set.
    pub fn content_type(&self) -> (text: String)
        ensures
            text@ == self@.media + ";charset="@ + CHARSET@,
    {
        let mut text = self.media.clone();
        text.append(";charset=");
        text.append(CHARSET);
        text
    }
}

/// An answer or an error, over sequences.
pub open spec fn answer_view(answer: Result<Answer, Error>) -> Result<AnswerView, ErrorView> {
    match answer {
        Ok(answer) => Ok(answer@),
        Err(error) => Err(error@),
    }
}

/// A text as an answer.
pub open spec fn text_answer(text: Seq<char>, cacheable: bool) -> AnswerView {
    AnswerView { media: "text/plain"@, body: encode_utf8(text), cacheable }
}

/// The bytes of a JSON value as an answer.
pub open spec fn json_answer(body: Seq<u8>, cacheable: bool) -> AnswerView {
    AnswerView { media: "application/json"@, body, cacheable }
}

/// A text as an answer.
pub fn plain(text: &str, cacheable: bool) -> (answer: Answer)
    ensures
        answer@ == text_answer(text@, cacheable),
{
    Answer { media: "text/plain".to_owned(), body: text.as_bytes_vec(), cacheable }
}

/// The bytes of a JSON value as an answer.
pub fn structured(body: Vec<u8>, cacheable: bool) -> (answer: Answer)
    ensures
        answer@ == json_answer(body@, cacheable),
{
    Answer { media: "application/json".to_owned(), body, cacheable }
}

/// Whether the form that a request asks for is of this kind.
pub open spec fn asks_form(form: Option<Seq<char>>, kind: Seq<char>) -> bool {
    match form {
        Some(form) => holds_text(form, kind),
        None => false,
    }
}

/// Whether the form that a request asks for is of this kind.
pub fn wants(form: &Option<String>, kind: &str) -> (yes: bool)
    ensures
        yes == asks_form(form.deep_view(), kind@),
{
    match form {
        Some(form) => holds(form.as_str(), kind),
        None => false,
    }
}

/// A form asks for a kind where it is written with its name somewhere in it; a text is
/// answered as UTF-8, and bytes of JSON as they are.
pub proof fn answers_are_what_they_say(
    form: &Option<String>,
    kind: &str,
    yes: bool,
    text: &str,
    body: Vec<u8>,
    cacheable: bool,
    plainly: Answer,
    structurally: Answer,
    content_type: String,
)
    requires
        call_ensures(wants, (form, kind), yes),
        call_ensures(plain, (text, cacheable), plainly),
        call_ensures(structured, (body, cacheable), structurally),
        call_ensures(Answer::content_type, (&plainly,), content_type),
    ensures
        yes <==> exists|before: Seq<char>, after: Seq<char>|
            form.deep_view() == Some(#[trigger] (before + kind@ + after)),
        plainly@.media == "text/plain"@ && plainly@.body == encode_utf8(text@)
            && plainly@.cacheable == cacheable,
        structurally@.media == "application/json"@ && structurally@.body == body@
            && structurally@.cacheable == cacheable,
        content_type@ == "text/plain"@ + ";charset="@ + "utf-8"@,
{
    if let Some(asked) = form.deep_view() {
        a_text_holds_what_is_written_in_it(asked, kind@);
    }
}

} // verus!
