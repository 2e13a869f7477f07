//! Human-in-the-loop questions and their answers: which answers a pending
//! question accepts, and how an answer submitted over the API becomes the
//! answer handed to the run.

use vstd::prelude::*;
use crate::text::{str_eq, trim, trim_str};

verus! {

/// The kind of answer a question asks for.
#[derive(Debug, Clone, Copy, PartialEq, Eq, Structural)]
pub enum QuestionType {
    YesNo,
    MultipleChoice,
    MultiSelect,
    Freeform,
    Confirmation,
}

impl QuestionType {
    /// The snake_case name of the type.
    pub open spec fn name(self) -> Seq<char> {
        match self {
            QuestionType::YesNo => "yes_no"@,
            QuestionType::MultipleChoice => "multiple_choice"@,
            QuestionType::MultiSelect => "multi_select"@,
            QuestionType::Freeform => "freeform"@,
            QuestionType::Confirmation => "confirmation"@,
        }
    }

    pub fn as_str(self) -> (s: &'static str)
        ensures
            s@ == self.name(),
    {
        match self {
            QuestionType::YesNo => "yes_no",
            QuestionType::MultipleChoice => "multiple_choice",
            QuestionType::MultiSelect => "multi_select",
            QuestionType::Freeform => "freeform",
            QuestionType::Confirmation => "confirmation",
        }
    }

    /// The type named exactly `s`.
    pub open spec fn parse_spec(s: Seq<char>) -> Option<QuestionType> {
        if s == "yes_no"@ {
            Some(QuestionType::YesNo)
        } else if s == "multiple_choice"@ {
            Some(QuestionType::MultipleChoice)
        } else if s == "multi_select"@ {
            Some(QuestionType::MultiSelect)
        } else if s == "freeform"@ {
            Some(QuestionType::Freeform)
        } else if s == "confirmation"@ {
            Some(QuestionType::Confirmation)
        } else {
            None
        }
    }

    pub fn parse(s: &str) -> (r: Option<QuestionType>)
        ensures
            r == Self::parse_spec(s@),
    {
        if str_eq(s, "yes_no") {
            Some(QuestionType::YesNo)
        } else if str_eq(s, "multiple_choice") {
            Some(QuestionType::MultipleChoice)
        } else if str_eq(s, "multi_select") {
            Some(QuestionType::MultiSelect)
        } else if str_eq(s, "freeform") {
            Some(QuestionType::Freeform)
        } else if str_eq(s, "confirmation") {
            Some(QuestionType::Confirmation)
        } else {
            None
        }
    }
}

/// One choice of a question: the key an answer names it by, and its label.
#[derive(Debug, Clone, PartialEq, Eq)]
pub struct InterviewOption {
    pub key: String,
    pub label: String,
}

impl InterviewOption {
    /// A copy with the same contents.
    pub fn duplicate(&self) -> (r: InterviewOption)
        ensures
            r == *self,
    {
        InterviewOption { key: self.key.clone(), label: self.label.clone() }
    }
}

/// A question a run waits on.
#[derive(Debug, Clone, PartialEq, Eq)]
pub struct InterviewQuestionRecord {
    pub id: String,
    pub text: String,
    pub stage: String,
    pub question_type: QuestionType,
    pub options: Vec<InterviewOption>,
    pub allow_freeform: bool,
    pub timeout_seconds: Option<u64>,
    pub context_display: Option<String>,
}

/// What an answer says.
#[derive(Debug, Clone, PartialEq, Eq)]
pub enum AnswerValue {
    Yes,
    No,
    Selected(String),
    MultiSelected(Vec<String>),
    Text(String),
    Interrupted,
    Skipped,
    Timeout,
}

/// An answer handed to a run: its value and, for a single selection, the
/// option chosen.
#[derive(Debug, Clone, PartialEq, Eq)]
pub struct Answer {
    pub value: AnswerValue,
    pub selected_option: Option<InterviewOption>,
}

/// An answer as a client submits it.
#[derive(Debug, Clone, PartialEq, Eq)]
pub enum SubmitAnswerRequest {
    Yes,
    No,
    Selected { option_key: String },
    MultiSelected { option_keys: Vec<String> },
    Text { text: String },
}

/// Why an answer was refused.
#[derive(Debug, Clone, Copy, PartialEq, Eq, Structural)]
pub enum AnswerError {
    /// A selection names a key that no option has.
    InvalidOptionKey,
    /// The answer is not of a kind the question takes.
    TypeMismatch,
}

impl AnswerError {
    pub open spec fn message(self) -> Seq<char> {
        match self {
            AnswerError::InvalidOptionKey => "Invalid option key."@,
            AnswerError::TypeMismatch => "Answer does not match question type."@,
        }
    }

    pub fn to_string(self) -> (s: String)
        ensures
            s@ == self.message(),
    {
        match self {
            AnswerError::InvalidOptionKey => "Invalid option key.".to_string(),
            AnswerError::TypeMismatch => "Answer does not match question type.".to_string(),
        }
    }
}

/// Some option of the question has this key.
pub open spec fn has_option(options: Seq<InterviewOption>, key: Seq<char>) -> bool {
    exists|i: int| 0 <= i < options.len() && (#[trigger] options[i]).key@ == key
}

/// Every key names an option.
pub open spec fn all_options(options: Seq<InterviewOption>, keys: Seq<String>) -> bool {
    forall|j: int| 0 <= j < keys.len() ==> has_option(options, (#[trigger] keys[j])@)
}

/// Text with something besides whitespace.
pub open spec fn substantive(text: Seq<char>) -> bool {
    trim(text).len() > 0
}

/// The verdict on an answer to a question: yes/no for yes-no and
/// confirmation questions; a known key for a multiple-choice question; known
/// keys for a multi-select one; non-blank text for a free-form question, or
/// for any question that allows free-form text; and always an interruption,
/// a skip or a timeout.
pub open spec fn answer_check(q: InterviewQuestionRecord, v: AnswerValue) -> Result<(), AnswerError> {
    match v {
        AnswerValue::Interrupted | AnswerValue::Skipped | AnswerValue::Timeout => Ok(()),
        AnswerValue::Yes | AnswerValue::No => if q.question_type == QuestionType::YesNo || q.question_type
            == QuestionType::Confirmation {
            Ok(())
        } else {
            Err(AnswerError::TypeMismatch)
        },
        AnswerValue::Selected(key) => if q.question_type == QuestionType::MultipleChoice {
            if has_option(q.options@, key@) {
                Ok(())
            } else {
                Err(AnswerError::InvalidOptionKey)
            }
        } else {
            Err(AnswerError::TypeMismatch)
        },
        AnswerValue::MultiSelected(keys) => if q.question_type == QuestionType::MultiSelect {
            if all_options(q.options@, keys@) {
                Ok(())
            } else {
                Err(AnswerError::InvalidOptionKey)
            }
        } else {
            Err(AnswerError::TypeMismatch)
        },
        AnswerValue::Text(text) => if substantive(text@) && (q.question_type == QuestionType::Freeform
            || q.allow_freeform) {
            Ok(())
        } else {
            Err(AnswerError::TypeMismatch)
        },
    }
}

/// The index of the first option with this key.
fn find_option(options: &Vec<InterviewOption>, key: &str) -> (r: Option<usize>)
    ensures
        match r {
            Some(i) => i < options@.len() && options@[i as int].key@ == key@ && forall|j: int|
                0 <= j < i ==> (#[trigger] options@[j]).key@ != key@,
            None => !has_option(options@, key@),
        },
{
    let mut i: usize = 0;
    while i < options.len()
        invariant
            i <= options@.len(),
            forall|j: int| 0 <= j < i ==> (#[trigger] options@[j]).key@ != key@,
        decreases options.len() - i,
    {
        if str_eq(options[i].key.as_str(), key) {
            return Some(i);
        }
        i = i + 1;
    }
    None
}

/// Whether every key names an option.
fn all_keys_known(options: &Vec<InterviewOption>, keys: &Vec<String>) -> (b: bool)
    ensures
        b == all_options(options@, keys@),
{
    let mut j: usize = 0;
    while j < keys.len()
        invariant
            j <= keys@.len(),
            forall|t: int| 0 <= t < j ==> has_option(options@, (#[trigger] keys@[t])@),
        decreases keys.len() - j,
    {
        if find_option(options, keys[j].as_str()).is_none() {
            return false;
        }
        j = j + 1;
    }
    true
}

/// Checks that an answer fits the question it answers.
pub fn validate_answer_for_question(question: &InterviewQuestionRecord, answer: &Answer) -> (r: Result<(), AnswerError>)
    ensures
        r == answer_check(*question, answer.value),
{
    match &answer.value {
        AnswerValue::Interrupted | AnswerValue::Skipped | AnswerValue::Timeout => Ok(()),
        AnswerValue::Yes | AnswerValue::No => {
            if question.question_type == QuestionType::YesNo || question.question_type == QuestionType::Confirmation {
                Ok(())
            } else {
                Err(AnswerError::TypeMismatch)
            }
        },
        AnswerValue::Selected(key) => {
            if question.question_type != QuestionType::MultipleChoice {
                Err(AnswerError::TypeMismatch)
            } else if find_option(&question.options, key.as_str()).is_some() {
                Ok(())
            } else {
                Err(AnswerError::InvalidOptionKey)
            }
        },
        AnswerValue::MultiSelected(keys) => {
            if question.question_type != QuestionType::MultiSelect {
                Err(AnswerError::TypeMismatch)
            } else if all_keys_known(&question.options, keys) {
                Ok(())
            } else {
                Err(AnswerError::InvalidOptionKey)
            }
        },
        AnswerValue::Text(text) => {
            let trimmed = trim_str(text.as_str());
            if !trimmed.as_str().is_empty() && (question.question_type == QuestionType::Freeform
                || question.allow_freeform) {
                Ok(())
            } else {
                Err(AnswerError::TypeMismatch)
            }
        },
    }
}

/// The value of the answer a submission makes, or why it is refused: a
/// selection must name known options; everything else is taken as it is.
pub open spec fn submitted_value(q: InterviewQuestionRecord, req: SubmitAnswerRequest) -> Result<AnswerValue, AnswerError> {
    match req {
        SubmitAnswerRequest::Yes => Ok(AnswerValue::Yes),
        SubmitAnswerRequest::No => Ok(AnswerValue::No),
        SubmitAnswerRequest::Selected { option_key } => if has_option(q.options@, option_key@) {
            Ok(AnswerValue::Selected(option_key))
        } else {
            Err(AnswerError::InvalidOptionKey)
        },
        SubmitAnswerRequest::MultiSelected { option_keys } => if all_options(q.options@, option_keys@) {
            Ok(AnswerValue::MultiSelected(option_keys))
        } else {
            Err(AnswerError::InvalidOptionKey)
        },
        SubmitAnswerRequest::Text { text } => Ok(AnswerValue::Text(text)),
    }
}

/// Turns a submitted answer into the answer for the run. A single selection
/// carries the first option with its key.
pub fn answer_from_request(req: SubmitAnswerRequest, question: &InterviewQuestionRecord) -> (r: Result<Answer, AnswerError>)
    ensures
        match submitted_value(*question, req) {
            Ok(v) => r matches Ok(a) && a.value == v && match v {
                AnswerValue::Selected(key) => exists|i: int|
                    0 <= i < question.options@.len() && (#[trigger] question.options@[i]).key@ == key@
                        && (forall|j: int| 0 <= j < i ==> (#[trigger] question.options@[j]).key@ != key@)
                        && a.selected_option == Some(question.options@[i]),
                _ => a.selected_option is None,
            },
            Err(e) => r == Err::<Answer, AnswerError>(e),
        },
{
    match req {
        SubmitAnswerRequest::Yes => Ok(Answer { value: AnswerValue::Yes, selected_option: None }),
        SubmitAnswerRequest::No => Ok(Answer { value: AnswerValue::No, selected_option: None }),
        SubmitAnswerRequest::Selected { option_key } => {
            match find_option(&question.options, option_key.as_str()) {
                Some(i) => {
                    let option = question.options[i].duplicate();
                    Ok(Answer { value: AnswerValue::Selected(option_key), selected_option: Some(option) })
                },
                None => Err(AnswerError::InvalidOptionKey),
            }
        },
        SubmitAnswerRequest::MultiSelected { option_keys } => {
            if all_keys_known(&question.options, &option_keys) {
                Ok(Answer { value: AnswerValue::MultiSelected(option_keys), selected_option: None })
            } else {
                Err(AnswerError::InvalidOptionKey)
            }
        },
        SubmitAnswerRequest::Text { text } => Ok(Answer { value: AnswerValue::Text(text), selected_option: None }),
    }
}

/// Question-type names read back as the type they name.
pub proof fn law_question_type_names_round_trip(t: QuestionType)
    ensures
        QuestionType::parse_spec(t.name()) == Some(t),
{
    reveal_strlit("yes_no");
    reveal_strlit("multiple_choice");
    reveal_strlit("multi_select");
    reveal_strlit("freeform");
    reveal_strlit("confirmation");
    assert("yes_no"@.len() != "multiple_choice"@.len());
    assert("yes_no"@.len() != "multi_select"@.len());
    assert("yes_no"@.len() != "freeform"@.len());
    assert("yes_no"@.len() != "confirmation"@.len());
    assert("multiple_choice"@.len() != "multi_select"@.len());
    assert("multiple_choice"@.len() != "freeform"@.len());
    assert("multiple_choice"@.len() != "confirmation"@.len());
    assert("multi_select"@.len() != "freeform"@.len());
    assert("multi_select"@[0] != "confirmation"@[0]);
    assert("freeform"@.len() != "confirmation"@.len());
}

/// A submission whose kind matches the question's type, and that the
/// submission step accepts, passes the answer check too (for text, when it
/// is not blank).
pub proof fn law_accepted_submission_fits_matching_question(q: InterviewQuestionRecord, req: SubmitAnswerRequest)
    requires
        submitted_value(q, req) is Ok,
        match req {
            SubmitAnswerRequest::Yes | SubmitAnswerRequest::No => q.question_type == QuestionType::YesNo
                || q.question_type == QuestionType::Confirmation,
            SubmitAnswerRequest::Selected { .. } => q.question_type == QuestionType::MultipleChoice,
            SubmitAnswerRequest::MultiSelected { .. } => q.question_type == QuestionType::MultiSelect,
            SubmitAnswerRequest::Text { text } => q.question_type == QuestionType::Freeform && substantive(text@),
        },
    ensures
        answer_check(q, submitted_value(q, req).unwrap()) is Ok,
{
}

/// Interruptions, skips and timeouts are accepted whatever the question.
pub proof fn law_non_answers_always_accepted(q: InterviewQuestionRecord, v: AnswerValue)
    requires
        v is Interrupted || v is Skipped || v is Timeout,
    ensures
        answer_check(q, v) is Ok,
{
}

} // verus!
