use fabro::interview::{
    answer_from_request, validate_answer_for_question, Answer, AnswerError, AnswerValue,
    InterviewOption, InterviewQuestionRecord, QuestionType, SubmitAnswerRequest,
};

fn question(question_type: QuestionType, allow_freeform: bool) -> InterviewQuestionRecord {
    InterviewQuestionRecord {
        id: "q1".to_string(),
        text: "Which way?".to_string(),
        stage: "gate".to_string(),
        question_type,
        options: vec![
            InterviewOption { key: "a".to_string(), label: "Left".to_string() },
            InterviewOption { key: "b".to_string(), label: "Right".to_string() },
            InterviewOption { key: "a".to_string(), label: "Left again".to_string() },
        ],
        allow_freeform,
        timeout_seconds: None,
        context_display: None,
    }
}

fn answer(value: AnswerValue) -> Answer {
    Answer { value, selected_option: None }
}

#[test]
fn yes_no_answers_fit_yes_no_and_confirmation_questions_only() {
    assert_eq!(validate_answer_for_question(&question(QuestionType::YesNo, false), &answer(AnswerValue::Yes)), Ok(()));
    assert_eq!(validate_answer_for_question(&question(QuestionType::Confirmation, false), &answer(AnswerValue::No)), Ok(()));
    assert_eq!(
        validate_answer_for_question(&question(QuestionType::Freeform, true), &answer(AnswerValue::Yes)),
        Err(AnswerError::TypeMismatch)
    );
}

#[test]
fn selections_must_name_known_options() {
    let q = question(QuestionType::MultipleChoice, false);
    assert_eq!(validate_answer_for_question(&q, &answer(AnswerValue::Selected("b".to_string()))), Ok(()));
    assert_eq!(
        validate_answer_for_question(&q, &answer(AnswerValue::Selected("z".to_string()))),
        Err(AnswerError::InvalidOptionKey)
    );
    let m = question(QuestionType::MultiSelect, false);
    assert_eq!(
        validate_answer_for_question(&m, &answer(AnswerValue::MultiSelected(vec!["a".to_string(), "b".to_string()]))),
        Ok(())
    );
    assert_eq!(
        validate_answer_for_question(&m, &answer(AnswerValue::MultiSelected(vec!["a".to_string(), "c".to_string()]))),
        Err(AnswerError::InvalidOptionKey)
    );
    assert_eq!(
        validate_answer_for_question(&m, &answer(AnswerValue::Selected("a".to_string()))),
        Err(AnswerError::TypeMismatch)
    );
}

#[test]
fn text_needs_substance_and_a_free_form_question() {
    let free = question(QuestionType::Freeform, false);
    assert_eq!(validate_answer_for_question(&free, &answer(AnswerValue::Text(" ok ".to_string()))), Ok(()));
    assert_eq!(
        validate_answer_for_question(&free, &answer(AnswerValue::Text(" \n".to_string()))),
        Err(AnswerError::TypeMismatch)
    );
    let choice = question(QuestionType::MultipleChoice, false);
    assert_eq!(
        validate_answer_for_question(&choice, &answer(AnswerValue::Text("other".to_string()))),
        Err(AnswerError::TypeMismatch)
    );
    let open_choice = question(QuestionType::MultipleChoice, true);
    assert_eq!(validate_answer_for_question(&open_choice, &answer(AnswerValue::Text("other".to_string()))), Ok(()));
}

#[test]
fn interruptions_skips_and_timeouts_always_fit() {
    for v in [AnswerValue::Interrupted, AnswerValue::Skipped, AnswerValue::Timeout] {
        assert_eq!(validate_answer_for_question(&question(QuestionType::YesNo, false), &answer(v)), Ok(()));
    }
}

#[test]
fn submitted_selection_carries_the_first_option_with_its_key() {
    let q = question(QuestionType::MultipleChoice, false);
    let a = answer_from_request(SubmitAnswerRequest::Selected { option_key: "a".to_string() }, &q).unwrap();
    assert_eq!(a.value, AnswerValue::Selected("a".to_string()));
    assert_eq!(a.selected_option, Some(InterviewOption { key: "a".to_string(), label: "Left".to_string() }));
    assert_eq!(
        answer_from_request(SubmitAnswerRequest::Selected { option_key: "x".to_string() }, &q),
        Err(AnswerError::InvalidOptionKey)
    );
    assert_eq!(
        answer_from_request(SubmitAnswerRequest::MultiSelected { option_keys: vec!["b".to_string(), "y".to_string()] }, &q),
        Err(AnswerError::InvalidOptionKey)
    );
    let multi = answer_from_request(SubmitAnswerRequest::MultiSelected { option_keys: vec![] }, &q).unwrap();
    assert_eq!(multi.value, AnswerValue::MultiSelected(vec![]));
    let text = answer_from_request(SubmitAnswerRequest::Text { text: "  ".to_string() }, &q).unwrap();
    assert_eq!(text, Answer { value: AnswerValue::Text("  ".to_string()), selected_option: None });
    assert_eq!(answer_from_request(SubmitAnswerRequest::Yes, &q).unwrap().value, AnswerValue::Yes);
}

#[test]
fn answer_errors_read_as_api_messages() {
    assert_eq!(AnswerError::InvalidOptionKey.to_string(), "Invalid option key.");
    assert_eq!(AnswerError::TypeMismatch.to_string(), "Answer does not match question type.");
}

#[test]
fn question_type_names_parse_back() {
    for t in [
        QuestionType::YesNo,
        QuestionType::MultipleChoice,
        QuestionType::MultiSelect,
        QuestionType::Freeform,
        QuestionType::Confirmation,
    ] {
        assert_eq!(QuestionType::parse(t.as_str()), Some(t));
    }
    assert_eq!(QuestionType::parse("yes-no"), None);
}
