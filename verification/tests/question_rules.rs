use utopia_server::questions::{proposal_tally, CreateQuestionReq, QuestionRefusal, QuestionResultReq, UpdateQuestionReq};

#[test]
fn a_blank_question_is_refused() {
    let r = CreateQuestionReq { question: "   ".to_string(), expected_answer: None, needs: None }.checked();
    assert_eq!(r.err(), Some(QuestionRefusal::QuestionRequired));
    assert_eq!(QuestionRefusal::QuestionRequired.code(), "question_required");
    assert_eq!(QuestionRefusal::QuestionRequired.message(), "question is required");
    let (q, e) = CreateQuestionReq {
        question: " Who runs Acme? ".to_string(),
        expected_answer: Some("  ".to_string()),
        needs: None,
    }
    .checked()
    .unwrap();
    assert_eq!((q.as_str(), e), ("Who runs Acme?", None));
}

#[test]
fn an_edit_writes_fields_only_when_some_are_given() {
    let none = UpdateQuestionReq { question: None, expected_answer: None, needs: None, status: Some("retired".to_string()) }
        .plan()
        .unwrap();
    assert!(!none.write_fields);
    assert_eq!(none.status.as_deref(), Some("retired"));
    let clear = UpdateQuestionReq { question: None, expected_answer: Some(" ".to_string()), needs: None, status: None }
        .plan()
        .unwrap();
    assert!(clear.write_fields);
    assert_eq!(clear.expected_answer.as_deref(), Some(""), "an empty expected answer clears it");
    let blank = UpdateQuestionReq { question: Some("\t".to_string()), expected_answer: None, needs: None, status: None };
    assert!(blank.plan().is_err());
}

#[test]
fn a_result_keeps_four_thousand_characters() {
    let long = "é".repeat(4100);
    let (answered, answer, judged) =
        QuestionResultReq { answered: true, answer: Some(long), judged_by: None, detail: None }.recorded();
    assert!(answered);
    assert_eq!(answer.unwrap().chars().count(), 4000);
    assert_eq!(judged, "expected");
    let (_, answer, judged) =
        QuestionResultReq { answered: false, answer: None, judged_by: Some("shape".to_string()), detail: None }.recorded();
    assert_eq!((answer, judged.as_str()), (None, "shape"));
    assert_eq!(proposal_tally(5, 2, 3), (8, 5));
}
