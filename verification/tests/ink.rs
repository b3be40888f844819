//! Handwritten questions.

use rs_sc::error::{AppError, AppResult};
use rs_sc::ink::{
    prepare_question, submit_ink_question, InkAction, InkEvent, InkPrompts, InkQuestion, InkStage,
};

fn prompts() -> AppResult<InkPrompts> {
    Ok(InkPrompts { ocr_prompt: "read".to_string(), qa_prompt: "answer".to_string() })
}

fn refused(r: AppResult<InkQuestion>) -> String {
    r.unwrap_err().message()
}

fn question() -> InkQuestion {
    prepare_question(" Zm9v\n", Some("Zg==".to_string()), prompts()).unwrap()
}

#[test]
fn question_is_decoded() {
    let q = question();
    assert_eq!(q.composite, b"foo");
    assert_eq!(q.original, b"f");
    assert_eq!(q.original_b64, "Zg==");
}

#[test]
fn bad_questions_are_refused_in_order() {
    let kept = || Some("Zg==".to_string());
    let broken = || Err(AppError::Capture("settings".to_string()));
    let decode = refused(prepare_question("Z", None, broken()));
    assert!(decode.starts_with("capture error: composite base64 decode: "), "{}", decode);
    assert!(decode.len() > "capture error: composite base64 decode: ".len());
    assert_eq!(refused(prepare_question(" ", None, broken())), "capture error: canvas is empty");
    assert_eq!(
        refused(prepare_question("Zg==", None, broken())),
        "capture error: no ink capture in progress"
    );
    assert_eq!(refused(prepare_question("Zg==", kept(), broken())), "capture error: settings");
    let original = refused(prepare_question("Zg==", Some("?".to_string()), prompts()));
    assert!(original.starts_with("capture error: original screenshot base64 decode: "));
}

fn show(actions: Vec<InkAction>) -> Vec<String> {
    actions
        .into_iter()
        .map(|a| match a {
            InkAction::EmitBusy { stage } => format!("busy {}", stage),
            InkAction::Recognize { composite, prompt } => format!("ocr {:?} {}", composite, prompt),
            InkAction::Answer { question, original, prompt } => {
                format!("qa {} {:?} {}", question, original, prompt)
            }
            InkAction::EmitError { message } => format!("error {}", message),
            InkAction::EmitThinking => "thinking".to_string(),
            InkAction::EmitLoaded(r) => format!("loaded {} {}", r.text, r.image_base64),
            InkAction::EmitDone { recognized_text, answer } => {
                format!("told {} {}", recognized_text, answer)
            }
            InkAction::Finish(Ok(answer)) => format!("ok {}", answer),
            InkAction::Finish(Err(e)) => format!("failed {}", e.message()),
        })
        .collect()
}

fn go(stage: InkStage, event: InkEvent) -> (InkStage, Vec<String>) {
    let (stage, actions) = submit_ink_question(stage, event);
    (stage, show(actions))
}

fn said(text: &str, thought: bool) -> AppResult<(String, bool)> {
    Ok((text.to_string(), thought))
}

#[test]
fn question_is_read_and_then_answered() {
    let (s, a) = go(InkStage::Start(question()), InkEvent::Started);
    assert_eq!(a, vec!["busy ocr", "ocr [102, 111, 111] read"]);
    let (s, a) = go(s, InkEvent::Recognized(said("why", true)));
    assert_eq!(a, vec!["busy qa", "qa why [102] answer"]);
    let (s, a) = go(s, InkEvent::Answered(said("so", true)));
    assert_eq!(a, vec!["thinking", "loaded so Zg=="]);
    let (s, a) = go(s, InkEvent::Delivered(Ok(())));
    assert_eq!(a, vec!["told why so", "ok so"]);
    assert!(go(s, InkEvent::Started).1.is_empty());
}

#[test]
fn failed_steps_are_shown_in_the_ink_window() {
    let reading = || go(InkStage::Start(question()), InkEvent::Started).0;
    let e = || AppError::Ai("x".to_string());
    let (_, a) = go(reading(), InkEvent::Recognized(Err(e())));
    assert_eq!(a, vec!["error OCR: AI error: x", "failed AI error: x"]);
    let (s, _) = go(reading(), InkEvent::Recognized(said("why", false)));
    let (_, a) = go(s, InkEvent::Answered(Err(e())));
    assert_eq!(a, vec!["error QA: AI error: x", "failed AI error: x"]);
    let (s, _) = go(reading(), InkEvent::Recognized(said("why", false)));
    let (s, a) = go(s, InkEvent::Answered(said("so", false)));
    assert_eq!(a, vec!["loaded so Zg=="]);
    let (_, a) = go(s, InkEvent::Delivered(Err(AppError::Tauri("t".to_string()))));
    assert_eq!(a, vec!["failed Tauri error: t"]);
}
