//! A handwritten question about a selection: first the handwriting is read, then the question is
//! answered.

use crate::encoding::{base64, base64_refusal, decode_base64, decoded, is_base64};
use crate::error::{outcome, AppError, AppResult, ErrorView};
use crate::exchange::answer_outcome;
use crate::models::TranslateResult;
use crate::text::{trim, trimmed};
use vstd::prelude::*;
use vstd::string::*;

verus! {

/// The prompts for the two steps.
#[derive(Debug)]
pub struct InkPrompts {
    pub ocr_prompt: String,
    pub qa_prompt: String,
}

/// A question that can be asked.
#[derive(Debug)]
pub struct InkQuestion {
    /// The PNG that shows the selection with the handwriting below it.
    pub composite: Vec<u8>,
    /// The PNG of the selection alone.
    pub original: Vec<u8>,
    /// The selection as it was kept.
    pub original_b64: String,
    pub prompts: InkPrompts,
}

/// A question by its bytes and texts.
pub struct QuestionView {
    pub composite: Seq<u8>,
    pub original: Seq<u8>,
    pub original_b64: Seq<char>,
    pub ocr_prompt: Seq<char>,
    pub qa_prompt: Seq<char>,
}

impl View for InkQuestion {
    type V = QuestionView;

    open spec fn view(&self) -> QuestionView {
        QuestionView {
            composite: self.composite@,
            original: self.original@,
            original_b64: self.original_b64@,
            ocr_prompt: self.prompts.ocr_prompt@,
            qa_prompt: self.prompts.qa_prompt@,
        }
    }
}

/// What a request to answer a question comes to before the model is asked. `kept` is the
/// selection that was kept, where there is one, and `prompts` what reading the settings came to.
pub open spec fn prepared(
    canvas: Seq<char>,
    kept: Option<String>,
    prompts: AppResult<InkPrompts>,
) -> Result<QuestionView, ErrorView> {
    match decoded(trimmed(canvas)) {
        Err(e) => Err(ErrorView::Capture("composite base64 decode: "@ + e)),
        Ok(composite) => if composite.len() == 0 {
            Err(ErrorView::Capture("canvas is empty"@))
        } else {
            match (kept, prompts) {
                (None, _) => Err(ErrorView::Capture("no ink capture in progress"@)),
                (Some(_), Err(e)) => Err(e@),
                (Some(original_b64), Ok(p)) => match decoded(trimmed(original_b64@)) {
                    Err(e) => Err(
                        ErrorView::Capture("original screenshot base64 decode: "@ + e),
                    ),
                    Ok(original) => Ok(
                        QuestionView {
                            composite,
                            original,
                            original_b64: original_b64@,
                            ocr_prompt: p.ocr_prompt@,
                            qa_prompt: p.qa_prompt@,
                        },
                    ),
                },
            }
        },
    }
}

/// Reads a request to answer a question.
pub fn prepare_question(
    canvas_png_base64: &str,
    kept: Option<String>,
    prompts: AppResult<InkPrompts>,
) -> (r: AppResult<InkQuestion>)
    ensures
        match r {
            Ok(q) => prepared(canvas_png_base64@, kept, prompts) == Ok::<QuestionView, ErrorView>(
                q@,
            ),
            Err(e) => prepared(canvas_png_base64@, kept, prompts) == Err::<
                QuestionView,
                ErrorView,
            >(e@),
        },
{
    let composite: Vec<u8> = match decode_base64(trim(canvas_png_base64)) {
        Ok(bytes) => bytes,
        Err(e) => {
            let text: String = "composite base64 decode: ".to_owned().concat(e.as_str());
            return Err(AppError::Capture(text));
        },
    };
    if composite.len() == 0 {
        return Err(AppError::capture("canvas is empty"));
    }
    let original_b64: String = match kept {
        Some(text) => text,
        None => return Err(AppError::capture("no ink capture in progress")),
    };
    let prompts: InkPrompts = match prompts {
        Ok(p) => p,
        Err(e) => return Err(e),
    };
    match decode_base64(trim(original_b64.as_str())) {
        Ok(original) => Ok(InkQuestion { composite, original, original_b64, prompts }),
        Err(e) => {
            let text: String = "original screenshot base64 decode: ".to_owned().concat(
                e.as_str(),
            );
            Err(AppError::Capture(text))
        },
    }
}

/// What has happened to a question.
#[derive(Debug)]
pub enum InkEvent {
    Started,
    /// The handwriting was read.
    Recognized(AppResult<(String, bool)>),
    /// The question was answered.
    Answered(AppResult<(String, bool)>),
    /// The answer was handed over to the result window.
    Delivered(AppResult<()>),
}

/// How far a question has come.
#[derive(Debug)]
pub enum InkStage {
    Start(InkQuestion),
    /// The handwriting is being read.
    Reading(InkQuestion),
    /// The question is being answered.
    Answering { recognized: String, original_b64: String },
    /// The answer is being handed over.
    Delivering { recognized: String, answer: String },
    Done,
}

/// What the shell is to do.
#[derive(Debug)]
pub enum InkAction {
    /// Tell the handwriting window that a step is under way.
    EmitBusy { stage: String },
    /// Have the model read the handwriting.
    Recognize { composite: Vec<u8>, prompt: String },
    /// Have the model answer the question.
    Answer { question: String, original: Vec<u8>, prompt: String },
    /// Show an error in the handwriting window.
    EmitError { message: String },
    /// Say that the model reasoned before it answered.
    EmitThinking,
    /// Show the answer in the result window.
    EmitLoaded(TranslateResult),
    /// Tell the handwriting window what was read and answered.
    EmitDone { recognized_text: String, answer: String },
    /// The question is settled.
    Finish(AppResult<String>),
}

pub enum InkEventView {
    Started,
    Recognized(Result<(Seq<char>, bool), ErrorView>),
    Answered(Result<(Seq<char>, bool), ErrorView>),
    Delivered(Result<(), ErrorView>),
}

pub enum InkStageView {
    Start(QuestionView),
    Reading(QuestionView),
    Answering { recognized: Seq<char>, original_b64: Seq<char> },
    Delivering { recognized: Seq<char>, answer: Seq<char> },
    Done,
}

pub enum InkActionView {
    EmitBusy(Seq<char>),
    Recognize { composite: Seq<u8>, prompt: Seq<char> },
    Answer { question: Seq<char>, original: Seq<u8>, prompt: Seq<char> },
    EmitError(Seq<char>),
    EmitThinking,
    EmitLoaded { text: Seq<char>, image_base64: Seq<char> },
    EmitDone { recognized: Seq<char>, answer: Seq<char> },
    Finish(Result<Seq<char>, ErrorView>),
}

impl View for InkEvent {
    type V = InkEventView;

    open spec fn view(&self) -> InkEventView {
        match *self {
            InkEvent::Started => InkEventView::Started,
            InkEvent::Recognized(r) => InkEventView::Recognized(answer_outcome(r)),
            InkEvent::Answered(r) => InkEventView::Answered(answer_outcome(r)),
            InkEvent::Delivered(r) => InkEventView::Delivered(outcome(r)),
        }
    }
}

impl View for InkStage {
    type V = InkStageView;

    open spec fn view(&self) -> InkStageView {
        match *self {
            InkStage::Start(q) => InkStageView::Start(q@),
            InkStage::Reading(q) => InkStageView::Reading(q@),
            InkStage::Answering { recognized, original_b64 } => InkStageView::Answering {
                recognized: recognized@,
                original_b64: original_b64@,
            },
            InkStage::Delivering { recognized, answer } => InkStageView::Delivering {
                recognized: recognized@,
                answer: answer@,
            },
            InkStage::Done => InkStageView::Done,
        }
    }
}

impl View for InkAction {
    type V = InkActionView;

    open spec fn view(&self) -> InkActionView {
        match *self {
            InkAction::EmitBusy { stage } => InkActionView::EmitBusy(stage@),
            InkAction::Recognize { composite, prompt } => InkActionView::Recognize {
                composite: composite@,
                prompt: prompt@,
            },
            InkAction::Answer { question, original, prompt } => InkActionView::Answer {
                question: question@,
                original: original@,
                prompt: prompt@,
            },
            InkAction::EmitError { message } => InkActionView::EmitError(message@),
            InkAction::EmitThinking => InkActionView::EmitThinking,
            InkAction::EmitLoaded(result) => InkActionView::EmitLoaded {
                text: result.text@,
                image_base64: result.image_base64@,
            },
            InkAction::EmitDone { recognized_text, answer } => InkActionView::EmitDone {
                recognized: recognized_text@,
                answer: answer@,
            },
            InkAction::Finish(Ok(answer)) => InkActionView::Finish(Ok(answer@)),
            InkAction::Finish(Err(e)) => InkActionView::Finish(Err(e@)),
        }
    }
}

/// Actions by their bytes and texts.
pub open spec fn action_views(actions: Seq<InkAction>) -> Seq<InkActionView> {
    actions.map_values(|a: InkAction| a@)
}

/// A step came to an error: the handwriting window and the caller hear of it.
pub open spec fn question_fails(label: Seq<char>, e: ErrorView) -> (
    InkStageView,
    Seq<InkActionView>,
) {
    (
        InkStageView::Done,
        seq![InkActionView::EmitError(label + e.message()), InkActionView::Finish(Err(e))],
    )
}

/// What follows an event in a question. An event that does not belong to the stage changes
/// nothing.
pub open spec fn after_ink_event(stage: InkStageView, event: InkEventView) -> (
    InkStageView,
    Seq<InkActionView>,
) {
    match (stage, event) {
        (InkStageView::Start(q), InkEventView::Started) => (
            InkStageView::Reading(q),
            seq![
                InkActionView::EmitBusy("ocr"@),
                InkActionView::Recognize { composite: q.composite, prompt: q.ocr_prompt },
            ],
        ),
        (InkStageView::Reading(q), InkEventView::Recognized(result)) => match result {
            Err(e) => question_fails("OCR: "@, e),
            Ok((text, _)) => (
                InkStageView::Answering { recognized: text, original_b64: q.original_b64 },
                seq![
                    InkActionView::EmitBusy("qa"@),
                    InkActionView::Answer {
                        question: text,
                        original: q.original,
                        prompt: q.qa_prompt,
                    },
                ],
            ),
        },
        (
            InkStageView::Answering { recognized, original_b64 },
            InkEventView::Answered(result),
        ) => match result {
            Err(e) => question_fails("QA: "@, e),
            Ok((answer, thought)) => {
                let loaded = InkActionView::EmitLoaded {
                    text: answer,
                    image_base64: original_b64,
                };
                (
                    InkStageView::Delivering { recognized, answer },
                    if thought {
                        seq![InkActionView::EmitThinking, loaded]
                    } else {
                        seq![loaded]
                    },
                )
            },
        },
        (
            InkStageView::Delivering { recognized, answer },
            InkEventView::Delivered(result),
        ) => match result {
            Err(e) => (InkStageView::Done, seq![InkActionView::Finish(Err(e))]),
            Ok(_) => (
                InkStageView::Done,
                seq![
                    InkActionView::EmitDone { recognized, answer },
                    InkActionView::Finish(Ok(answer)),
                ],
            ),
        },
        _ => (stage, seq![]),
    }
}

fn one(action: InkAction) -> (r: Vec<InkAction>)
    ensures
        action_views(r@) == seq![action@],
{
    let actions: Vec<InkAction> = vec![action];
    proof {
        assert(action_views(actions@) =~= seq![action@]);
    }
    actions
}

fn two(first: InkAction, second: InkAction) -> (r: Vec<InkAction>)
    ensures
        action_views(r@) == seq![first@, second@],
{
    let actions: Vec<InkAction> = vec![first, second];
    proof {
        assert(action_views(actions@) =~= seq![first@, second@]);
    }
    actions
}

fn failed(label: &str, e: AppError) -> (r: (InkStage, Vec<InkAction>))
    ensures
        (r.0@, action_views(r.1@)) == question_fails(label@, e@),
{
    let message: String = label.to_owned().concat(e.message().as_str());
    (InkStage::Done, two(InkAction::EmitError { message }, InkAction::Finish(Err(e))))
}

/// What follows an event in a question.
pub fn submit_ink_question(stage: InkStage, event: InkEvent) -> (r: (InkStage, Vec<InkAction>))
    ensures
        (r.0@, action_views(r.1@)) == after_ink_event(stage@, event@),
{
    match (stage, event) {
        (InkStage::Start(q), InkEvent::Started) => {
            let composite: Vec<u8> = q.composite.clone();
            let prompt: String = q.prompts.ocr_prompt.clone();
            proof {
                assert(composite@ =~= q.composite@);
            }
            let actions: Vec<InkAction> = two(
                InkAction::EmitBusy { stage: "ocr".to_owned() },
                InkAction::Recognize { composite, prompt },
            );
            (InkStage::Reading(q), actions)
        },
        (InkStage::Reading(q), InkEvent::Recognized(result)) => match result {
            Err(e) => failed("OCR: ", e),
            Ok((text, _)) => {
                let actions: Vec<InkAction> = two(
                    InkAction::EmitBusy { stage: "qa".to_owned() },
                    InkAction::Answer {
                        question: text.clone(),
                        original: q.original,
                        prompt: q.prompts.qa_prompt,
                    },
                );
                let next: InkStage = InkStage::Answering {
                    recognized: text,
                    original_b64: q.original_b64,
                };
                (next, actions)
            },
        },
        (
            InkStage::Answering { recognized, original_b64 },
            InkEvent::Answered(result),
        ) => match result {
            Err(e) => failed("QA: ", e),
            Ok((answer, thought)) => {
                let loaded: InkAction = InkAction::EmitLoaded(
                    TranslateResult { text: answer.clone(), image_base64: original_b64 },
                );
                let actions: Vec<InkAction> = if thought {
                    two(InkAction::EmitThinking, loaded)
                } else {
                    one(loaded)
                };
                (InkStage::Delivering { recognized, answer }, actions)
            },
        },
        (InkStage::Delivering { recognized, answer }, InkEvent::Delivered(result)) => match result {
            Err(e) => (InkStage::Done, one(InkAction::Finish(Err(e)))),
            Ok(_) => {
                let actions: Vec<InkAction> = two(
                    InkAction::EmitDone { recognized_text: recognized, answer: answer.clone() },
                    InkAction::Finish(Ok(answer)),
                );
                (InkStage::Done, actions)
            },
        },
        (stage, _) => {
            let actions: Vec<InkAction> = Vec::new();
            proof {
                assert(action_views(actions@) =~= seq![]);
            }
            (stage, actions)
        },
    }
}

/// A question that goes well, from a selection that was kept as the base64 text of its PNG: the
/// handwriting is read off the composite under the first prompt; what was read is asked, word
/// for word, about the selection itself under the second; and the answer is shown beside that
/// selection, never the composite, before the handwriting window hears of it.
pub proof fn law_question_is_read_then_answered(
    canvas: Seq<char>,
    png: Seq<u8>,
    kept: String,
    prompts: InkPrompts,
    composite: Seq<u8>,
    text: Seq<char>,
    read_thought: bool,
    answer: Seq<char>,
    thought: bool,
)
    requires
        trimmed(canvas) == base64(composite),
        composite.len() > 0,
        kept@ == base64(png),
    ensures
        ({
            let q = prepared(canvas, Some(kept), Ok(prompts));
            let s0 = InkStageView::Start(q->Ok_0);
            let (s1, a1) = after_ink_event(s0, InkEventView::Started);
            let (s2, a2) = after_ink_event(s1, InkEventView::Recognized(Ok((text, read_thought))));
            let (s3, a3) = after_ink_event(s2, InkEventView::Answered(Ok((answer, thought))));
            let (s4, a4) = after_ink_event(s3, InkEventView::Delivered(Ok(())));
            &&& q is Ok
            &&& a1 == seq![
                InkActionView::EmitBusy("ocr"@),
                InkActionView::Recognize { composite, prompt: prompts.ocr_prompt@ },
            ]
            &&& a2 == seq![
                InkActionView::EmitBusy("qa"@),
                InkActionView::Answer {
                    question: text,
                    original: png,
                    prompt: prompts.qa_prompt@,
                },
            ]
            &&& a3.last() == InkActionView::EmitLoaded { text: answer, image_base64: kept@ }
            &&& a4 == seq![
                InkActionView::EmitDone { recognized: text, answer },
                InkActionView::Finish(Ok(answer)),
            ]
            &&& s4 == InkStageView::Done
        }),
{
    crate::encoding::law_decoding_undoes_encoding(composite);
    crate::encoding::law_decoding_undoes_encoding(png);
    crate::encoding::law_base64_is_trimmed(png);
}

/// A step that fails ends the question, and the model is not asked again: the handwriting window
/// is shown the error and the caller gets it.
pub proof fn law_failed_step_ends_the_question(stage: InkStageView, e: ErrorView)
    requires
        stage is Reading || stage is Answering,
    ensures
        ({
            let event = if stage is Reading {
                InkEventView::Recognized(Err(e))
            } else {
                InkEventView::Answered(Err(e))
            };
            let (next, actions) = after_ink_event(stage, event);
            &&& next == InkStageView::Done
            &&& actions.len() == 2
            &&& actions[0] is EmitError
            &&& actions[1] == InkActionView::Finish(Err(e))
        }),
{
}

/// A request is refused for the first of its faults: a picture that is not base64, an empty one,
/// no selection kept, settings that cannot be read, a kept selection that is not base64.
pub proof fn law_bad_questions_are_refused(
    canvas: Seq<char>,
    kept: Option<String>,
    prompts: AppResult<InkPrompts>,
)
    ensures
        ({
            let text = trimmed(canvas);
            let r = prepared(canvas, kept, prompts);
            &&& !is_base64(text) ==> r == Err::<QuestionView, ErrorView>(
                ErrorView::Capture("composite base64 decode: "@ + base64_refusal(text)),
            )
            &&& text.len() == 0 ==> r == Err::<QuestionView, ErrorView>(
                ErrorView::Capture("canvas is empty"@),
            )
            &&& is_base64(text) && text.len() > 0 && kept is None ==> r == Err::<
                QuestionView,
                ErrorView,
            >(ErrorView::Capture("no ink capture in progress"@))
            &&& is_base64(text) && text.len() > 0 && kept is Some && prompts is Err ==> r == Err::<
                QuestionView,
                ErrorView,
            >(prompts->Err_0@)
            &&& is_base64(text) && text.len() > 0 && kept is Some && prompts is Ok && !is_base64(
                trimmed(kept->0@),
            ) ==> r == Err::<QuestionView, ErrorView>(
                ErrorView::Capture(
                    "original screenshot base64 decode: "@ + base64_refusal(trimmed(kept->0@)),
                ),
            )
            &&& is_base64(text) && text.len() > 0 && kept is Some && prompts is Ok && is_base64(
                trimmed(kept->0@),
            ) <==> r is Ok
        }),
{
    let text = trimmed(canvas);
    if is_base64(text) {
        let b = choose|b: Seq<u8>| #[trigger] base64(b) == text;
        crate::encoding::law_decoding_undoes_encoding(b);
        crate::encoding::law_base64_length(b);
    }
    let e = Seq::<u8>::empty();
    assert(base64(e) =~= Seq::<char>::empty());
    if text.len() == 0 {
        assert(text =~= base64(e));
        assert(is_base64(text));
        crate::encoding::law_decoding_undoes_encoding(e);
    }
}

/// A request that can be met holds what was sent and what was kept: the two pictures are the ones
/// whose base64 texts were given, the kept text and the prompts are as they were.
pub proof fn law_questions_hold_what_was_given(
    canvas: Seq<char>,
    kept: String,
    prompts: InkPrompts,
    composite: Seq<u8>,
    original: Seq<u8>,
)
    requires
        trimmed(canvas) == base64(composite),
        trimmed(kept@) == base64(original),
        composite.len() > 0,
    ensures
        prepared(canvas, Some(kept), Ok(prompts)) is Ok,
        ({
            let q = prepared(canvas, Some(kept), Ok(prompts))->Ok_0;
            &&& q.composite == composite
            &&& q.original == original
            &&& q.original_b64 == kept@
            &&& q.ocr_prompt == prompts.ocr_prompt@
            &&& q.qa_prompt == prompts.qa_prompt@
        }),
{
    crate::encoding::law_decoding_undoes_encoding(composite);
    crate::encoding::law_decoding_undoes_encoding(original);
}

/// The answer is shown word for word beside the selection as it was kept, after a word that the
/// model reasoned about the answer where it did; that it reasoned about the handwriting is not
/// mentioned.
pub proof fn law_answer_is_shown_beside_the_selection(
    q: QuestionView,
    recognized: Seq<char>,
    read_thought: bool,
    answer: Seq<char>,
)
    ensures
        ({
            let loaded = InkActionView::EmitLoaded { text: answer, image_base64: q.original_b64 };
            let (reading, _) = after_ink_event(InkStageView::Start(q), InkEventView::Started);
            let (answering, _) = after_ink_event(
                reading,
                InkEventView::Recognized(Ok((recognized, read_thought))),
            );
            &&& after_ink_event(answering, InkEventView::Answered(Ok((answer, false)))).1 == seq![
                loaded,
            ]
            &&& after_ink_event(answering, InkEventView::Answered(Ok((answer, true)))).1 == seq![
                InkActionView::EmitThinking,
                loaded,
            ]
        }),
{
}

/// A step that fails is shown in the handwriting window with a word for the step and the kind of
/// the error, and an answer that cannot be handed over is an error without more.
pub proof fn law_failed_steps_are_named(
    q: QuestionView,
    recognized: Seq<char>,
    original_b64: Seq<char>,
    answer: Seq<char>,
    e: ErrorView,
)
    ensures
        after_ink_event(InkStageView::Reading(q), InkEventView::Recognized(Err(e))) == (
            InkStageView::Done,
            seq![InkActionView::EmitError("OCR: "@ + e.message()), InkActionView::Finish(Err(e))],
        ),
        after_ink_event(
            InkStageView::Answering { recognized, original_b64 },
            InkEventView::Answered(Err(e)),
        ) == (
            InkStageView::Done,
            seq![InkActionView::EmitError("QA: "@ + e.message()), InkActionView::Finish(Err(e))],
        ),
        after_ink_event(
            InkStageView::Delivering { recognized, answer },
            InkEventView::Delivered(Err(e)),
        ) == (InkStageView::Done, seq![InkActionView::Finish(Err(e))]),
{
}

/// A question goes on with the event that it waits for and with no other.
pub proof fn law_stray_ink_events_change_nothing(stage: InkStageView, event: InkEventView)
    ensures
        ({
            let awaited = match stage {
                InkStageView::Start(_) => event is Started,
                InkStageView::Reading(_) => event is Recognized,
                InkStageView::Answering { .. } => event is Answered,
                InkStageView::Delivering { .. } => event is Delivered,
                InkStageView::Done => false,
            };
            let (next, actions) = after_ink_event(stage, event);
            &&& awaited <==> actions.len() > 0
            &&& !awaited ==> next == stage
        }),
{
}

/// Events and actions are seen with each text, picture and result in its place.
pub proof fn law_questions_are_seen_as_they_are(
    a: String,
    b: String,
    picture: Vec<u8>,
    result: TranslateResult,
    thought: bool,
    e: AppError,
)
    ensures
        (InkAction::EmitBusy { stage: a })@ == InkActionView::EmitBusy(a@),
        (InkAction::Recognize { composite: picture, prompt: a })@ == (InkActionView::Recognize {
            composite: picture@,
            prompt: a@,
        }),
        (InkAction::Answer { question: a, original: picture, prompt: b })@ == (
        InkActionView::Answer { question: a@, original: picture@, prompt: b@ }),
        (InkAction::EmitError { message: a })@ == InkActionView::EmitError(a@),
        InkAction::EmitThinking@ == InkActionView::EmitThinking,
        InkAction::EmitLoaded(result)@ == (InkActionView::EmitLoaded {
            text: result.text@,
            image_base64: result.image_base64@,
        }),
        (InkAction::EmitDone { recognized_text: a, answer: b })@ == (InkActionView::EmitDone {
            recognized: a@,
            answer: b@,
        }),
        InkAction::Finish(Ok(a))@ == InkActionView::Finish(Ok(a@)),
        InkAction::Finish(Err(e))@ == InkActionView::Finish(Err(e@)),
        InkEvent::Recognized(Ok((a, thought)))@ == InkEventView::Recognized(Ok((a@, thought))),
        InkEvent::Recognized(Err(e))@ == InkEventView::Recognized(Err(e@)),
        InkEvent::Answered(Ok((a, thought)))@ == InkEventView::Answered(Ok((a@, thought))),
        InkEvent::Answered(Err(e))@ == InkEventView::Answered(Err(e@)),
        InkEvent::Delivered(Ok(()))@ == InkEventView::Delivered(Ok(())),
        InkEvent::Delivered(Err(e))@ == InkEventView::Delivered(Err(e@)),
{
}

/// Whatever the question, its handwriting is read off the composite under the first prompt, and
/// what was read is asked about the selection alone under the second, word for word.
pub proof fn law_every_question_is_read_then_asked(
    q: QuestionView,
    text: Seq<char>,
    read_thought: bool,
)
    ensures
        after_ink_event(InkStageView::Start(q), InkEventView::Started) == (
            InkStageView::Reading(q),
            seq![
                InkActionView::EmitBusy("ocr"@),
                InkActionView::Recognize { composite: q.composite, prompt: q.ocr_prompt },
            ],
        ),
        after_ink_event(
            InkStageView::Reading(q),
            InkEventView::Recognized(Ok((text, read_thought))),
        ) == (
            InkStageView::Answering { recognized: text, original_b64: q.original_b64 },
            seq![
                InkActionView::EmitBusy("qa"@),
                InkActionView::Answer { question: text, original: q.original, prompt: q.qa_prompt },
            ],
        ),
{
}

/// An answer is kept word for word, with what was read, until it is handed over, and then both are
/// told to the handwriting window and the answer to the caller.
pub proof fn law_answer_is_handed_over(
    recognized: Seq<char>,
    original_b64: Seq<char>,
    answer: Seq<char>,
    thought: bool,
)
    ensures
        after_ink_event(
            InkStageView::Answering { recognized, original_b64 },
            InkEventView::Answered(Ok((answer, thought))),
        ).0 == (InkStageView::Delivering { recognized, answer }),
        after_ink_event(
            InkStageView::Delivering { recognized, answer },
            InkEventView::Delivered(Ok(())),
        ) == (
            InkStageView::Done,
            seq![
                InkActionView::EmitDone { recognized, answer },
                InkActionView::Finish(Ok(answer)),
            ],
        ),
{
}

/// Stages and lists of actions are seen with each part in its place.
pub proof fn law_stages_are_seen_as_they_are(
    q: InkQuestion,
    a: String,
    b: String,
    actions: Seq<InkAction>,
    i: int,
)
    requires
        0 <= i < actions.len(),
    ensures
        q@.composite == q.composite@,
        q@.original == q.original@,
        q@.original_b64 == q.original_b64@,
        q@.ocr_prompt == q.prompts.ocr_prompt@,
        q@.qa_prompt == q.prompts.qa_prompt@,
        InkStage::Start(q)@ == InkStageView::Start(q@),
        InkStage::Reading(q)@ == InkStageView::Reading(q@),
        (InkStage::Answering { recognized: a, original_b64: b })@ == (InkStageView::Answering {
            recognized: a@,
            original_b64: b@,
        }),
        (InkStage::Delivering { recognized: a, answer: b })@ == (InkStageView::Delivering {
            recognized: a@,
            answer: b@,
        }),
        InkStage::Done@ == InkStageView::Done,
        action_views(actions).len() == actions.len(),
        action_views(actions)[i] == actions[i]@,
{
}

} // verus!
