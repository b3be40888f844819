//! What becomes of a call to the model: waiting for the response, reading it, parsing it, and
//! the answer that it comes to.
//!
//! The shell performs an action and reports what happened; the functions here say what follows.

use crate::error::{AppError, AppResult, ErrorView};
use crate::llm_translate::{cancelled, ChatResponse};
use crate::ocr::{clean_ocr_text, cleaned};
use crate::text::{decimal, decimal_string, first_chars, take_chars, trim, trimmed};
use crate::thinking::{
    is_close_tag, is_open_tag, strip_thinking_block, tag_at, thinking_and_answer,
};
use vstd::prelude::*;
use vstd::string::*;

verus! {

/// What a call is for.
#[derive(Debug, Clone, Copy, PartialEq, Eq, Structural)]
pub enum Exchange {
    Translate,
    Ocr,
    Qa,
}

/// What has happened to a call.
#[derive(Debug)]
pub enum ReplyEvent {
    /// There is no response yet.
    Pending,
    /// The call could not be made.
    SendFailed { error: String },
    /// A response has begun.
    Responded,
    /// The response's body could not be read.
    BodyFailed { error: String },
    /// The response is complete.
    BodyRead { status: u16, body: String },
    /// The body is not of the expected form.
    ParseFailed { body: String, error: String },
    /// The body is of the expected form.
    Parsed(ChatResponse),
}

/// What is to be done next.
#[derive(Debug)]
pub enum ReplyAction {
    /// Wait for the response; where a time is given, no longer than that many milliseconds.
    Wait { poll_millis: Option<u64> },
    ReadBody,
    /// Parse the body.
    ParseBody { body: String },
    /// Done: the answer, and whether the model reasoned before it.
    Finish(AppResult<(String, bool)>),
}

/// An action by its texts.
pub enum ReplyShape {
    Wait(Option<u64>),
    ReadBody,
    ParseBody(Seq<char>),
    Finish(Result<(Seq<char>, bool), ErrorView>),
}

/// An answer by its text.
pub open spec fn answer_outcome(r: AppResult<(String, bool)>) -> Result<
    (Seq<char>, bool),
    ErrorView,
> {
    match r {
        Ok((text, thought)) => Ok((text@, thought)),
        Err(e) => Err(e@),
    }
}

impl View for ReplyAction {
    type V = ReplyShape;

    open spec fn view(&self) -> ReplyShape {
        match *self {
            ReplyAction::Wait { poll_millis } => ReplyShape::Wait(poll_millis),
            ReplyAction::ReadBody => ReplyShape::ReadBody,
            ReplyAction::ParseBody { body } => ReplyShape::ParseBody(body@),
            ReplyAction::Finish(r) => ReplyShape::Finish(answer_outcome(r)),
        }
    }
}

/// How long to wait before the flag that breaks a translation off is looked at again.
pub const POLL_MILLIS: u64 = 100;

/// How much of an error response is quoted.
pub const DETAIL_CHARS: usize = 500;

/// How much of a response that cannot be parsed is quoted.
pub const PREVIEW_CHARS: usize = 200;

/// A status that says that all is well.
pub open spec fn is_success(status: u16) -> bool {
    200 <= status < 300
}

impl Exchange {
    /// What is said of a call that could not be made.
    pub open spec fn send_text(self) -> Seq<char> {
        match self {
            Exchange::Translate => "translate request failed: "@,
            Exchange::Ocr => "ocr request failed: "@,
            Exchange::Qa => "qa request failed: "@,
        }
    }

    /// What is said of a body that could not be read.
    pub open spec fn body_text(self) -> Seq<char> {
        match self {
            Exchange::Translate => "read body failed: "@,
            Exchange::Ocr => "ocr read body failed: "@,
            Exchange::Qa => "qa read body failed: "@,
        }
    }

    /// What is said of an error response.
    pub open spec fn status_text(self) -> Seq<char> {
        match self {
            Exchange::Translate => "AI returned HTTP "@,
            Exchange::Ocr => "OCR API returned HTTP "@,
            Exchange::Qa => "QA API returned HTTP "@,
        }
    }

    /// What is said of a body that is not of the expected form.
    pub open spec fn parse_text(self) -> Seq<char> {
        match self {
            Exchange::Translate => "parse response failed: "@,
            Exchange::Ocr => "ocr parse failed: "@,
            Exchange::Qa => "qa parse failed: "@,
        }
    }

    /// What is said of a response without an answer.
    pub open spec fn empty_text(self) -> Seq<char> {
        match self {
            Exchange::Translate => "model returned empty content"@,
            Exchange::Ocr => "OCR returned empty text"@,
            Exchange::Qa => "QA returned empty answer"@,
        }
    }

    fn send_label(self) -> (r: &'static str)
        ensures
            r@ == self.send_text(),
    {
        match self {
            Exchange::Translate => "translate request failed: ",
            Exchange::Ocr => "ocr request failed: ",
            Exchange::Qa => "qa request failed: ",
        }
    }

    fn body_label(self) -> (r: &'static str)
        ensures
            r@ == self.body_text(),
    {
        match self {
            Exchange::Translate => "read body failed: ",
            Exchange::Ocr => "ocr read body failed: ",
            Exchange::Qa => "qa read body failed: ",
        }
    }

    fn status_label(self) -> (r: &'static str)
        ensures
            r@ == self.status_text(),
    {
        match self {
            Exchange::Translate => "AI returned HTTP ",
            Exchange::Ocr => "OCR API returned HTTP ",
            Exchange::Qa => "QA API returned HTTP ",
        }
    }

    fn parse_label(self) -> (r: &'static str)
        ensures
            r@ == self.parse_text(),
    {
        match self {
            Exchange::Translate => "parse response failed: ",
            Exchange::Ocr => "ocr parse failed: ",
            Exchange::Qa => "qa parse failed: ",
        }
    }

    fn empty_label(self) -> (r: &'static str)
        ensures
            r@ == self.empty_text(),
    {
        match self {
            Exchange::Translate => "model returned empty content",
            Exchange::Ocr => "OCR returned empty text",
            Exchange::Qa => "QA returned empty answer",
        }
    }
}

/// The text of the first choice, or nothing where there is none.
pub open spec fn response_content(response: ChatResponse) -> Seq<char> {
    if response.choices@.len() == 0 {
        Seq::empty()
    } else {
        response.choices@[0].message.content@
    }
}

/// The answer in a model's text. The reasoning is taken off first; handwriting is cleaned up.
pub open spec fn answer_text(exchange: Exchange, content: Seq<char>) -> Seq<char> {
    let answer = thinking_and_answer(content).1;
    match exchange {
        Exchange::Ocr => cleaned(answer),
        Exchange::Translate | Exchange::Qa => trimmed(answer),
    }
}

/// What a model's text comes to: an answer, with whether there was reasoning before it, or an
/// error where nothing is left.
pub open spec fn content_outcome(exchange: Exchange, content: Seq<char>) -> Result<
    (Seq<char>, bool),
    ErrorView,
> {
    let text = answer_text(exchange, content);
    if text.len() == 0 {
        Err(ErrorView::Ai(exchange.empty_text()))
    } else {
        Ok((text, thinking_and_answer(content).0.len() > 0))
    }
}

/// What follows an event. `cancel` is the flag that breaks the call off, where there is one.
pub open spec fn reply_step(
    exchange: Exchange,
    event: ReplyEvent,
    cancel: Option<bool>,
) -> ReplyShape {
    match event {
        ReplyEvent::Pending => match cancel {
            Some(true) => ReplyShape::Finish(Err(cancelled())),
            Some(false) => ReplyShape::Wait(Some(POLL_MILLIS)),
            None => ReplyShape::Wait(None),
        },
        ReplyEvent::SendFailed { error } => ReplyShape::Finish(
            Err(ErrorView::Ai(exchange.send_text() + error@)),
        ),
        ReplyEvent::Responded => if cancel == Some(true) {
            ReplyShape::Finish(Err(cancelled()))
        } else {
            ReplyShape::ReadBody
        },
        ReplyEvent::BodyFailed { error } => ReplyShape::Finish(
            Err(ErrorView::Ai(exchange.body_text() + error@)),
        ),
        ReplyEvent::BodyRead { status, body } => if is_success(status) {
            ReplyShape::ParseBody(body@)
        } else {
            ReplyShape::Finish(
                Err(
                    ErrorView::Ai(
                        exchange.status_text() + decimal(status as nat) + ": "@ + first_chars(
                            body@,
                            DETAIL_CHARS as nat,
                        ),
                    ),
                ),
            )
        },
        ReplyEvent::ParseFailed { body, error } => ReplyShape::Finish(
            Err(
                ErrorView::Ai(
                    exchange.parse_text() + error@ + "; body="@ + first_chars(
                        body@,
                        PREVIEW_CHARS as nat,
                    ),
                ),
            ),
        ),
        ReplyEvent::Parsed(response) => ReplyShape::Finish(
            content_outcome(exchange, response_content(response)),
        ),
    }
}

/// The answer in a model's text.
pub fn read_content(exchange: Exchange, content: &str) -> (r: AppResult<(String, bool)>)
    ensures
        answer_outcome(r) == content_outcome(exchange, content@),
{
    let (thinking, answer) = strip_thinking_block(content);
    let text: String = match exchange {
        Exchange::Ocr => clean_ocr_text(answer),
        Exchange::Translate => trim(answer).to_owned(),
        Exchange::Qa => trim(answer).to_owned(),
    };
    if text.as_str().is_empty() {
        return Err(AppError::ai(exchange.empty_label()));
    }
    Ok((text, !thinking.is_empty()))
}

/// What follows an event in a call.
pub fn exchange_step(exchange: Exchange, event: ReplyEvent, cancel: Option<bool>) -> (r:
    ReplyAction)
    ensures
        r@ == reply_step(exchange, event, cancel),
{
    match event {
        ReplyEvent::Pending => match cancel {
            Some(true) => ReplyAction::Finish(Err(AppError::capture("cancelled"))),
            Some(false) => ReplyAction::Wait { poll_millis: Some(POLL_MILLIS) },
            None => ReplyAction::Wait { poll_millis: None },
        },
        ReplyEvent::SendFailed { error } => ReplyAction::Finish(
            Err(AppError::Ai(exchange.send_label().to_owned().concat(error.as_str()))),
        ),
        ReplyEvent::Responded => match cancel {
            Some(true) => ReplyAction::Finish(Err(AppError::capture("cancelled"))),
            _ => ReplyAction::ReadBody,
        },
        ReplyEvent::BodyFailed { error } => ReplyAction::Finish(
            Err(AppError::Ai(exchange.body_label().to_owned().concat(error.as_str()))),
        ),
        ReplyEvent::BodyRead { status, body } => {
            if 200 <= status && status < 300 {
                return ReplyAction::ParseBody { body };
            }
            let mut text: String = exchange.status_label().to_owned();
            text.append(decimal_string(status as u64).as_str());
            text.append(": ");
            text.append(take_chars(body.as_str(), DETAIL_CHARS));
            ReplyAction::Finish(Err(AppError::Ai(text)))
        },
        ReplyEvent::ParseFailed { body, error } => {
            let mut text: String = exchange.parse_label().to_owned();
            text.append(error.as_str());
            text.append("; body=");
            text.append(take_chars(body.as_str(), PREVIEW_CHARS));
            ReplyAction::Finish(Err(AppError::Ai(text)))
        },
        ReplyEvent::Parsed(response) => {
            if response.choices.len() == 0 {
                proof {
                    reveal_strlit("");
                    assert(""@ =~= Seq::<char>::empty());
                }
                ReplyAction::Finish(read_content(exchange, ""))
            } else {
                ReplyAction::Finish(
                    read_content(exchange, response.choices[0].message.content.as_str()),
                )
            }
        },
    }
}

/// What has happened to a probe.
#[derive(Debug)]
pub enum ProbeEvent {
    SendFailed { error: String },
    Responded { status: u16 },
    /// The body of a response with an error status, where it could be read.
    BodyRead { status: u16, body: Option<String> },
}

/// What a probe does next.
#[derive(Debug)]
pub enum ProbeAction {
    ReadBody,
    /// Done: the status, and whether the model reasoned.
    Finish(AppResult<(String, bool)>),
}

impl ProbeAction {
    /// The result by its text, where the probe ends.
    pub open spec fn shape(self) -> Option<Result<(Seq<char>, bool), ErrorView>> {
        match self {
            ProbeAction::ReadBody => None,
            ProbeAction::Finish(r) => Some(answer_outcome(r)),
        }
    }
}

/// What a probe comes to after an event; nothing yet where the body is still to be read. A body
/// that cannot be read counts as empty.
pub open spec fn after_probe_event(event: ProbeEvent) -> Option<
    Result<(Seq<char>, bool), ErrorView>,
> {
    match event {
        ProbeEvent::SendFailed { error } => Some(
            Err(ErrorView::Ai("connect failed: "@ + error@)),
        ),
        ProbeEvent::Responded { status } => if is_success(status) {
            Some(Ok(("HTTP "@ + decimal(status as nat), false)))
        } else {
            None
        },
        ProbeEvent::BodyRead { status, body } => Some(
            Err(
                ErrorView::Ai(
                    "HTTP "@ + decimal(status as nat) + ": "@ + first_chars(
                        match body {
                            Some(text) => text@,
                            None => Seq::empty(),
                        },
                        PREVIEW_CHARS as nat,
                    ),
                ),
            ),
        ),
    }
}

/// What follows an event in a probe.
pub fn probe_step(event: ProbeEvent) -> (r: ProbeAction)
    ensures
        r.shape() == after_probe_event(event),
{
    match event {
        ProbeEvent::SendFailed { error } => ProbeAction::Finish(
            Err(AppError::Ai("connect failed: ".to_owned().concat(error.as_str()))),
        ),
        ProbeEvent::Responded { status } => if 200 <= status && status < 300 {
            let text: String = "HTTP ".to_owned().concat(decimal_string(status as u64).as_str());
            ProbeAction::Finish(Ok((text, false)))
        } else {
            ProbeAction::ReadBody
        },
        ProbeEvent::BodyRead { status, body } => {
            let mut text: String = "HTTP ".to_owned();
            text.append(decimal_string(status as u64).as_str());
            text.append(": ");
            if let Some(detail) = &body {
                text.append(take_chars(detail.as_str(), PREVIEW_CHARS));
            }
            proof {
                assert(first_chars(Seq::<char>::empty(), PREVIEW_CHARS as nat) =~= Seq::<
                    char,
                >::empty());
                assert(text@ =~= after_probe_event(event)->0->Err_0->Ai_0);
            }
            ProbeAction::Finish(Err(AppError::Ai(text)))
        },
    }
}

/// An answer is never empty and has no white space at its ends, whatever the model said.
pub proof fn law_answers_are_trimmed_and_not_empty(
    exchange: Exchange,
    event: ReplyEvent,
    cancel: Option<bool>,
)
    ensures
        reply_step(exchange, event, cancel) matches ReplyShape::Finish(Ok((text, _))) ==> text.len()
            > 0 && trimmed(text) == text,
{
    if let ReplyEvent::Parsed(response) = event {
        let answer = thinking_and_answer(response_content(response)).1;
        crate::text::law_trimming_twice_is_trimming_once(answer);
        crate::ocr::law_cleaned_text_is_tidy(answer);
    }
}

/// Nothing of a closed block of reasoning, nor of what came before it, gets into the answer:
/// the answer is worked out from what follows the block alone, and the reasoning shows only as
/// a flag.
pub proof fn law_reasoning_stays_out_of_the_answer(
    exchange: Exchange,
    response: ChatResponse,
    cancel: Option<bool>,
    before: Seq<char>,
    body: Seq<char>,
    after: Seq<char>,
)
    requires
        response_content(response) == before + "<think>"@ + body + "</think>"@ + after,
        forall|j: int|
            0 <= j < before.len() ==> !#[trigger] tag_at(
                response_content(response),
                "<think>"@,
                j,
            ),
        forall|j: int|
            before.len() + "<think>"@.len() <= j < before.len() + "<think>"@.len() + body.len()
                ==> !#[trigger] tag_at(response_content(response), "</think>"@, j),
    ensures
        reply_step(exchange, ReplyEvent::Parsed(response), cancel) == ReplyShape::Finish(
            {
                let text = match exchange {
                    Exchange::Ocr => cleaned(trimmed(after)),
                    _ => trimmed(after),
                };
                if text.len() == 0 {
                    Err(ErrorView::Ai(exchange.empty_text()))
                } else {
                    Ok((text, true))
                }
            },
        ),
{
    let s = response_content(response);
    crate::thinking::law_answer_is_what_follows_the_block(before, body, after);
    crate::text::law_trimming_twice_is_trimming_once(after);
    reveal_strlit("<think>");
    let open = before.len() as int;
    assert(tag_at(s, "<think>"@, open));
    crate::thinking::law_thinking_is_seen_by_its_tag(s);
}

/// A response that breaks off in the middle of its reasoning is an error, not an answer.
pub proof fn law_unfinished_reasoning_is_an_error(
    exchange: Exchange,
    response: ChatResponse,
    cancel: Option<bool>,
    before: Seq<char>,
    body: Seq<char>,
)
    requires
        response_content(response) == before + "<think>"@ + body,
        forall|j: int|
            0 <= j < before.len() ==> !#[trigger] tag_at(
                response_content(response),
                "<think>"@,
                j,
            ),
        forall|j: int|
            before.len() + "<think>"@.len() <= j ==> !#[trigger] tag_at(
                response_content(response),
                "</think>"@,
                j,
            ),
    ensures
        reply_step(exchange, ReplyEvent::Parsed(response), cancel) == ReplyShape::Finish(
            Err(ErrorView::Ai(exchange.empty_text())),
        ),
{
    crate::thinking::law_unclosed_block_leaves_no_answer(before, body);
    crate::ocr::lemma_nothing_is_cleaned_to_nothing();
    assert(trimmed(Seq::<char>::empty()) =~= Seq::<char>::empty());
}

/// A call that is broken off is neither waited for nor read: it ends as cancelled, or with the
/// error with which it failed at that moment.
pub proof fn law_cancelled_call_is_dropped(exchange: Exchange, event: ReplyEvent)
    requires
        event is Pending || event is SendFailed || event is Responded,
    ensures
        reply_step(exchange, event, Some(true)) is Finish,
        reply_step(exchange, event, Some(true))->Finish_0 is Err,
        event !is SendFailed ==> reply_step(exchange, event, Some(true)) == ReplyShape::Finish(
            Err(cancelled()),
        ),
{
}

/// Only a response with a status from 200 to 299 can come to an answer; every other status ends
/// the call with an error that quotes no more than the first characters of the body.
pub proof fn law_only_success_is_parsed(
    exchange: Exchange,
    status: u16,
    body: String,
    cancel: Option<bool>,
)
    ensures
        ({
            let next = reply_step(exchange, ReplyEvent::BodyRead { status, body }, cancel);
            &&& next == ReplyShape::ParseBody(body@) <==> 200 <= status <= 299
            &&& next !is ParseBody ==> next is Finish && next->Finish_0 is Err
        }),
{
}

/// The answer that a reply without reasoning gives is the reply itself, trimmed and otherwise
/// untouched: a translation and an answer keep their lines, their marks and their quotation
/// marks. A reply with nothing in it is an error.
pub proof fn law_plain_reply_is_the_answer(
    exchange: Exchange,
    response: ChatResponse,
    cancel: Option<bool>,
)
    requires
        exchange == Exchange::Translate || exchange == Exchange::Qa,
        forall|j: int| 0 <= j ==> !#[trigger] tag_at(response_content(response), "<think>"@, j),
    ensures
        trimmed(response_content(response)).len() > 0 ==> reply_step(
            exchange,
            ReplyEvent::Parsed(response),
            cancel,
        ) == ReplyShape::Finish(Ok((trimmed(response_content(response)), false))),
        trimmed(response_content(response)).len() == 0 ==> reply_step(
            exchange,
            ReplyEvent::Parsed(response),
            cancel,
        ) == ReplyShape::Finish(
            Err(
                ErrorView::Ai(
                    if exchange == Exchange::Translate {
                        "model returned empty content"@
                    } else {
                        "QA returned empty answer"@
                    },
                ),
            ),
        ),
{
    crate::thinking::law_response_without_block_is_all_answer(response_content(response));
    crate::text::law_trimming_twice_is_trimming_once(response_content(response));
}

/// Handwriting read without reasoning is the reply, cleaned up; a reply of which nothing is left
/// is an error.
pub proof fn law_plain_handwriting_is_cleaned(response: ChatResponse, cancel: Option<bool>)
    requires
        forall|j: int| 0 <= j ==> !#[trigger] tag_at(response_content(response), "<think>"@, j),
    ensures
        ({
            let text = cleaned(trimmed(response_content(response)));
            reply_step(Exchange::Ocr, ReplyEvent::Parsed(response), cancel) == ReplyShape::Finish(
                if text.len() > 0 {
                    Ok((text, false))
                } else {
                    Err(ErrorView::Ai("OCR returned empty text"@))
                },
            )
        }),
{
    crate::thinking::law_response_without_block_is_all_answer(response_content(response));
}

/// The reply is the text of the first choice; further choices do not matter, and a response
/// without choices is an empty reply.
pub proof fn law_first_choice_is_the_reply(response: ChatResponse)
    ensures
        response.choices@.len() > 0 ==> response_content(response)
            == response.choices@[0].message.content@,
        response.choices@.len() == 0 ==> response_content(response).len() == 0,
{
}

/// A probe succeeds exactly on the statuses from 200 to 299, and then says which it was; on every
/// other status it goes on to read the body, and ends in an error that quotes it.
pub proof fn law_probe_succeeds_on_success(status: u16, body: Option<String>)
    ensures
        200 <= status <= 299 ==> after_probe_event(ProbeEvent::Responded { status }) == Some(
            Ok::<(Seq<char>, bool), ErrorView>(("HTTP "@ + decimal(status as nat), false)),
        ),
        !(200 <= status <= 299) ==> after_probe_event(ProbeEvent::Responded { status }) is None,
        after_probe_event(ProbeEvent::BodyRead { status, body }) is Some,
        after_probe_event(ProbeEvent::BodyRead { status, body })->0 is Err,
{
}

/// A probe that fails says with which error or which status, and quotes at most the first 200
/// characters of the body; a body that could not be read counts as empty.
pub proof fn law_probe_errors_say_what_happened(status: u16, body: String, error: String)
    ensures
        after_probe_event(ProbeEvent::SendFailed { error }) == Some(
            Err::<(Seq<char>, bool), ErrorView>(ErrorView::Ai("connect failed: "@ + error@)),
        ),
        body@.len() <= 200 ==> after_probe_event(
            ProbeEvent::BodyRead { status, body: Some(body) },
        ) == Some(
            Err::<(Seq<char>, bool), ErrorView>(
                ErrorView::Ai("HTTP "@ + decimal(status as nat) + ": "@ + body@),
            ),
        ),
        body@.len() > 200 ==> after_probe_event(
            ProbeEvent::BodyRead { status, body: Some(body) },
        ) == Some(
            Err::<(Seq<char>, bool), ErrorView>(
                ErrorView::Ai("HTTP "@ + decimal(status as nat) + ": "@ + body@.take(200)),
            ),
        ),
        after_probe_event(ProbeEvent::BodyRead { status, body: None }) == Some(
            Err::<(Seq<char>, bool), ErrorView>(
                ErrorView::Ai("HTTP "@ + decimal(status as nat) + ": "@),
            ),
        ),
{
    let head = "HTTP "@ + decimal(status as nat) + ": "@;
    assert(head + Seq::<char>::empty() =~= head);
    assert(first_chars(Seq::<char>::empty(), PREVIEW_CHARS as nat) =~= Seq::<char>::empty());
}

/// A call that is not broken off waits for its response as long as it takes: without a flag for
/// good, with one for a tenth of a second at a time. Once there is a response it is read.
pub proof fn law_call_waits_and_reads(exchange: Exchange)
    ensures
        reply_step(exchange, ReplyEvent::Pending, None) == ReplyShape::Wait(None),
        reply_step(exchange, ReplyEvent::Pending, Some(false)) == ReplyShape::Wait(Some(100)),
        reply_step(exchange, ReplyEvent::Pending, Some(true)) == ReplyShape::Finish(
            Err(ErrorView::Capture("cancelled"@)),
        ),
        reply_step(exchange, ReplyEvent::Responded, None) == ReplyShape::ReadBody,
        reply_step(exchange, ReplyEvent::Responded, Some(false)) == ReplyShape::ReadBody,
        reply_step(exchange, ReplyEvent::Responded, Some(true)) == ReplyShape::Finish(
            Err(ErrorView::Capture("cancelled"@)),
        ),
{
}

/// Once a response has begun, the flag no longer matters.
pub proof fn law_late_cancel_changes_nothing(
    exchange: Exchange,
    event: ReplyEvent,
    a: Option<bool>,
    b: Option<bool>,
)
    requires
        event !is Pending,
        event !is Responded,
    ensures
        reply_step(exchange, event, a) == reply_step(exchange, event, b),
{
}

/// An error that ends a call carries the outside error word for word, after words that name the
/// kind of call and the step that failed.
pub proof fn law_call_errors_carry_their_cause(
    exchange: Exchange,
    error: String,
    cancel: Option<bool>,
)
    ensures
        reply_step(exchange, ReplyEvent::SendFailed { error }, cancel) == ReplyShape::Finish(
            Err(
                ErrorView::Ai(
                    match exchange {
                        Exchange::Translate => "translate request failed: "@,
                        Exchange::Ocr => "ocr request failed: "@,
                        Exchange::Qa => "qa request failed: "@,
                    } + error@,
                ),
            ),
        ),
        reply_step(exchange, ReplyEvent::BodyFailed { error }, cancel) == ReplyShape::Finish(
            Err(
                ErrorView::Ai(
                    match exchange {
                        Exchange::Translate => "read body failed: "@,
                        Exchange::Ocr => "ocr read body failed: "@,
                        Exchange::Qa => "qa read body failed: "@,
                    } + error@,
                ),
            ),
        ),
{
}

/// The error for a response with another status names the status and quotes the body: all of it
/// up to 500 characters, and no more than that of a longer one.
pub proof fn law_error_responses_are_quoted(
    exchange: Exchange,
    status: u16,
    body: String,
    cancel: Option<bool>,
)
    requires
        status < 200 || status > 299,
    ensures
        reply_step(exchange, ReplyEvent::BodyRead { status, body }, cancel) == ReplyShape::Finish(
            Err(
                ErrorView::Ai(
                    match exchange {
                        Exchange::Translate => "AI returned HTTP "@,
                        Exchange::Ocr => "OCR API returned HTTP "@,
                        Exchange::Qa => "QA API returned HTTP "@,
                    } + decimal(status as nat) + ": "@ + if body@.len() <= 500 {
                        body@
                    } else {
                        body@.take(500)
                    },
                ),
            ),
        ),
{
}

/// The error for a body that cannot be parsed says why and quotes the body: all of it up to 200
/// characters, and no more than that of a longer one.
pub proof fn law_unparsable_bodies_are_quoted(
    exchange: Exchange,
    body: String,
    error: String,
    cancel: Option<bool>,
)
    ensures
        reply_step(exchange, ReplyEvent::ParseFailed { body, error }, cancel)
            == ReplyShape::Finish(
            Err(
                ErrorView::Ai(
                    match exchange {
                        Exchange::Translate => "parse response failed: "@,
                        Exchange::Ocr => "ocr parse failed: "@,
                        Exchange::Qa => "qa parse failed: "@,
                    } + error@ + "; body="@ + if body@.len() <= 200 {
                        body@
                    } else {
                        body@.take(200)
                    },
                ),
            ),
        ),
{
}

/// Whether the model reasoned is told by its opening tag alone, in whatever kind of call.
pub proof fn law_reasoning_is_flagged_by_its_tag(
    exchange: Exchange,
    response: ChatResponse,
    cancel: Option<bool>,
)
    ensures
        reply_step(exchange, ReplyEvent::Parsed(response), cancel) matches ReplyShape::Finish(
            Ok((_, thought)),
        ) ==> (thought <==> exists|j: int|
            0 <= j && #[trigger] tag_at(response_content(response), "<think>"@, j)),
{
    crate::thinking::law_thinking_is_seen_by_its_tag(response_content(response));
}

/// What is to be done next is seen with its number, its text and its result as they are.
pub proof fn law_replies_are_seen_as_they_are(
    poll_millis: Option<u64>,
    text: String,
    thought: bool,
    e: AppError,
)
    ensures
        (ReplyAction::Wait { poll_millis })@ == ReplyShape::Wait(poll_millis),
        ReplyAction::ReadBody@ == ReplyShape::ReadBody,
        (ReplyAction::ParseBody { body: text })@ == ReplyShape::ParseBody(text@),
        ReplyAction::Finish(Ok((text, thought)))@ == ReplyShape::Finish(Ok((text@, thought))),
        ReplyAction::Finish(Err(e))@ == ReplyShape::Finish(Err(e@)),
        ProbeAction::ReadBody.shape() is None,
        ProbeAction::Finish(Ok((text, thought))).shape() == Some(
            Ok::<(Seq<char>, bool), ErrorView>((text@, thought)),
        ),
        ProbeAction::Finish(Err(e)).shape() == Some(Err::<(Seq<char>, bool), ErrorView>(e@)),
{
}

/// A text without reasoning is the answer as it stands, trimmed; only handwriting is cleaned up.
pub proof fn law_plain_text_is_the_answer(content: Seq<char>)
    requires
        forall|j: int| 0 <= j ==> !#[trigger] tag_at(content, "<think>"@, j),
    ensures
        content_outcome(Exchange::Translate, content) == if trimmed(content).len() > 0 {
            Ok::<(Seq<char>, bool), ErrorView>((trimmed(content), false))
        } else {
            Err(ErrorView::Ai("model returned empty content"@))
        },
        content_outcome(Exchange::Qa, content) == if trimmed(content).len() > 0 {
            Ok::<(Seq<char>, bool), ErrorView>((trimmed(content), false))
        } else {
            Err(ErrorView::Ai("QA returned empty answer"@))
        },
        content_outcome(Exchange::Ocr, content) == if cleaned(trimmed(content)).len() > 0 {
            Ok::<(Seq<char>, bool), ErrorView>((cleaned(trimmed(content)), false))
        } else {
            Err(ErrorView::Ai("OCR returned empty text"@))
        },
{
    crate::thinking::law_response_without_block_is_all_answer(content);
    crate::text::law_trimming_twice_is_trimming_once(content);
}

/// Of a text with a closed block of reasoning the answer is what follows the block, trimmed and
/// otherwise as it stands, whatever the case of the tags; only handwriting is cleaned up.
pub proof fn law_text_after_reasoning_is_the_answer(
    before: Seq<char>,
    open: Seq<char>,
    body: Seq<char>,
    close: Seq<char>,
    after: Seq<char>,
)
    requires
        is_open_tag(open),
        is_close_tag(close),
        ({
            let s = before + open + body + close + after;
            let start = before.len() + open.len();
            &&& forall|j: int| 0 <= j < before.len() ==> !#[trigger] tag_at(s, "<think>"@, j)
            &&& forall|j: int|
                start <= j < start + body.len() ==> !#[trigger] tag_at(s, "</think>"@, j)
        }),
    ensures
        ({
            let content = before + open + body + close + after;
            let answer = trimmed(after);
            &&& content_outcome(Exchange::Translate, content) == if answer.len() > 0 {
                Ok::<(Seq<char>, bool), ErrorView>((answer, true))
            } else {
                Err(ErrorView::Ai("model returned empty content"@))
            }
            &&& content_outcome(Exchange::Qa, content) == if answer.len() > 0 {
                Ok::<(Seq<char>, bool), ErrorView>((answer, true))
            } else {
                Err(ErrorView::Ai("QA returned empty answer"@))
            }
            &&& content_outcome(Exchange::Ocr, content) == if cleaned(answer).len() > 0 {
                Ok::<(Seq<char>, bool), ErrorView>((cleaned(answer), true))
            } else {
                Err(ErrorView::Ai("OCR returned empty text"@))
            }
        }),
{
    let content = before + open + body + close + after;
    crate::thinking::law_block_is_cut_out_as_it_stands(before, open, body, close, after);
    crate::thinking::lemma_open_tag_stands(before, open, body + close + after);
    assert(content =~= before + open + (body + close + after));
    crate::thinking::law_thinking_is_seen_by_its_tag(content);
    crate::text::law_trimming_twice_is_trimming_once(after);
}

/// A text whose reasoning is never closed has no answer, whatever the case of the tag.
pub proof fn law_text_without_an_end_is_an_error(
    exchange: Exchange,
    before: Seq<char>,
    open: Seq<char>,
    body: Seq<char>,
)
    requires
        is_open_tag(open),
        ({
            let s = before + open + body;
            &&& forall|j: int| 0 <= j < before.len() ==> !#[trigger] tag_at(s, "<think>"@, j)
            &&& forall|j: int|
                before.len() + open.len() <= j ==> !#[trigger] tag_at(s, "</think>"@, j)
        }),
    ensures
        content_outcome(exchange, before + open + body) == Err::<(Seq<char>, bool), ErrorView>(
            ErrorView::Ai(
                match exchange {
                    Exchange::Translate => "model returned empty content"@,
                    Exchange::Ocr => "OCR returned empty text"@,
                    Exchange::Qa => "QA returned empty answer"@,
                },
            ),
        ),
{
    crate::thinking::law_unclosed_block_is_all_reasoning(before, open, body);
    crate::ocr::lemma_nothing_is_cleaned_to_nothing();
    assert(trimmed(Seq::<char>::empty()) =~= Seq::<char>::empty());
}

/// A parsed response comes to what the text of its first choice comes to.
pub proof fn law_response_comes_to_its_first_choice(
    exchange: Exchange,
    response: ChatResponse,
    cancel: Option<bool>,
)
    ensures
        response.choices@.len() > 0 ==> reply_step(exchange, ReplyEvent::Parsed(response), cancel)
            == ReplyShape::Finish(
            content_outcome(exchange, response.choices@[0].message.content@),
        ),
        response.choices@.len() == 0 ==> reply_step(exchange, ReplyEvent::Parsed(response), cancel)
            == ReplyShape::Finish(content_outcome(exchange, Seq::empty())),
{
}

} // verus!
