//! What a reply comes to.

use rs_sc::error::AppError;
use rs_sc::exchange::{
    exchange_step, probe_step, Exchange, ProbeAction, ProbeEvent, ReplyAction, ReplyEvent,
};
use rs_sc::llm_translate::{ChatChoice, ChatResponse, ResponseMessage};

fn reply(contents: &[&str]) -> ReplyEvent {
    ReplyEvent::Parsed(ChatResponse {
        choices: contents
            .iter()
            .map(|c| ChatChoice { message: ResponseMessage { content: c.to_string() } })
            .collect(),
    })
}

fn show(action: ReplyAction) -> String {
    match action {
        ReplyAction::Wait { poll_millis } => format!("wait {:?}", poll_millis),
        ReplyAction::ReadBody => "read".to_string(),
        ReplyAction::ParseBody { body } => format!("parse {}", body),
        ReplyAction::Finish(Ok((text, thought))) => format!("ok {} {}", text, thought),
        ReplyAction::Finish(Err(e)) => e.message(),
    }
}

fn step(exchange: Exchange, event: ReplyEvent) -> String {
    show(exchange_step(exchange, event, None))
}

#[test]
fn waiting_polls_the_flag() {
    let pending = |cancel| show(exchange_step(Exchange::Translate, ReplyEvent::Pending, cancel));
    assert_eq!(pending(None), "wait None");
    assert_eq!(pending(Some(false)), "wait Some(100)");
    assert_eq!(pending(Some(true)), "capture error: cancelled");
}

#[test]
fn cancelled_response_is_not_read() {
    let responded = |cancel| show(exchange_step(Exchange::Translate, ReplyEvent::Responded, cancel));
    assert_eq!(responded(None), "read");
    assert_eq!(responded(Some(false)), "read");
    assert_eq!(responded(Some(true)), "capture error: cancelled");
}

#[test]
fn each_failure_names_its_step() {
    for (exchange, send, body, status, parse, empty) in [
        (
            Exchange::Translate,
            "translate request failed: x",
            "read body failed: x",
            "AI returned HTTP 500: oops",
            "parse response failed: x; body=oops",
            "model returned empty content",
        ),
        (
            Exchange::Ocr,
            "ocr request failed: x",
            "ocr read body failed: x",
            "OCR API returned HTTP 500: oops",
            "ocr parse failed: x; body=oops",
            "OCR returned empty text",
        ),
        (
            Exchange::Qa,
            "qa request failed: x",
            "qa read body failed: x",
            "QA API returned HTTP 500: oops",
            "qa parse failed: x; body=oops",
            "QA returned empty answer",
        ),
    ] {
        let x = || "x".to_string();
        let oops = || "oops".to_string();
        let ai = |m: &str| format!("AI error: {}", m);
        assert_eq!(step(exchange, ReplyEvent::SendFailed { error: x() }), ai(send));
        assert_eq!(step(exchange, ReplyEvent::BodyFailed { error: x() }), ai(body));
        let read = ReplyEvent::BodyRead { status: 500, body: oops() };
        assert_eq!(step(exchange, read), ai(status));
        let failed = ReplyEvent::ParseFailed { body: oops(), error: x() };
        assert_eq!(step(exchange, failed), ai(parse));
        assert_eq!(step(exchange, reply(&[])), ai(empty));
        assert_eq!(step(exchange, reply(&["  "])), ai(empty));
        assert_eq!(step(exchange, reply(&["<think>never closed"])), ai(empty));
    }
}

#[test]
fn only_success_is_parsed() {
    for status in [0u16, 100, 199, 300, 404, 599, 65535] {
        let read = ReplyEvent::BodyRead { status, body: "b".to_string() };
        assert_eq!(step(Exchange::Qa, read), format!("AI error: QA API returned HTTP {}: b", status));
    }
    for status in [200u16, 204, 299] {
        let read = ReplyEvent::BodyRead { status, body: "b".to_string() };
        assert_eq!(step(Exchange::Qa, read), "parse b");
    }
}

#[test]
fn long_bodies_are_quoted_in_part() {
    let body = "字".repeat(600);
    let read = ReplyEvent::BodyRead { status: 404, body: body.clone() };
    let text = step(Exchange::Translate, read);
    assert_eq!(text, format!("AI error: AI returned HTTP 404: {}", "字".repeat(500)));
    let failed = ReplyEvent::ParseFailed { body, error: "e".to_string() };
    let text = step(Exchange::Translate, failed);
    assert_eq!(text, format!("AI error: parse response failed: e; body={}", "字".repeat(200)));
}

#[test]
fn answer_is_what_follows_the_reasoning() {
    assert_eq!(step(Exchange::Translate, reply(&[" hi ", "other"])), "ok hi false");
    assert_eq!(step(Exchange::Qa, reply(&["<think>a</think> b "])), "ok b true");
    let written = reply(&["<think>用户写的是</think>用户写的是: \"1  +  1\""]);
    assert_eq!(step(Exchange::Ocr, written), "ok \"1 + 1\" true");
    assert_eq!(step(Exchange::Ocr, reply(&["\"你好。\""])), "ok 你好 false");
    assert_eq!(step(Exchange::Qa, reply(&["\"你好。\""])), "ok \"你好。\" false");
}

#[test]
fn probe_reports_the_status() {
    match probe_step(ProbeEvent::Responded { status: 204 }) {
        ProbeAction::Finish(Ok((text, thought))) => assert_eq!((text.as_str(), thought), ("HTTP 204", false)),
        _ => unreachable!(),
    }
    assert!(matches!(probe_step(ProbeEvent::Responded { status: 401 }), ProbeAction::ReadBody));
    for (event, expected) in [
        (ProbeEvent::SendFailed { error: "x".to_string() }, "connect failed: x".to_string()),
        (ProbeEvent::BodyRead { status: 401, body: Some("no".to_string()) }, "HTTP 401: no".to_string()),
        (ProbeEvent::BodyRead { status: 401, body: None }, "HTTP 401: ".to_string()),
        (
            ProbeEvent::BodyRead { status: 500, body: Some("z".repeat(201)) },
            format!("HTTP 500: {}", "z".repeat(200)),
        ),
    ] {
        match probe_step(event) {
            ProbeAction::Finish(Err(AppError::Ai(m))) => assert_eq!(m, expected),
            _ => unreachable!(),
        }
    }
}
