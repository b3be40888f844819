//! The calls that the client makes.

use rs_sc::error::AppError;
use rs_sc::llm_translate::{ChatCall, ChatMessage, ContentPart, LlmConfig, LlmTranslateClient};

fn client(key: &str) -> LlmTranslateClient {
    LlmTranslateClient::new(LlmConfig {
        base_url: "http://host/v1/chat/completions".to_string(),
        api_key: key.to_string(),
        model: "m".to_string(),
        prompt: "translate".to_string(),
    })
}

fn parts(message: &ChatMessage) -> Vec<String> {
    message
        .content
        .iter()
        .map(|p| match p {
            ContentPart::Text { text } => format!("text:{}", text),
            ContentPart::ImageUrl { image_url } => format!("image:{}", image_url.url),
        })
        .collect()
}

fn headers(call: &ChatCall) -> Vec<(&str, &str)> {
    call.headers.iter().map(|(k, v)| (k.as_str(), v.as_str())).collect()
}

#[test]
fn defaults_point_at_a_local_server() {
    let d = LlmConfig::defaults();
    assert_eq!(d.base_url, "http://127.0.0.1:11434/v1/chat/completions");
    assert_eq!(d.api_key, "");
    assert_eq!(d.model, "gpt-4o-mini");
    assert_eq!(
        d.prompt,
        "你是一名专业翻译。请把图片里的文字翻译成简体中文，仅输出译文本身，不要解释、不要加引号。"
    );
}

#[test]
fn translation_sends_prompt_and_image() {
    let call = client("k").translate_png(b"foo", Some(false)).unwrap();
    assert_eq!(call.url, "http://host/v1/chat/completions");
    assert_eq!(call.request.model, "m");
    assert_eq!(call.request.temperature_tenths, 2);
    assert_eq!(call.request.messages.len(), 1);
    assert_eq!(call.request.messages[0].role, "user");
    assert_eq!(
        parts(&call.request.messages[0]),
        vec!["text:translate", "image:data:image/png;base64,Zm9v"]
    );
}

#[test]
fn key_is_sent_only_where_there_is_one() {
    let with = client("secret").probe();
    assert_eq!(
        headers(&with),
        vec![("Content-Type", "application/json"), ("Authorization", "Bearer secret")]
    );
    let without = client("").probe();
    assert_eq!(headers(&without), vec![("Content-Type", "application/json")]);
}

#[test]
fn cancelled_translation_makes_no_call() {
    match client("").translate_png(b"x", Some(true)) {
        Err(AppError::Capture(m)) => assert_eq!(m, "cancelled"),
        _ => unreachable!(),
    }
    assert!(client("").translate_png(b"x", None).is_ok());
}

#[test]
fn probe_sends_a_ping() {
    let call = client("").probe();
    assert_eq!(call.request.temperature_tenths, 0);
    assert_eq!(call.request.messages.len(), 1);
    assert_eq!(parts(&call.request.messages[0]), vec!["text:ping"]);
}

#[test]
fn handwriting_is_sent_with_the_fixed_demand() {
    let call = client("").ocr_handwriting(b"f", "read");
    let expected = "text:read\n\n[OCR 契约]\n你的回答必须且只能是图中文字本身的字符序列。\
        严禁添加以下任何内容:引号、前缀(如 \"识别结果:\")、解释、Markdown 格式、\
        句末句号(除非原图本身有)、翻译、改写、猜测。\
        如果图中有多个字符块,按从左到右、从上到下顺序用单个空格连接。";
    assert_eq!(
        parts(&call.request.messages[0]),
        vec![expected, "image:data:image/png;base64,Zg=="]
    );
    assert_eq!(call.request.messages[0].role, "user");
    assert_eq!(call.request.temperature_tenths, 0);
}

#[test]
fn question_is_sent_with_its_context() {
    let call = client("").qa_with_context("  why? \n", b"fo", "briefly");
    assert_eq!(call.request.temperature_tenths, 3);
    assert_eq!(call.request.messages.len(), 2);
    assert_eq!(call.request.messages[0].role, "system");
    assert_eq!(parts(&call.request.messages[0]), vec!["text:briefly"]);
    assert_eq!(call.request.messages[1].role, "user");
    assert_eq!(
        parts(&call.request.messages[1]),
        vec![
            "text:## 用户提问(来自手写 OCR):\n\
             why?\n\n\
             ## 上下文:\n\
             用户对下方截图手写了上面的提问。请基于截图内容回答这个提问。\n\
             必须基于截图回答,不要凭空想象;如截图中无相关信息,请明确说明。",
            "image:data:image/png;base64,Zm8="
        ]
    );
}

#[test]
fn new_configuration_is_used_from_the_next_call_on() {
    let mut c = client("old");
    c.set_config(LlmConfig {
        base_url: "http://other".to_string(),
        api_key: String::new(),
        model: "n".to_string(),
        prompt: "p".to_string(),
    });
    let call = c.translate_png(b"", None).unwrap();
    assert_eq!(call.url, "http://other");
    assert_eq!(call.request.model, "n");
    assert_eq!(call.headers.len(), 1);
    assert_eq!(parts(&call.request.messages[0])[0], "text:p");
}
