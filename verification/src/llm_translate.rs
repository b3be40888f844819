//! The client of a multimodal model that speaks the `/chat/completions` schema.
//!
//! The client works out what is to be sent; a shell around it sends it.

use crate::encoding::{base64, encode_base64, is_encodable};
use crate::error::{AppError, AppResult, ErrorView};
use crate::settings::{env_or, env_or_default, EnvOverrides};
use crate::text::{trim, trimmed};
use vstd::prelude::*;
use vstd::string::*;

verus! {

/// What the user can set about the model.
#[derive(Debug, Clone)]
pub struct LlmConfig {
    pub base_url: String,
    pub api_key: String,
    pub model: String,
    pub prompt: String,
}

/// A configuration by its texts.
#[verifier::ext_equal]
pub struct ConfigView {
    pub base_url: Seq<char>,
    pub api_key: Seq<char>,
    pub model: Seq<char>,
    pub prompt: Seq<char>,
}

impl View for LlmConfig {
    type V = ConfigView;

    open spec fn view(&self) -> ConfigView {
        ConfigView {
            base_url: self.base_url@,
            api_key: self.api_key@,
            model: self.model@,
            prompt: self.prompt@,
        }
    }
}

impl LlmConfig {
    /// The values used where nothing else provides one.
    pub open spec fn default_view() -> ConfigView {
        ConfigView {
            base_url: "http://127.0.0.1:11434/v1/chat/completions"@,
            api_key: Seq::empty(),
            model: "gpt-4o-mini"@,
            prompt:
                "你是一名专业翻译。请把图片里的文字翻译成简体中文，仅输出译文本身，不要解释、不要加引号。"@,
        }
    }

    /// The defaults, overridden by what the environment sets.
    pub open spec fn env_view(env: EnvOverrides) -> ConfigView {
        let d = LlmConfig::default_view();
        ConfigView {
            base_url: env_or(env.api_base, d.base_url),
            api_key: env_or(env.api_key, d.api_key),
            model: env_or(env.model, d.model),
            prompt: env_or(env.prompt, d.prompt),
        }
    }

    /// The values used where nothing else provides one: a local model server.
    pub fn defaults() -> (r: LlmConfig)
        ensures
            r@ == LlmConfig::default_view(),
    {
        LlmConfig {
            base_url: "http://127.0.0.1:11434/v1/chat/completions".to_owned(),
            api_key: String::new(),
            model: "gpt-4o-mini".to_owned(),
            prompt:
                "你是一名专业翻译。请把图片里的文字翻译成简体中文，仅输出译文本身，不要解释、不要加引号。".to_owned(),
        }
    }

    /// The defaults, overridden by what the environment sets.
    pub fn from_env_with_defaults(env: &EnvOverrides) -> (r: LlmConfig)
        ensures
            r@ == LlmConfig::env_view(*env),
    {
        let d: LlmConfig = LlmConfig::defaults();
        LlmConfig {
            base_url: env_or_default(&env.api_base, d.base_url.as_str()),
            api_key: env_or_default(&env.api_key, d.api_key.as_str()),
            model: env_or_default(&env.model, d.model.as_str()),
            prompt: env_or_default(&env.prompt, d.prompt.as_str()),
        }
    }
}

/// The request body.
#[derive(Debug)]
pub struct ChatRequest {
    pub model: String,
    pub messages: Vec<ChatMessage>,
    /// The sampling temperature, in tenths.
    pub temperature_tenths: u8,
}

#[derive(Debug)]
pub struct ChatMessage {
    pub role: String,
    pub content: Vec<ContentPart>,
}

#[derive(Debug)]
pub enum ContentPart {
    Text { text: String },
    ImageUrl { image_url: ImageUrl },
}

#[derive(Debug)]
pub struct ImageUrl {
    pub url: String,
}

/// The part of a response body that is used.
#[derive(Debug)]
pub struct ChatResponse {
    pub choices: Vec<ChatChoice>,
}

#[derive(Debug)]
pub struct ChatChoice {
    pub message: ResponseMessage,
}

#[derive(Debug)]
pub struct ResponseMessage {
    pub content: String,
}

/// A POST request: where it goes, its headers in order, and its body.
#[derive(Debug)]
pub struct ChatCall {
    pub url: String,
    pub headers: Vec<(String, String)>,
    pub request: ChatRequest,
}

pub enum PartView {
    Text(Seq<char>),
    ImageUrl(Seq<char>),
}

pub struct MessageView {
    pub role: Seq<char>,
    pub content: Seq<PartView>,
}

/// A call by its texts.
pub struct CallView {
    pub url: Seq<char>,
    pub headers: Seq<(Seq<char>, Seq<char>)>,
    pub model: Seq<char>,
    pub messages: Seq<MessageView>,
    pub temperature_tenths: u8,
}

impl View for ContentPart {
    type V = PartView;

    open spec fn view(&self) -> PartView {
        match *self {
            ContentPart::Text { text } => PartView::Text(text@),
            ContentPart::ImageUrl { image_url } => PartView::ImageUrl(image_url.url@),
        }
    }
}

impl View for ChatMessage {
    type V = MessageView;

    open spec fn view(&self) -> MessageView {
        MessageView {
            role: self.role@,
            content: self.content@.map_values(|p: ContentPart| p@),
        }
    }
}

impl View for ChatCall {
    type V = CallView;

    open spec fn view(&self) -> CallView {
        CallView {
            url: self.url@,
            headers: self.headers@.map_values(|h: (String, String)| (h.0@, h.1@)),
            model: self.request.model@,
            messages: self.request.messages@.map_values(|m: ChatMessage| m@),
            temperature_tenths: self.request.temperature_tenths,
        }
    }
}

/// The URL that carries a PNG image.
pub open spec fn png_url(png: Seq<u8>) -> Seq<char> {
    "data:image/png;base64,"@ + base64(png)
}

/// The headers of a call: the key goes along where there is one.
pub open spec fn call_headers(api_key: Seq<char>) -> Seq<(Seq<char>, Seq<char>)> {
    let content_type = ("Content-Type"@, "application/json"@);
    if api_key.len() == 0 {
        seq![content_type]
    } else {
        seq![content_type, ("Authorization"@, "Bearer "@ + api_key)]
    }
}

/// A call under a configuration.
pub open spec fn call_with(
    config: ConfigView,
    messages: Seq<MessageView>,
    temperature_tenths: u8,
) -> CallView {
    CallView {
        url: config.base_url,
        headers: call_headers(config.api_key),
        model: config.model,
        messages,
        temperature_tenths,
    }
}

/// One message of a text and an image.
pub open spec fn text_and_image(role: Seq<char>, text: Seq<char>, png: Seq<u8>) -> MessageView {
    MessageView { role, content: seq![PartView::Text(text), PartView::ImageUrl(png_url(png))] }
}

/// One message of a text.
pub open spec fn text_only(role: Seq<char>, text: Seq<char>) -> MessageView {
    MessageView { role, content: seq![PartView::Text(text)] }
}

/// What is always added to the prompt for handwriting: the answer is the raw text and nothing
/// else.
pub const OCR_CONTRACT: &'static str =
    "\n\n[OCR 契约]\n你的回答必须且只能是图中文字本身的字符序列。严禁添加以下任何内容:引号、前缀(如 \"识别结果:\")、解释、Markdown 格式、句末句号(除非原图本身有)、翻译、改写、猜测。如果图中有多个字符块,按从左到右、从上到下顺序用单个空格连接。";

/// What stands before the question in the message to the model.
pub const QUESTION_HEAD: &'static str = "## 用户提问(来自手写 OCR):\n";

/// What stands after the question in the message to the model.
pub const QUESTION_TAIL: &'static str =
    "\n\n## 上下文:\n用户对下方截图手写了上面的提问。请基于截图内容回答这个提问。\n必须基于截图回答,不要凭空想象;如截图中无相关信息,请明确说明。";

/// The prompt with which handwriting is sent.
pub open spec fn ocr_text(prompt: Seq<char>) -> Seq<char> {
    prompt + OCR_CONTRACT@
}

/// The text with which a question is sent.
pub open spec fn question_text(question: Seq<char>) -> Seq<char> {
    QUESTION_HEAD@ + trimmed(question) + QUESTION_TAIL@
}

/// The call that translates the text in an image.
pub open spec fn translate_call(config: ConfigView, png: Seq<u8>) -> CallView {
    call_with(config, seq![text_and_image("user"@, config.prompt, png)], 2)
}

/// The call that tries whether the model can be reached.
pub open spec fn probe_call(config: ConfigView) -> CallView {
    call_with(config, seq![text_only("user"@, "ping"@)], 0)
}

/// The call that reads handwriting.
pub open spec fn ocr_call(config: ConfigView, png: Seq<u8>, prompt: Seq<char>) -> CallView {
    call_with(config, seq![text_and_image("user"@, ocr_text(prompt), png)], 0)
}

/// The call that answers a question about an image.
pub open spec fn qa_call(
    config: ConfigView,
    question: Seq<char>,
    png: Seq<u8>,
    prompt: Seq<char>,
) -> CallView {
    call_with(
        config,
        seq![
            text_only("system"@, prompt),
            text_and_image("user"@, question_text(question), png),
        ],
        3,
    )
}

/// A translation that was broken off.
pub open spec fn cancelled() -> ErrorView {
    ErrorView::Capture("cancelled"@)
}

fn image_part(png: &[u8]) -> (r: ContentPart)
    requires
        is_encodable(png@.len()),
    ensures
        r@ == PartView::ImageUrl(png_url(png@)),
{
    let text: String = encode_base64(png);
    ContentPart::ImageUrl {
        image_url: ImageUrl { url: "data:image/png;base64,".to_owned().concat(text.as_str()) },
    }
}

fn image_message(role: &str, text: String, png: &[u8]) -> (r: ChatMessage)
    requires
        is_encodable(png@.len()),
    ensures
        r@ == text_and_image(role@, text@, png@),
{
    let content: Vec<ContentPart> = vec![ContentPart::Text { text }, image_part(png)];
    proof {
        assert(content@.map_values(|p: ContentPart| p@) =~= text_and_image(
            role@,
            text@,
            png@,
        ).content);
    }
    ChatMessage { role: role.to_owned(), content }
}

fn text_message(role: &str, text: String) -> (r: ChatMessage)
    ensures
        r@ == text_only(role@, text@),
{
    let content: Vec<ContentPart> = vec![ContentPart::Text { text }];
    proof {
        assert(content@.map_values(|p: ContentPart| p@) =~= text_only(role@, text@).content);
    }
    ChatMessage { role: role.to_owned(), content }
}

/// A client that talks to the model under a configuration, which can be replaced at any time.
#[derive(Debug)]
pub struct LlmTranslateClient {
    pub config: LlmConfig,
}

impl LlmTranslateClient {
    pub fn new(config: LlmConfig) -> (r: LlmTranslateClient)
        ensures
            r.config == config,
    {
        LlmTranslateClient { config }
    }

    /// Replaces the configuration: the calls from then on use the new one.
    pub fn set_config(&mut self, new_config: LlmConfig)
        ensures
            final(self).config == new_config,
    {
        self.config = new_config;
    }

    fn call(&self, messages: Vec<ChatMessage>, temperature_tenths: u8) -> (r: ChatCall)
        ensures
            r@ == call_with(
                self.config@,
                messages@.map_values(|m: ChatMessage| m@),
                temperature_tenths,
            ),
    {
        let mut headers: Vec<(String, String)> = Vec::new();
        headers.push(("Content-Type".to_owned(), "application/json".to_owned()));
        if !self.config.api_key.as_str().is_empty() {
            headers.push(
                (
                    "Authorization".to_owned(),
                    "Bearer ".to_owned().concat(self.config.api_key.as_str()),
                ),
            );
        }
        proof {
            assert(headers@.map_values(|h: (String, String)| (h.0@, h.1@)) =~= call_headers(
                self.config.api_key@,
            ));
        }
        ChatCall {
            url: self.config.base_url.clone(),
            headers,
            request: ChatRequest { model: self.config.model.clone(), messages, temperature_tenths },
        }
    }

    /// The call that translates the text in a PNG image. `cancel` is the flag that breaks the
    /// translation off, where there is one: a translation that is already broken off makes no
    /// call.
    pub fn translate_png(&self, png_bytes: &[u8], cancel: Option<bool>) -> (r: AppResult<ChatCall>)
        requires
            is_encodable(png_bytes@.len()),
        ensures
            match r {
                Ok(call) => cancel != Some(true) && call@ == translate_call(
                    self.config@,
                    png_bytes@,
                ),
                Err(e) => cancel == Some(true) && e@ == cancelled(),
            },
    {
        if let Some(true) = cancel {
            return Err(AppError::capture("cancelled"));
        }
        let message: ChatMessage = image_message("user", self.config.prompt.clone(), png_bytes);
        let messages: Vec<ChatMessage> = vec![message];
        proof {
            assert(messages@.map_values(|m: ChatMessage| m@) =~= seq![message@]);
        }
        let call: ChatCall = self.call(messages, 2);
        Ok(call)
    }

    /// The call that tries whether the model can be reached.
    pub fn probe(&self) -> (r: ChatCall)
        ensures
            r@ == probe_call(self.config@),
    {
        let message: ChatMessage = text_message("user", "ping".to_owned());
        let messages: Vec<ChatMessage> = vec![message];
        proof {
            assert(messages@.map_values(|m: ChatMessage| m@) =~= seq![message@]);
        }
        let call: ChatCall = self.call(messages, 0);
        call
    }

    /// The call that reads the handwriting in a PNG image.
    pub fn ocr_handwriting(&self, png_bytes: &[u8], prompt: &str) -> (r: ChatCall)
        requires
            is_encodable(png_bytes@.len()),
        ensures
            r@ == ocr_call(self.config@, png_bytes@, prompt@),
    {
        let text: String = prompt.to_owned().concat(OCR_CONTRACT);
        let message: ChatMessage = image_message("user", text, png_bytes);
        let messages: Vec<ChatMessage> = vec![message];
        proof {
            assert(messages@.map_values(|m: ChatMessage| m@) =~= seq![message@]);
        }
        let call: ChatCall = self.call(messages, 0);
        call
    }

    /// The call that answers a question about a PNG image.
    pub fn qa_with_context(
        &self,
        question: &str,
        context_png_bytes: &[u8],
        prompt: &str,
    ) -> (r: ChatCall)
        requires
            is_encodable(context_png_bytes@.len()),
        ensures
            r@ == qa_call(self.config@, question@, context_png_bytes@, prompt@),
    {
        let text: String = QUESTION_HEAD.to_owned().concat(trim(question)).concat(QUESTION_TAIL);
        let system: ChatMessage = text_message("system", prompt.to_owned());
        let user: ChatMessage = image_message("user", text, context_png_bytes);
        let messages: Vec<ChatMessage> = vec![system, user];
        proof {
            assert(messages@.map_values(|m: ChatMessage| m@) =~= seq![system@, user@]);
        }
        let call: ChatCall = self.call(messages, 3);
        call
    }
}

/// The key is sent exactly where there is one, and nowhere but in the `Authorization` header.
pub proof fn law_key_is_sent_where_there_is_one(
    config: ConfigView,
    messages: Seq<MessageView>,
    temperature_tenths: u8,
)
    ensures
        ({
            let headers = call_with(config, messages, temperature_tenths).headers;
            &&& headers[0] == ("Content-Type"@, "application/json"@)
            &&& headers.contains(("Authorization"@, "Bearer "@ + config.api_key))
                <==> config.api_key.len() > 0
            &&& config.api_key.len() == 0 ==> headers.len() == 1
            &&& config.api_key.len() > 0 ==> headers.len() == 2
        }),
{
    reveal_strlit("Content-Type");
    reveal_strlit("Authorization");
    let headers = call_headers(config.api_key);
    assert("Content-Type"@.len() != "Authorization"@.len());
    if config.api_key.len() > 0 {
        assert(headers[1] == ("Authorization"@, "Bearer "@ + config.api_key));
    }
}

/// The image that a call carries can be told from the call: different images make different
/// calls.
pub proof fn law_calls_carry_their_image(config: ConfigView, a: Seq<u8>, b: Seq<u8>)
    requires
        translate_call(config, a) == translate_call(config, b),
    ensures
        a == b,
{
    let first = translate_call(config, a).messages[0].content[1];
    let second = translate_call(config, b).messages[0].content[1];
    assert(first == PartView::ImageUrl(png_url(a)));
    assert(second == PartView::ImageUrl(png_url(b)));
    let head = "data:image/png;base64,"@;
    assert(png_url(a).skip(head.len() as int) =~= base64(a));
    assert(png_url(b).skip(head.len() as int) =~= base64(b));
    crate::encoding::law_base64_is_injective(a, b);
}

/// Whatever prompt is set, handwriting is sent with the demand for the raw text after it.
pub proof fn law_ocr_contract_cannot_be_removed(
    config: ConfigView,
    png: Seq<u8>,
    prompt: Seq<char>,
)
    ensures
        ({
            let sent = ocr_call(config, png, prompt).messages[0].content[0];
            &&& sent is Text
            &&& prompt.is_prefix_of(sent->Text_0)
            &&& OCR_CONTRACT@.is_suffix_of(sent->Text_0)
        }),
{
    let sent = ocr_call(config, png, prompt).messages[0].content[0];
    assert(sent == PartView::Text(ocr_text(prompt)));
    assert(ocr_text(prompt).subrange(0, prompt.len() as int) =~= prompt);
    assert(ocr_text(prompt).subrange(prompt.len() as int, ocr_text(prompt).len() as int)
        =~= OCR_CONTRACT@);
}

/// A translation is asked for at the configured address, of the configured model, in one message
/// of the user: the configured prompt and then the image.
pub proof fn law_translation_asks_with_prompt_and_image(config: ConfigView, png: Seq<u8>)
    ensures
        ({
            let call = translate_call(config, png);
            &&& call.url == config.base_url
            &&& call.model == config.model
            &&& call.temperature_tenths == 2
            &&& call.messages.len() == 1
            &&& call.messages[0].role == "user"@
            &&& call.messages[0].content.len() == 2
            &&& call.messages[0].content[0] == PartView::Text(config.prompt)
            &&& call.messages[0].content[1] == PartView::ImageUrl(
                "data:image/png;base64,"@ + base64(png),
            )
        }),
{
}

/// A probe is one word to the configured model, and carries no image.
pub proof fn law_probe_sends_one_word(config: ConfigView)
    ensures
        ({
            let call = probe_call(config);
            &&& call.url == config.base_url
            &&& call.model == config.model
            &&& call.temperature_tenths == 0
            &&& call.messages.len() == 1
            &&& call.messages[0].role == "user"@
            &&& call.messages[0].content.len() == 1
            &&& call.messages[0].content[0] == PartView::Text("ping"@)
        }),
{
}

/// Handwriting is sent to the configured model in one message of the user: the prompt with the
/// fixed demand and then the image.
pub proof fn law_handwriting_is_sent_with_its_image(
    config: ConfigView,
    png: Seq<u8>,
    prompt: Seq<char>,
)
    ensures
        ({
            let call = ocr_call(config, png, prompt);
            &&& call.url == config.base_url
            &&& call.model == config.model
            &&& call.temperature_tenths == 0
            &&& call.messages.len() == 1
            &&& call.messages[0].role == "user"@
            &&& call.messages[0].content.len() == 2
            &&& call.messages[0].content[0] == PartView::Text(prompt + OCR_CONTRACT@)
            &&& call.messages[0].content[1] == PartView::ImageUrl(
                "data:image/png;base64,"@ + base64(png),
            )
        }),
{
}

/// A question is sent to the configured model with the prompt as the system's message; the
/// user's message holds the question, trimmed and otherwise word for word, between two fixed
/// texts, and then the image.
pub proof fn law_question_is_sent_word_for_word(
    config: ConfigView,
    question: Seq<char>,
    png: Seq<u8>,
    prompt: Seq<char>,
)
    ensures
        ({
            let call = qa_call(config, question, png, prompt);
            &&& call.url == config.base_url
            &&& call.model == config.model
            &&& call.temperature_tenths == 3
            &&& call.messages.len() == 2
            &&& call.messages[0].role == "system"@
            &&& call.messages[0].content.len() == 1
            &&& call.messages[0].content[0] == PartView::Text(prompt)
            &&& call.messages[1].role == "user"@
            &&& call.messages[1].content.len() == 2
            &&& call.messages[1].content[0] == PartView::Text(
                QUESTION_HEAD@ + trimmed(question) + QUESTION_TAIL@,
            )
            &&& call.messages[1].content[1] == PartView::ImageUrl(
                "data:image/png;base64,"@ + base64(png),
            )
        }),
{
}

/// Every call goes with the same headers, which depend on the key alone.
pub proof fn law_headers_depend_on_the_key_alone(
    config: ConfigView,
    other: ConfigView,
    png: Seq<u8>,
    question: Seq<char>,
    prompt: Seq<char>,
)
    requires
        config.api_key == other.api_key,
    ensures
        translate_call(config, png).headers == probe_call(other).headers,
        ocr_call(config, png, prompt).headers == probe_call(other).headers,
        qa_call(config, question, png, prompt).headers == probe_call(other).headers,
        probe_call(config).headers[0] == ("Content-Type"@, "application/json"@),
        config.api_key.len() > 0 ==> probe_call(config).headers == seq![
            ("Content-Type"@, "application/json"@),
            ("Authorization"@, "Bearer "@ + config.api_key),
        ],
        config.api_key.len() == 0 ==> probe_call(config).headers == seq![
            ("Content-Type"@, "application/json"@),
        ],
{
}

/// A configuration made from the environment takes each variable that is set, and the default in
/// its place where it is not.
pub proof fn law_environment_overrides_defaults(env: EnvOverrides)
    ensures
        ({
            let c = LlmConfig::env_view(env);
            &&& env.api_base is Some ==> c.base_url == env.api_base->0@
            &&& env.api_base is None ==> c.base_url
                == "http://127.0.0.1:11434/v1/chat/completions"@
            &&& env.api_key is Some ==> c.api_key == env.api_key->0@
            &&& env.api_key is None ==> c.api_key.len() == 0
            &&& env.model is Some ==> c.model == env.model->0@
            &&& env.model is None ==> c.model == "gpt-4o-mini"@
            &&& env.prompt is Some ==> c.prompt == env.prompt->0@
            &&& env.prompt is None ==> c.prompt
                == "你是一名专业翻译。请把图片里的文字翻译成简体中文，仅输出译文本身，不要解释、不要加引号。"@
        }),
{
}

/// A call is seen with each text in its place and in its order.
pub proof fn law_calls_are_seen_as_they_are(
    config: LlmConfig,
    call: ChatCall,
    text: String,
    image_url: ImageUrl,
    i: int,
    j: int,
)
    requires
        0 <= i < call.request.messages@.len(),
        0 <= j < call.request.messages@[i].content@.len(),
    ensures
        config@.base_url == config.base_url@,
        config@.api_key == config.api_key@,
        config@.model == config.model@,
        config@.prompt == config.prompt@,
        call@.url == call.url@,
        call@.model == call.request.model@,
        call@.temperature_tenths == call.request.temperature_tenths,
        call@.headers.len() == call.headers@.len(),
        forall|k: int|
            0 <= k < call.headers@.len() ==> #[trigger] call@.headers[k] == (
                call.headers@[k].0@,
                call.headers@[k].1@,
            ),
        call@.messages.len() == call.request.messages@.len(),
        call@.messages[i].role == call.request.messages@[i].role@,
        call@.messages[i].content.len() == call.request.messages@[i].content@.len(),
        call@.messages[i].content[j] == call.request.messages@[i].content@[j]@,
        (ContentPart::Text { text })@ == PartView::Text(text@),
        (ContentPart::ImageUrl { image_url })@ == PartView::ImageUrl(image_url.url@),
{
}

/// The fixed texts of the calls.
pub proof fn law_fixed_texts()
    ensures
        OCR_CONTRACT@
            == "\n\n[OCR 契约]\n你的回答必须且只能是图中文字本身的字符序列。严禁添加以下任何内容:引号、前缀(如 \"识别结果:\")、解释、Markdown 格式、句末句号(除非原图本身有)、翻译、改写、猜测。如果图中有多个字符块,按从左到右、从上到下顺序用单个空格连接。"@,
        QUESTION_HEAD@ == "## 用户提问(来自手写 OCR):\n"@,
        QUESTION_TAIL@
            == "\n\n## 上下文:\n用户对下方截图手写了上面的提问。请基于截图内容回答这个提问。\n必须基于截图回答,不要凭空想象;如截图中无相关信息,请明确说明。"@,
        cancelled() == ErrorView::Capture("cancelled"@),
{
}

/// Without a variable set, a configuration is the defaults: a local server, no key, the small
/// model and the prompt that asks for a translation into Chinese and nothing else.
pub proof fn law_defaults_are_a_local_server()
    ensures
        ({
            let d = LlmConfig::default_view();
            &&& d.base_url == "http://127.0.0.1:11434/v1/chat/completions"@
            &&& d.api_key.len() == 0
            &&& d.model == "gpt-4o-mini"@
            &&& d.prompt
                == "你是一名专业翻译。请把图片里的文字翻译成简体中文，仅输出译文本身，不要解释、不要加引号。"@
        }),
{
}

} // verus!
