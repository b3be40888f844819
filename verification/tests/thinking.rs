//! Splitting a model response into its reasoning and its answer.

use rs_sc::thinking::{find_subseq, strip_thinking_block};

#[test]
fn plain_text_unchanged() {
    let (_t, a) = strip_thinking_block("Hello world.");
    assert_eq!(a, "Hello world.");
    assert!(_t.is_empty());
}

#[test]
fn strips_lowercase_think_block() {
    let (_t, a) = strip_thinking_block(
        "<think>The user asked a question. The image shows...</think>The answer is 42."
    );
    assert_eq!(a, "The answer is 42.");
    assert!(_t.contains("The user asked"));
}

#[test]
fn strips_uppercase_think_block() {
    let (_t, a) = strip_thinking_block(
        "<think>reasoning here</think>FINAL ANSWER"
    );
    assert_eq!(a, "FINAL ANSWER");
}

#[test]
fn strips_multiline_think_block() {
    let raw = "<think>\nLine 1 of thinking\nLine 2 of thinking\n</think>\nThe real answer\n";
    let (_t, a) = strip_thinking_block(raw);
    assert_eq!(a, "The real answer");
    assert!(_t.contains("Line 1"));
    assert!(_t.contains("Line 2"));
}

#[test]
fn drops_response_when_think_block_never_closes() {
    let (_t, a) = strip_thinking_block("<think>thinking but truncated mid-stream");
    assert_eq!(a, "");
    assert!(_t.contains("truncated"));
}

#[test]
fn multiple_think_blocks_takes_first_pair() {
    // We only strip the FIRST outermost pair. If a model restarts its
    // thinking after already producing text, we keep the leading text
    // (which is rarer than the typical case of "all thinking, then answer").
    let raw = "<think>first thinking</think>real answer<think>restart thinking never closes";
    let (_t, a) = strip_thinking_block(raw);
    assert_eq!(a, "real answer<think>restart thinking never closes");
}

#[test]
fn empty_input_returns_empty() {
    let (_t, a) = strip_thinking_block("");
    assert_eq!(a, "");
    assert_eq!(_t, "");
}

#[test]
fn case_insensitive_opening() {
    let (_t, a) = strip_thinking_block("<think>x</think>answer");
    assert_eq!(a, "answer");
    let (_t, a) = strip_thinking_block("<THINK>x</THINK>answer");
    assert_eq!(a, "answer");
}

#[test]
fn whitespace_around_think_block_is_handled() {
    let (_t, a) = strip_thinking_block("  <think>x</think>   answer   ");
    assert_eq!(a, "answer");
}

#[test]
fn realistic_deepseek_r1_response() {
    // Real-world test case — a DeepSeek-R1 style response with a long
    // thinking block followed by the actual answer.
    let raw = r#"<think>
用户发送了一张图片，但图片似乎非常模糊，无法清晰识别内容。让我仔细观察一下。

图片显示的内容非常模糊，看起来像是一张带有文字或数字的图像，但由于模糊程度太高，无法清楚地辨认具体内容。可能是某种数据表、图表或代码截图，但由于分辨率和清晰度问题，无法准确解读。

用户说"帮助我完成复习"，可能是希望我帮助他们复习某些内容，但图片质量太差，无法读取具体信息。我需要诚实地告诉用户图片太模糊了，无法识别内容，并请求他们提供更清晰的图片或文字描述。
</think>抱歉，您发送的图片非常模糊，我无法清晰地识别其中的内容。从模糊的轮廓来看，似乎包含一些表格或字符，但无法辨认具体是什么内容。

请您可以：
1. **重新上传一张更清晰的图片**（确保文字内容可以清楚辨认）
2. **用文字描述您需要复习的具体内容**
3. **拍照时注意**：
   - 保持手机/相机稳定，避免抖动
   - 确保光线充足，避免反光
   - 尽量让文字充满画面，提高分辨率
   - 如果是PPT或屏幕内容，可以直接截屏而非拍照

这样我才能更好地为您提供复习帮助！😊"#;
    let (_t, a) = strip_thinking_block(raw);
    // The thinking-only content (the model's internal monologue) must
    // NOT appear in the answer. The thinking-only lines are:
    //   "让我仔细观察一下"
    //   "可能是希望我帮助他们复习某些内容"
    //   "由于分辨率和清晰度问题，无法准确解读"
    // These appear ONLY in the thinking block, never in the answer.
    assert!(!a.contains("让我仔细观察"), "answer leaked thinking phrase");
    assert!(!a.contains("分辨率和清晰度"), "answer leaked thinking phrase");
    assert!(!a.contains("帮助他们复习"), "answer leaked thinking phrase");

    // The answer should still contain the legitimate response text
    // (which talks about 模糊 + suggestions). Words like "模糊" appear in
    // BOTH blocks — that's fine, we only check for thinking-exclusive
    // phrases.
    assert!(a.starts_with("抱歉"), "wrong answer prefix");
    assert!(a.contains("重新上传"), "answer body missing");
    assert!(a.ends_with("😊"));

    // The thinking variable DOES contain the discarded text (returned
    // for diagnostics / logging, not for forwarding to the user).
    assert!(_t.contains("仔细观察"));
    assert!(_t.contains("分辨率"));
}

#[test]
fn reasoning_is_the_block_without_its_closing_tag() {
    let (t, a) = strip_thinking_block("noise <Think> why </tHINK> because ");
    assert_eq!(t, "<Think> why");
    assert_eq!(a, "because");
}

#[test]
fn non_ascii_text_around_the_block_is_kept_whole() {
    let (t, a) = strip_thinking_block("前言<think>想</think>答案");
    assert_eq!(t, "<think>想");
    assert_eq!(a, "答案");
}

#[test]
fn closing_tag_without_opening_tag_is_text() {
    let (t, a) = strip_thinking_block("a</think>b");
    assert_eq!(t, "");
    assert_eq!(a, "a</think>b");
}

#[test]
fn tags_in_capitals_split_at_the_same_places() {
    let small = strip_thinking_block("x<think>y</think>z");
    let large = strip_thinking_block("x<THINK>y</THINK>z");
    assert_eq!(small.1, large.1);
    assert_eq!(small.0.len(), large.0.len());
}

#[test]
fn subsequences_are_found_at_their_first_place() {
    assert_eq!(find_subseq(b"abcabc", b"bc"), Some(1));
    assert_eq!(find_subseq(b"abc", b""), Some(0));
    assert_eq!(find_subseq(b"", b""), Some(0));
    assert_eq!(find_subseq(b"ab", b"abc"), None);
    assert_eq!(find_subseq(b"abc", b"abc"), Some(0));
    assert_eq!(find_subseq(b"abd", b"abc"), None);
}
