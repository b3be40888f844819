//! Cleaning up what a model read off an image.

use rs_sc::ocr::{
    clean_ocr_text, collapse_whitespace, strip_fence, strip_final_mark, strip_label, strip_quotes,
};

#[test]
fn quotation_marks_go_in_pairs() {
    assert_eq!(clean_ocr_text("\"hello\""), "hello");
    assert_eq!(clean_ocr_text("'hello'"), "hello");
    assert_eq!(clean_ocr_text("\u{201C}你好\u{201D}"), "你好");
    assert_eq!(clean_ocr_text("\"hello'"), "\"hello'");
    assert_eq!(strip_quotes("\""), "\"");
    assert_eq!(strip_quotes("\"\""), "");
}

#[test]
fn code_fences_go_with_their_language() {
    assert_eq!(clean_ocr_text("```hello```"), "hello");
    assert_eq!(clean_ocr_text("```text\nhello\n```"), "hello");
    assert_eq!(strip_fence("`````"), "`````");
    assert_eq!(strip_fence("``````"), "");
}

#[test]
fn labels_go_whatever_their_case() {
    for label in [
        "识别结果:", "识别结果：", "图中文字是:", "图中文字是：", "图中文字:", "图中文字：",
        "用户写的是:", "用户写的是：", "文字内容:", "文字内容：", "内容:", "内容：", "answer:",
        "answer：", "result:", "result：", "ocr:", "ocr：", "ANSWER:", "Ocr：",
    ] {
        assert_eq!(clean_ocr_text(&format!("{}  x y", label)), "x y", "{}", label);
    }
    assert_eq!(strip_label("ocr:ocr:x"), "ocr:x");
    assert_eq!(strip_label("x ocr:"), "x ocr:");
}

/// No character but an ASCII capital has a small form that occurs in a label, so that labels can
/// be compared by their ASCII letters.
#[test]
fn only_ascii_capitals_become_letters_of_labels() {
    for c in '\u{80}'..=char::MAX {
        let small: Vec<char> = c.to_lowercase().collect();
        if small.len() != 1 || small[0] != c {
            assert!(
                !(small[0].is_ascii_lowercase() && "answerresultocr".contains(small[0])),
                "{:?}",
                c
            );
        }
    }
}

#[test]
fn white_space_collapses() {
    assert_eq!(clean_ocr_text("  a \n\t b\u{3000}c  "), "a b c");
    assert_eq!(collapse_whitespace(" \n a"), " a");
}

#[test]
fn final_marks_go_after_plain_text() {
    assert_eq!(clean_ocr_text("hello."), "hello");
    assert_eq!(clean_ocr_text("你好。"), "你好");
    assert_eq!(clean_ocr_text("你好abc1。"), "你好abc1");
    assert_eq!(clean_ocr_text("why?"), "why");
    assert_eq!(clean_ocr_text("go!"), "go");
    assert_eq!(clean_ocr_text("."), "");
    assert_eq!(strip_final_mark("a."), "a");
    assert_eq!(strip_final_mark(""), "");
    assert_eq!(strip_final_mark("a"), "a");
}

#[test]
fn final_marks_go_after_every_cjk_script() {
    for body in ["한국", "ひらがな", "カタカナー", "ｶﾀｶﾅ", "ㄅㄆ", "\u{20BB7}野屋", "人々", "〇一", "ﾡ", "漢字かな混じり123abc"] {
        for mark in ['.', '。', '?', '!'] {
            assert_eq!(clean_ocr_text(&format!("{}{}", body, mark)), body);
        }
    }
}

/// Outside ASCII a final full stop goes exactly after the letters and digits of the Chinese,
/// Japanese and Korean blocks, and in the blocks of ideographs after every character.
#[test]
fn cjk_text_is_letters_and_digits_of_its_blocks() {
    let ideographs = |c: char| {
        ('\u{3400}'..='\u{4DBF}').contains(&c)
            || ('\u{4E00}'..='\u{9FFF}').contains(&c)
            || ('\u{F900}'..='\u{FAFF}').contains(&c)
    };
    for (from, to) in [
        ('\u{1100}', '\u{11FF}'),
        ('\u{3000}', '\u{4DBF}'),
        ('\u{4E00}', '\u{9FFF}'),
        ('\u{A960}', '\u{A97F}'),
        ('\u{AC00}', '\u{D7FF}'),
        ('\u{F900}', '\u{FAFF}'),
        ('\u{FF65}', '\u{FFDC}'),
        ('\u{1AFF0}', '\u{1B16F}'),
        ('\u{20000}', '\u{323AF}'),
    ] {
        for c in from..=to {
            let text = format!("{}.", c);
            let dropped = strip_final_mark(&text).len() < text.len();
            assert_eq!(dropped, c.is_alphanumeric() || ideographs(c), "{:?}", c);
        }
    }
    for c in ['é', 'я', 'क', 'α', '・', '、', '「', '①', 'Ａ', '😊'] {
        let text = format!("{}.", c);
        assert_eq!(strip_final_mark(&text), text);
    }
}

#[test]
fn final_marks_stay_after_anything_else() {
    for text in ["hello world.", "v1.2.", "naïve.", "a, b.", "hello .", "你 好。", "1+1=?", "go!!"] {
        assert_eq!(clean_ocr_text(text), text);
    }
}

#[test]
fn cleaned_text_is_tidy() {
    for raw in ["", "   ", "```\n```", "\" \"", "ocr:   ", "\"  识别结果: a  b。\""] {
        let clean = clean_ocr_text(raw);
        assert_eq!(clean.trim(), clean);
        assert!(!clean.contains("  "));
    }
}
