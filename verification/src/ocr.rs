//! Cleaning up the text that a model read off an image.

use crate::text::{
    all_space, ascii_lower, chars_of, is_space, is_whitespace, lower_char, trim, trim_start,
    trimmed, trimmed_end, trimmed_start,
};
use crate::thinking::tag_at;
use vstd::prelude::*;
use vstd::string::*;

verus! {

/// An ASCII letter or digit.
pub open spec fn ascii_alphanumeric(c: char) -> bool {
    '0' <= c <= '9' || 'a' <= c <= 'z' || 'A' <= c <= 'Z'
}

/// What `char::is_alphanumeric` says of a character.
pub uninterp spec fn unicode_alphanumeric(c: char) -> bool;

/// `char::is_alphanumeric`. Nothing is claimed of it but that the character determines it; it is
/// consulted only for characters of the Chinese, Japanese and Korean blocks.
pub assume_specification[ char::is_alphanumeric ](c: char) -> (r: bool)
    ensures
        r == unicode_alphanumeric(c),
;

/// The blocks of Chinese, Japanese and Korean writing: Hangul letters and syllables, kana,
/// bopomofo, ideographs and the symbols among them, in all their extensions and forms.
pub open spec fn in_cjk_block(c: char) -> bool {
    ||| '\u{1100}' <= c <= '\u{11FF}'
    ||| '\u{3001}' <= c <= '\u{4DBF}'
    ||| '\u{4E00}' <= c <= '\u{9FFF}'
    ||| '\u{A960}' <= c <= '\u{A97F}'
    ||| '\u{AC00}' <= c <= '\u{D7FF}'
    ||| '\u{F900}' <= c <= '\u{FAFF}'
    ||| '\u{FF65}' <= c <= '\u{FFDC}'
    ||| '\u{1AFF0}' <= c <= '\u{1B16F}'
    ||| '\u{20000}' <= c <= '\u{3FFFF}'
}

/// The blocks that hold ideographs and nothing else.
pub open spec fn in_ideograph_block(c: char) -> bool {
    ||| '\u{3400}' <= c <= '\u{4DBF}'
    ||| '\u{4E00}' <= c <= '\u{9FFF}'
    ||| '\u{F900}' <= c <= '\u{FAFF}'
}

/// A Chinese, Japanese or Korean letter, ideograph or digit, or an ASCII letter or digit.
pub open spec fn cjk_or_ascii(c: char) -> bool {
    ||| ascii_alphanumeric(c)
    ||| in_ideograph_block(c)
    ||| in_cjk_block(c) && unicode_alphanumeric(c)
}

/// `s` without the pair of quotation marks around it.
pub open spec fn unquoted(s: Seq<char>) -> Seq<char> {
    if s.len() >= 2 && {
        ||| s[0] == '"' && s.last() == '"'
        ||| s[0] == '\u{201C}' && s.last() == '\u{201D}'
        ||| s[0] == '\'' && s.last() == '\''
    } {
        s.subrange(1, s.len() - 1)
    } else {
        s
    }
}

/// What follows the first line break of `s`.
pub open spec fn after_line_break(s: Seq<char>) -> Option<Seq<char>>
    decreases s.len(),
{
    if s.len() == 0 {
        None
    } else if s[0] == '\n' {
        Some(s.drop_first())
    } else {
        after_line_break(s.drop_first())
    }
}

/// `s` begins and ends with three backquotes that do not overlap.
pub open spec fn is_fenced(s: Seq<char>) -> bool {
    &&& s.len() >= 6
    &&& s[0] == '`' && s[1] == '`' && s[2] == '`'
    &&& s[s.len() - 1] == '`' && s[s.len() - 2] == '`' && s[s.len() - 3] == '`'
}

/// `s` without the code fence around it, and without the rest of the opening fence's line.
pub open spec fn unfenced(s: Seq<char>) -> Seq<char> {
    if is_fenced(s) {
        let inner = s.subrange(3, s.len() - 3);
        match after_line_break(inner) {
            Some(rest) => rest,
            None => inner,
        }
    } else {
        s
    }
}

/// The labels that a model likes to put before the text, in the order in which they are tried.
pub open spec fn labels() -> Seq<Seq<char>> {
    seq![
        "识别结果:"@,
        "识别结果："@,
        "图中文字是:"@,
        "图中文字是："@,
        "图中文字:"@,
        "图中文字："@,
        "用户写的是:"@,
        "用户写的是："@,
        "文字内容:"@,
        "文字内容："@,
        "内容:"@,
        "内容："@,
        "answer:"@,
        "answer："@,
        "result:"@,
        "result："@,
        "ocr:"@,
        "ocr："@,
    ]
}

/// `s` without the first of `from` that it begins with, whatever the case of its ASCII letters,
/// and without the white space after that.
pub open spec fn unlabelled(s: Seq<char>, from: Seq<Seq<char>>) -> Seq<char>
    decreases from.len(),
{
    if from.len() == 0 {
        s
    } else if tag_at(s, from[0], 0) {
        trimmed_start(s.skip(from[0].len() as int))
    } else {
        unlabelled(s, from.drop_first())
    }
}

/// `s` with each run of white space made a single space.
pub open spec fn collapsed(s: Seq<char>) -> Seq<char>
    decreases s.len(),
{
    if s.len() == 0 {
        s
    } else if !is_space(s.last()) {
        collapsed(s.drop_last()).push(s.last())
    } else if s.len() >= 2 && is_space(s[s.len() - 2]) {
        collapsed(s.drop_last())
    } else {
        collapsed(s.drop_last()).push(' ')
    }
}

/// Every character of `s` is a Chinese, Japanese or Korean letter, ideograph or digit, or
/// an ASCII letter or digit.
pub open spec fn all_cjk_or_ascii(s: Seq<char>) -> bool {
    forall|i: int| 0 <= i < s.len() ==> cjk_or_ascii(#[trigger] s[i])
}

/// The marks that end a sentence.
pub open spec fn is_final_mark(c: char) -> bool {
    c == '.' || c == '。' || c == '?' || c == '!'
}

/// `s` without the sentence-final mark at its end, where what stands before the mark is nothing
/// but Chinese, Japanese and Korean text and ASCII letters and digits.
pub open spec fn unmarked(s: Seq<char>) -> Seq<char> {
    if s.len() > 0 && is_final_mark(s.last()) && all_cjk_or_ascii(s.drop_last()) {
        s.drop_last()
    } else {
        s
    }
}

/// `raw` without its quotation marks, code fence and label, white space collapsed and trimmed.
pub open spec fn unwrapped(raw: Seq<char>) -> Seq<char> {
    trimmed(collapsed(unlabelled(unfenced(unquoted(trimmed(raw))), labels())))
}

/// The cleaned form of a text that a model read off an image.
pub open spec fn cleaned(raw: Seq<char>) -> Seq<char> {
    unmarked(unwrapped(raw))
}

fn is_ascii_alphanumeric(c: char) -> (r: bool)
    ensures
        r == ascii_alphanumeric(c),
{
    ('0' <= c && c <= '9') || ('a' <= c && c <= 'z') || ('A' <= c && c <= 'Z')
}

fn is_in_cjk_block(c: char) -> (r: bool)
    ensures
        r == in_cjk_block(c),
{
    ('\u{1100}' <= c && c <= '\u{11FF}') || ('\u{3001}' <= c && c <= '\u{4DBF}') || ('\u{4E00}' <= c
        && c <= '\u{9FFF}') || ('\u{A960}' <= c && c <= '\u{A97F}') || ('\u{AC00}' <= c && c
        <= '\u{D7FF}') || ('\u{F900}' <= c && c <= '\u{FAFF}') || ('\u{FF65}' <= c && c
        <= '\u{FFDC}') || ('\u{1AFF0}' <= c && c <= '\u{1B16F}') || ('\u{20000}' <= c && c
        <= '\u{3FFFF}')
}

fn is_in_ideograph_block(c: char) -> (r: bool)
    ensures
        r == in_ideograph_block(c),
{
    ('\u{3400}' <= c && c <= '\u{4DBF}') || ('\u{4E00}' <= c && c <= '\u{9FFF}') || ('\u{F900}' <= c
        && c <= '\u{FAFF}')
}

fn is_cjk_or_ascii(c: char) -> (r: bool)
    ensures
        r == cjk_or_ascii(c),
{
    is_ascii_alphanumeric(c) || is_in_ideograph_block(c) || (is_in_cjk_block(c)
        && c.is_alphanumeric())
}

/// Strips the pair of quotation marks around `s`.
pub fn strip_quotes<'a>(s: &'a str) -> (r: &'a str)
    ensures
        r@ == unquoted(s@),
{
    let n: usize = s.unicode_len();
    if n < 2 {
        return s;
    }
    let first: char = s.get_char(0);
    let last: char = s.get_char(n - 1);
    if (first == '"' && last == '"') || (first == '\u{201C}' && last == '\u{201D}') || (first
        == '\'' && last == '\'') {
        s.substring_char(1, n - 1)
    } else {
        s
    }
}

proof fn lemma_after_line_break_some(s: Seq<char>, i: int)
    requires
        0 <= i < s.len(),
        s[i] == '\n',
        forall|k: int| 0 <= k < i ==> #[trigger] s[k] != '\n',
    ensures
        after_line_break(s) == Some(s.skip(i + 1)),
    decreases i,
{
    if i == 0 {
        assert(s.drop_first() =~= s.skip(1));
    } else {
        assert(s[0] != '\n');
        let t = s.drop_first();
        assert forall|k: int| 0 <= k < i - 1 implies #[trigger] t[k] != '\n' by {
            assert(t[k] == s[k + 1]);
        }
        lemma_after_line_break_some(t, i - 1);
        assert(t.skip(i) =~= s.skip(i + 1));
    }
}

proof fn lemma_after_line_break_none(s: Seq<char>)
    requires
        forall|k: int| 0 <= k < s.len() ==> #[trigger] s[k] != '\n',
    ensures
        after_line_break(s) is None,
    decreases s.len(),
{
    if s.len() > 0 {
        assert(s[0] != '\n');
        let t = s.drop_first();
        assert forall|k: int| 0 <= k < t.len() implies #[trigger] t[k] != '\n' by {
            assert(t[k] == s[k + 1]);
        }
        lemma_after_line_break_none(t);
    }
}

fn skip_line<'a>(s: &'a str) -> (r: &'a str)
    ensures
        r@ == match after_line_break(s@) {
            Some(rest) => rest,
            None => s@,
        },
{
    let chars: Vec<char> = chars_of(s);
    let n: usize = chars.len();
    let mut i: usize = 0;
    while i < n
        invariant
            i <= n,
            n == chars@.len(),
            chars@ == s@,
            forall|k: int| 0 <= k < i ==> #[trigger] s@[k] != '\n',
        decreases n - i,
    {
        if chars[i] == '\n' {
            proof {
                lemma_after_line_break_some(s@, i as int);
                assert(s@.subrange(i + 1, n as int) =~= s@.skip(i + 1));
            }
            return s.substring_char(i + 1, n);
        }
        i += 1;
    }
    proof {
        lemma_after_line_break_none(s@);
    }
    s
}

/// Strips the code fence around `s`, with the rest of the opening fence's line.
pub fn strip_fence<'a>(s: &'a str) -> (r: &'a str)
    ensures
        r@ == unfenced(s@),
{
    let chars: Vec<char> = chars_of(s);
    let n: usize = chars.len();
    if n >= 6 && chars[0] == '`' && chars[1] == '`' && chars[2] == '`' && chars[n - 1] == '`'
        && chars[n - 2] == '`' && chars[n - 3] == '`' {
        skip_line(s.substring_char(3, n - 3))
    } else {
        s
    }
}

fn begins_with(s: &Vec<char>, label: &str) -> (r: bool)
    ensures
        r == tag_at(s@, label@, 0),
{
    let want: Vec<char> = chars_of(label);
    if want.len() > s.len() {
        return false;
    }
    let mut k: usize = 0;
    while k < want.len()
        invariant
            k <= want@.len() <= s@.len(),
            want@ == label@,
            forall|j: int| 0 <= j < k ==> crate::text::ascii_lower(s@[0 + j]) == #[trigger] label@[j],
        decreases want@.len() - k,
    {
        if lower_char(s[k]) != want[k] {
            proof {
                assert(crate::text::ascii_lower(s@[0 + k]) != label@[k as int]);
            }
            return false;
        }
        k += 1;
    }
    true
}

fn label_list() -> (r: Vec<&'static str>)
    ensures
        r@.map_values(|l: &str| l@) == labels(),
{
    let r: Vec<&'static str> = vec![
        "识别结果:",
        "识别结果：",
        "图中文字是:",
        "图中文字是：",
        "图中文字:",
        "图中文字：",
        "用户写的是:",
        "用户写的是：",
        "文字内容:",
        "文字内容：",
        "内容:",
        "内容：",
        "answer:",
        "answer：",
        "result:",
        "result：",
        "ocr:",
        "ocr：",
    ];
    proof {
        assert(r@.map_values(|l: &str| l@) =~= labels());
    }
    r
}

/// Strips the label that `s` begins with.
pub fn strip_label<'a>(s: &'a str) -> (r: &'a str)
    ensures
        r@ == unlabelled(s@, labels()),
{
    let chars: Vec<char> = chars_of(s);
    let list: Vec<&'static str> = label_list();
    let ghost want = labels();
    let mut i: usize = 0;
    proof {
        assert(want.skip(0) =~= want);
    }
    while i < list.len()
        invariant
            i <= list@.len(),
            chars@ == s@,
            want == list@.map_values(|l: &str| l@),
            want == labels(),
            unlabelled(s@, labels()) == unlabelled(s@, want.skip(i as int)),
        decreases list@.len() - i,
    {
        proof {
            assert(want.skip(i as int)[0] == list@[i as int]@);
            assert(want.skip(i as int).drop_first() =~= want.skip(i + 1));
        }
        if begins_with(&chars, list[i]) {
            let k: usize = list[i].unicode_len();
            let n: usize = chars.len();
            proof {
                assert(s@.subrange(k as int, n as int) =~= s@.skip(k as int));
            }
            return trim_start(s.substring_char(k, n));
        }
        i += 1;
    }
    proof {
        assert(want.skip(i as int) =~= Seq::<Seq<char>>::empty());
    }
    s
}

/// Makes each run of white space in `s` a single space.
pub fn collapse_whitespace(s: &str) -> (r: String)
    ensures
        r@ == collapsed(s@),
{
    let chars: Vec<char> = chars_of(s);
    let mut out: String = String::new();
    let mut prev_ws: bool = false;
    let mut i: usize = 0;
    while i < chars.len()
        invariant
            i <= chars@.len(),
            chars@ == s@,
            prev_ws == (i > 0 && is_space(s@[i - 1])),
            out@ == collapsed(s@.take(i as int)),
        decreases chars@.len() - i,
    {
        let c: char = chars[i];
        proof {
            assert(s@.take(i + 1).drop_last() =~= s@.take(i as int));
            assert(s@.take(i + 1).last() == c);
        }
        if is_whitespace(c) {
            if !prev_ws {
                out.push(' ');
            }
            prev_ws = true;
        } else {
            out.push(c);
            prev_ws = false;
        }
        i += 1;
    }
    proof {
        assert(s@.take(i as int) =~= s@);
    }
    out
}

/// Whether every character of `s` is a Chinese, Japanese or Korean letter, ideograph or digit, or
/// an ASCII letter or digit.
fn is_all_cjk_or_ascii(s: &str) -> (r: bool)
    ensures
        r == all_cjk_or_ascii(s@),
{
    let chars: Vec<char> = chars_of(s);
    let mut i: usize = 0;
    while i < chars.len()
        invariant
            i <= chars@.len(),
            chars@ == s@,
            forall|k: int| 0 <= k < i ==> cjk_or_ascii(#[trigger] s@[k]),
        decreases chars@.len() - i,
    {
        if !is_cjk_or_ascii(chars[i]) {
            return false;
        }
        i += 1;
    }
    true
}

/// Strips the sentence-final mark at the end of `s`.
pub fn strip_final_mark<'a>(s: &'a str) -> (r: &'a str)
    ensures
        r@ == unmarked(s@),
{
    let n: usize = s.unicode_len();
    if n == 0 {
        return s;
    }
    let last: char = s.get_char(n - 1);
    let body: &'a str = s.substring_char(0, n - 1);
    proof {
        assert(s@.subrange(0, n - 1) =~= s@.drop_last());
    }
    if (last == '.' || last == '。' || last == '?' || last == '!') && is_all_cjk_or_ascii(
        body,
    ) {
        body
    } else {
        s
    }
}

/// Cleans up a text that a model read off an image: strips quotation marks, a code fence, a
/// label and a sentence-final mark, and collapses white space.
pub fn clean_ocr_text(raw: &str) -> (r: String)
    ensures
        r@ == cleaned(raw@),
{
    let bare: &str = strip_label(strip_fence(strip_quotes(trim(raw))));
    let joined: String = collapse_whitespace(bare);
    strip_final_mark(trim(joined.as_str())).to_owned()
}

/// The only white space in `s` is single spaces.
pub open spec fn single_spaced(s: Seq<char>) -> bool {
    &&& forall|i: int| 0 <= i < s.len() && is_space(#[trigger] s[i]) ==> s[i] == ' '
    &&& forall|i: int, j: int|
        0 <= i < s.len() && j == i + 1 && j < s.len() && #[trigger] s[i] == ' ' ==> #[trigger] s[j]
            != ' '
}

proof fn lemma_part_single_spaced(s: Seq<char>, from: int, to: int)
    requires
        single_spaced(s),
        0 <= from <= to <= s.len(),
    ensures
        single_spaced(s.subrange(from, to)),
{
    let t = s.subrange(from, to);
    assert forall|i: int| 0 <= i < t.len() && is_space(#[trigger] t[i]) implies t[i] == ' ' by {
        assert(t[i] == s[from + i]);
    }
    assert forall|i: int, j: int|
        0 <= i < t.len() && j == i + 1 && j < t.len() && #[trigger] t[i] == ' ' implies #[trigger] t[j]
        != ' ' by {
        assert(t[i] == s[from + i]);
        assert(t[j] == s[from + j]);
    }
}

proof fn lemma_collapsed_last(s: Seq<char>)
    requires
        s.len() > 0,
    ensures
        collapsed(s).len() > 0,
        is_space(collapsed(s).last()) == is_space(s.last()),
    decreases s.len(),
{
    if is_space(s.last()) && s.len() >= 2 && is_space(s[s.len() - 2]) {
        lemma_collapsed_last(s.drop_last());
    }
}

/// Collapsing leaves no white space but single spaces.
pub proof fn law_collapsed_text_is_single_spaced(s: Seq<char>)
    ensures
        single_spaced(collapsed(s)),
    decreases s.len(),
{
    if s.len() > 0 {
        law_collapsed_text_is_single_spaced(s.drop_last());
        if s.len() >= 2 {
            lemma_collapsed_last(s.drop_last());
        }
    }
}

/// Collapsing keeps everything but white space, in its order.
pub proof fn law_collapsing_keeps_the_words(s: Seq<char>)
    ensures
        collapsed(s).filter(|c: char| !is_space(c)) == s.filter(|c: char| !is_space(c)),
    decreases s.len(),
{
    let word = |c: char| !is_space(c);
    reveal(Seq::filter);
    if s.len() > 0 {
        law_collapsing_keeps_the_words(s.drop_last());
        let before = collapsed(s.drop_last());
        assert(before.push(s.last()).drop_last() =~= before);
        assert(before.push(' ').drop_last() =~= before);
        assert(before.push(s.last()).filter(word) == if word(s.last()) {
            before.filter(word).push(s.last())
        } else {
            before.filter(word)
        });
        assert(before.push(' ').filter(word) == before.filter(word));
    }
}

proof fn lemma_nothing_has_no_label(from: Seq<Seq<char>>)
    ensures
        unlabelled(Seq::empty(), from) == Seq::<char>::empty(),
    decreases from.len(),
{
    let e = Seq::<char>::empty();
    if from.len() > 0 {
        if tag_at(e, from[0], 0) {
            assert(e.skip(from[0].len() as int) =~= e);
        } else {
            lemma_nothing_has_no_label(from.drop_first());
        }
    }
}

/// Nothing, cleaned, is nothing.
pub proof fn lemma_nothing_is_cleaned_to_nothing()
    ensures
        cleaned(Seq::empty()).len() == 0,
{
    let e = Seq::<char>::empty();
    assert(trimmed(e) == e);
    assert(unquoted(e) == e);
    assert(unfenced(e) == e);
    lemma_nothing_has_no_label(labels());
    assert(collapsed(e).len() == 0);
}

/// A cleaned text has no white space at its ends, and none but single spaces inside.
pub proof fn law_cleaned_text_is_tidy(raw: Seq<char>)
    ensures
        trimmed(cleaned(raw)) == cleaned(raw),
        single_spaced(cleaned(raw)),
{
    let bare = unlabelled(unfenced(unquoted(trimmed(raw))), labels());
    let joined = collapsed(bare);
    law_collapsed_text_is_single_spaced(bare);
    let head = trimmed_start(joined);
    crate::text::lemma_trimmed_start_edge(joined);
    let a = joined.len() - head.len();
    assert(joined.skip(a) =~= joined.subrange(a, joined.len() as int));
    lemma_part_single_spaced(joined, a, joined.len() as int);
    let text = trimmed_end(head);
    crate::text::lemma_trimmed_end_edge(head);
    assert(head.take(text.len() as int) =~= head.subrange(0, text.len() as int));
    lemma_part_single_spaced(head, 0, text.len() as int);
    assert(text == unwrapped(raw));
    let out = cleaned(raw);
    if text.len() > 0 {
        assert(text[0] == head[0]);
        let body = text.drop_last();
        assert(body =~= text.subrange(0, text.len() - 1));
        lemma_part_single_spaced(text, 0, text.len() - 1);
        if out == body {
            if out.len() > 0 {
                assert(out[0] == text[0]);
                assert(cjk_or_ascii(body[body.len() - 1]));
            }
        }
    }
    crate::text::lemma_trimmed_fixed(out);
}

/// The two marks that a quotation begins and ends with.
pub open spec fn is_quote_pair(a: char, b: char) -> bool {
    ||| a == '"' && b == '"'
    ||| a == '\'' && b == '\''
    ||| a == '\u{201C}' && b == '\u{201D}'
}

/// A text in quotation marks that belong together loses the two marks and nothing else; any other
/// text is left as it is.
pub proof fn law_quotes_go_in_pairs(a: char, t: Seq<char>, b: char)
    ensures
        is_quote_pair(a, b) ==> unquoted(seq![a] + t + seq![b]) == t,
        !is_quote_pair(a, b) ==> unquoted(seq![a] + t + seq![b]) == seq![a] + t + seq![b],
        unquoted(seq![a]) == seq![a],
        unquoted(Seq::<char>::empty()).len() == 0,
{
    let s = seq![a] + t + seq![b];
    assert(s.subrange(1, s.len() - 1) =~= t);
}

/// Three backquotes.
pub open spec fn fence() -> Seq<char> {
    seq!['`', '`', '`']
}

/// A text in a code fence loses the fence: on one line all that stands between the backquotes is
/// kept, and on several all that follows the first line break.
pub proof fn law_fences_go_with_their_first_line(tag: Seq<char>, t: Seq<char>)
    requires
        forall|i: int| 0 <= i < tag.len() ==> #[trigger] tag[i] != '\n',
    ensures
        unfenced(fence() + tag + fence()) == tag,
        unfenced(fence() + (tag + seq!['\n'] + t) + fence()) == t,
{
    let one = fence() + tag + fence();
    assert(one.subrange(3, one.len() - 3) =~= tag);
    lemma_after_line_break_none(tag);
    let inner = tag + seq!['\n'] + t;
    let many = fence() + inner + fence();
    assert(many.subrange(3, many.len() - 3) =~= inner);
    assert(inner[tag.len() as int] == '\n');
    assert forall|i: int| 0 <= i < tag.len() implies #[trigger] inner[i] != '\n' by {
        assert(inner[i] == tag[i]);
    }
    lemma_after_line_break_some(inner, tag.len() as int);
    assert(inner.skip(tag.len() as int + 1) =~= t);
}

/// A text that does not both begin and end with three backquotes, of its own each, is left as it
/// is.
pub proof fn law_text_without_a_fence_is_kept(s: Seq<char>)
    requires
        s.len() < 6 || s.take(3) != fence() || s.skip(s.len() - 3) != fence(),
    ensures
        unfenced(s) == s,
{
    if s.len() >= 6 {
        let n = s.len() as int;
        if is_fenced(s) {
            assert(s.take(3) =~= fence());
            assert(s.skip(n - 3)[0] == s[n - 3] && s.skip(n - 3)[1] == s[n - 2] && s.skip(
                n - 3,
            )[2] == s[n - 1]);
            assert(s.skip(n - 3) =~= fence());
        }
    }
}

proof fn lemma_unlabelled_at(s: Seq<char>, from: Seq<Seq<char>>, i: int)
    requires
        0 <= i < from.len(),
        tag_at(s, from[i], 0),
        forall|j: int| 0 <= j < i ==> !tag_at(s, #[trigger] from[j], 0),
    ensures
        unlabelled(s, from) == trimmed_start(s.skip(from[i].len() as int)),
    decreases from.len(),
{
    if i > 0 {
        assert(!tag_at(s, from[0], 0));
        let rest = from.drop_first();
        assert(rest[i - 1] == from[i]);
        assert forall|j: int| 0 <= j < i - 1 implies !tag_at(s, #[trigger] rest[j], 0) by {
            assert(rest[j] == from[j + 1]);
        }
        lemma_unlabelled_at(s, rest, i - 1);
    }
}

proof fn lemma_unlabelled_none(s: Seq<char>, from: Seq<Seq<char>>)
    requires
        forall|j: int| 0 <= j < from.len() ==> !tag_at(s, #[trigger] from[j], 0),
    ensures
        unlabelled(s, from) == s,
    decreases from.len(),
{
    if from.len() > 0 {
        assert(!tag_at(s, from[0], 0));
        let rest = from.drop_first();
        assert forall|j: int| 0 <= j < rest.len() implies !tag_at(s, #[trigger] rest[j], 0) by {
            assert(rest[j] == from[j + 1]);
        }
        lemma_unlabelled_none(s, rest);
    }
}

/// A text that begins with a label, whatever the case of its letters, loses the label and the
/// white space after it, and nothing else, once; a text without a label is left as it is.
pub proof fn law_labels_go_once(s: Seq<char>, i: int)
    requires
        0 <= i < labels().len(),
    ensures
        labels().len() == 18,
        tag_at(s, labels()[i], 0) && (forall|j: int|
            0 <= j < i ==> !tag_at(s, #[trigger] labels()[j], 0)) ==> unlabelled(s, labels())
            == trimmed_start(s.skip(labels()[i].len() as int)),
        (forall|j: int| 0 <= j < 18 ==> !tag_at(s, #[trigger] labels()[j], 0)) ==> unlabelled(
            s,
            labels(),
        ) == s,
{
    if tag_at(s, labels()[i], 0) && (forall|j: int|
        0 <= j < i ==> !tag_at(s, #[trigger] labels()[j], 0)) {
        lemma_unlabelled_at(s, labels(), i);
    }
    if forall|j: int| 0 <= j < 18 ==> !tag_at(s, #[trigger] labels()[j], 0) {
        lemma_unlabelled_none(s, labels());
    }
}

/// The labels, by name: each of the nine words with either colon is one.
pub proof fn law_every_label_is_known()
    ensures
        labels().contains("识别结果:"@) && labels().contains("识别结果："@),
        labels().contains("图中文字是:"@) && labels().contains("图中文字是："@),
        labels().contains("图中文字:"@) && labels().contains("图中文字："@),
        labels().contains("用户写的是:"@) && labels().contains("用户写的是："@),
        labels().contains("文字内容:"@) && labels().contains("文字内容："@),
        labels().contains("内容:"@) && labels().contains("内容："@),
        labels().contains("answer:"@) && labels().contains("answer："@),
        labels().contains("result:"@) && labels().contains("result："@),
        labels().contains("ocr:"@) && labels().contains("ocr："@),
{
    assert(labels()[0] == "识别结果:"@ && labels()[1] == "识别结果："@);
    assert(labels()[2] == "图中文字是:"@ && labels()[3] == "图中文字是："@);
    assert(labels()[4] == "图中文字:"@ && labels()[5] == "图中文字："@);
    assert(labels()[6] == "用户写的是:"@ && labels()[7] == "用户写的是："@);
    assert(labels()[8] == "文字内容:"@ && labels()[9] == "文字内容："@);
    assert(labels()[10] == "内容:"@ && labels()[11] == "内容："@);
    assert(labels()[12] == "answer:"@ && labels()[13] == "answer："@);
    assert(labels()[14] == "result:"@ && labels()[15] == "result："@);
    assert(labels()[16] == "ocr:"@ && labels()[17] == "ocr："@);
}

/// A text whose only white space is single spaces is not changed by collapsing.
pub proof fn law_tidy_text_is_not_collapsed(s: Seq<char>)
    requires
        single_spaced(s),
    ensures
        collapsed(s) == s,
    decreases s.len(),
{
    if s.len() > 0 {
        assert(s.drop_last() =~= s.subrange(0, s.len() - 1));
        lemma_part_single_spaced(s, 0, s.len() - 1);
        law_tidy_text_is_not_collapsed(s.drop_last());
        assert(s.drop_last().push(s.last()) =~= s);
        if is_space(s.last()) && s.len() >= 2 {
            assert(s[s.len() - 2] != ' ');
        }
    }
}

/// A run of white space between two texts becomes one space, and the texts are collapsed each by
/// itself.
pub proof fn law_runs_become_one_space(a: Seq<char>, run: Seq<char>, b: Seq<char>)
    requires
        a.len() == 0 || !is_space(a.last()),
        run.len() > 0,
        all_space(run),
        b.len() == 0 || !is_space(b[0]),
    ensures
        collapsed(a + run + b) == collapsed(a) + seq![' '] + collapsed(b),
    decreases run.len() + b.len(),
{
    let s = a + run + b;
    if b.len() > 0 {
        let b0 = b.drop_last();
        assert(s.drop_last() =~= a + run + b0);
        assert(b0.len() > 0 ==> b0[0] == b[0]);
        law_runs_become_one_space(a, run, b0);
        if is_space(b.last()) {
            assert(b.len() >= 2);
            assert(s[s.len() - 2] == b[b.len() - 2]);
        }
        assert(collapsed(s) =~= collapsed(a) + seq![' '] + collapsed(b));
    } else if run.len() > 1 {
        let r0 = run.drop_last();
        assert(s.drop_last() =~= a + r0 + b);
        assert(s[s.len() - 2] == run[run.len() - 2]);
        assert(s.last() == run.last());
        law_runs_become_one_space(a, r0, b);
    } else {
        assert(s =~= a.push(run[0]));
        assert(s.drop_last() =~= a);
        if s.len() >= 2 {
            assert(s[s.len() - 2] == a.last());
        }
        assert(collapsed(s) =~= collapsed(a) + seq![' '] + collapsed(b));
    }
}

/// One mark at the end of a sentence goes, after text that is nothing but Chinese, Japanese or
/// Korean letters and ASCII letters and digits; every other last character stays, and so does a
/// mark after any other text.
pub proof fn law_final_mark_goes_after_plain_text(t: Seq<char>, mark: char)
    ensures
        ({
            let plain = forall|i: int| 0 <= i < t.len() ==> cjk_or_ascii(#[trigger] t[i]);
            let is_mark = mark == '.' || mark == '。' || mark == '?' || mark == '!';
            &&& plain && is_mark ==> unmarked(t.push(mark)) == t
            &&& !plain || !is_mark ==> unmarked(t.push(mark)) == t.push(mark)
            &&& unmarked(Seq::<char>::empty()).len() == 0
        }),
{
    assert(t.push(mark).drop_last() =~= t);
}

/// Of the ASCII characters the letters and digits are plain, and of the other characters only
/// those of the Chinese, Japanese and Korean blocks can be: Latin, Greek, Cyrillic and the like,
/// and white space, are not.
pub proof fn law_plain_characters(c: char)
    ensures
        (c as u32) < 0x80 ==> (cjk_or_ascii(c) <==> '0' <= c <= '9' || 'a' <= c <= 'z' || 'A' <= c
            <= 'Z'),
        0x80 <= c as u32 && (c as u32) < 0x1100 ==> !cjk_or_ascii(c),
        '\u{4E00}' <= c <= '\u{9FFF}' ==> cjk_or_ascii(c),
        '\u{3400}' <= c <= '\u{4DBF}' ==> cjk_or_ascii(c),
        '\u{F900}' <= c <= '\u{FAFF}' ==> cjk_or_ascii(c),
        '\u{AC00}' <= c <= '\u{D7A3}' || '\u{3041}' <= c <= '\u{30FF}' || '\u{20000}' <= c
            <= '\u{3FFFF}' ==> (cjk_or_ascii(c) <==> unicode_alphanumeric(c)),
        is_space(c) ==> !cjk_or_ascii(c),
{
}

/// A text that wears none of what cleaning takes off at its edges: it is not blank at its ends,
/// not in quotation marks, not in a fence, and begins with no label.
pub open spec fn is_bare(t: Seq<char>) -> bool {
    &&& t.len() > 0
    &&& !is_space(t[0]) && !is_space(t.last())
    &&& t.len() == 1 || !is_quote_pair(t[0], t.last())
    &&& t.len() < 6 || t.take(3) != fence() || t.skip(t.len() - 3) != fence()
    &&& forall|j: int| 0 <= j < 18 ==> !tag_at(t, #[trigger] labels()[j], 0)
}

proof fn lemma_collapsed_first(s: Seq<char>)
    requires
        s.len() > 0,
        !is_space(s[0]),
    ensures
        collapsed(s).len() > 0,
        collapsed(s)[0] == s[0],
    decreases s.len(),
{
    if s.len() > 1 {
        lemma_collapsed_first(s.drop_last());
        assert(s.drop_last()[0] == s[0]);
    } else {
        assert(s.drop_last() =~= Seq::<char>::empty());
        assert(collapsed(s.drop_last()) =~= Seq::<char>::empty());
        assert(collapsed(s) =~= s);
    }
}

proof fn lemma_bare(t: Seq<char>)
    requires
        is_bare(t),
    ensures
        unquoted(t) == t,
        unfenced(t) == t,
        unlabelled(t, labels()) == t,
        trimmed(collapsed(t)) == collapsed(t),
{
    law_text_without_a_fence_is_kept(t);
    law_labels_go_once(t, 0);
    lemma_collapsed_first(t);
    lemma_collapsed_last(t);
    crate::text::lemma_trimmed_fixed(collapsed(t));
}

/// Cleaning takes the white space around a text that wears nothing off, collapses the white space
/// inside it, drops a final mark, and does nothing else to it.
pub proof fn law_cleaning_tidies_a_bare_text(pre: Seq<char>, t: Seq<char>, post: Seq<char>)
    requires
        all_space(pre),
        all_space(post),
        is_bare(t),
    ensures
        cleaned(pre + t + post) == unmarked(collapsed(t)),
{
    crate::text::law_trimming_undoes_padding(pre, t, post);
    lemma_bare(t);
}

/// Cleaning leaves a tidy text that wears nothing as it is, but for a final mark.
pub proof fn law_cleaning_keeps_a_tidy_text(t: Seq<char>)
    requires
        is_bare(t),
        single_spaced(t),
    ensures
        cleaned(t) == unmarked(t),
{
    crate::text::lemma_trimmed_fixed(t);
    lemma_bare(t);
    law_tidy_text_is_not_collapsed(t);
}

/// Cleaning takes quotation marks off a text that wears nothing else.
pub proof fn law_cleaning_takes_off_quotes(a: char, t: Seq<char>, b: char)
    requires
        is_quote_pair(a, b),
        is_bare(t),
    ensures
        cleaned(seq![a] + t + seq![b]) == unmarked(collapsed(t)),
{
    let s = seq![a] + t + seq![b];
    assert(!is_space(s[0]) && !is_space(s.last()));
    crate::text::lemma_trimmed_fixed(s);
    law_quotes_go_in_pairs(a, t, b);
    lemma_bare(t);
}

/// Cleaning takes a code fence, with the rest of its first line where it has more than one, off a
/// text that wears nothing else.
pub proof fn law_cleaning_takes_off_a_fence(tag: Seq<char>, t: Seq<char>)
    requires
        forall|i: int| 0 <= i < tag.len() ==> #[trigger] tag[i] != '\n',
        is_bare(t),
    ensures
        cleaned(fence() + (tag + seq!['\n'] + t) + fence()) == unmarked(collapsed(t)),
        (forall|i: int| 0 <= i < t.len() ==> #[trigger] t[i] != '\n') ==> cleaned(
            fence() + t + fence(),
        ) == unmarked(collapsed(t)),
{
    let many = fence() + (tag + seq!['\n'] + t) + fence();
    let one = fence() + t + fence();
    assert(many[0] == '`' && many.last() == '`' && one[0] == '`' && one.last() == '`');
    crate::text::lemma_trimmed_fixed(many);
    crate::text::lemma_trimmed_fixed(one);
    law_fences_go_with_their_first_line(tag, t);
    lemma_bare(t);
    if forall|i: int| 0 <= i < t.len() ==> #[trigger] t[i] != '\n' {
        law_fences_go_with_their_first_line(t, t);
    }
}

proof fn lemma_label_off(label: Seq<char>, i: int, gap: Seq<char>, t: Seq<char>)
    requires
        0 <= i < 18,
        tag_at(label + gap + t, labels()[i], 0),
        forall|j: int| 0 <= j < i ==> !tag_at(label + gap + t, #[trigger] labels()[j], 0),
        label.len() == labels()[i].len(),
        all_space(gap),
        is_bare(t),
    ensures
        unlabelled(label + gap + t, labels()) == t,
{
    let said = label + gap + t;
    law_labels_go_once(said, i);
    assert(said.skip(label.len() as int) =~= gap + t);
    crate::text::law_trimming_undoes_padding(gap, t, Seq::empty());
    assert(gap + t + Seq::<char>::empty() =~= gap + t);
    assert(t + Seq::<char>::empty() =~= t);
}

/// Cleaning takes a label, and the gap after it, off a text that wears nothing else.
pub proof fn law_cleaning_takes_off_a_label(
    label: Seq<char>,
    i: int,
    gap: Seq<char>,
    t: Seq<char>,
)
    requires
        0 <= i < 18,
        tag_at(label + gap + t, labels()[i], 0),
        forall|j: int| 0 <= j < i ==> !tag_at(label + gap + t, #[trigger] labels()[j], 0),
        label.len() == labels()[i].len() > 0,
        !is_space(label[0]) && !is_quote_pair(label[0], t.last()) && label[0] != '`',
        all_space(gap),
        is_bare(t),
    ensures
        cleaned(label + gap + t) == unmarked(collapsed(t)),
{
    let s = label + gap + t;
    assert(s[0] == label[0]);
    assert(s.last() == t.last());
    crate::text::lemma_trimmed_fixed(s);
    assert(unquoted(s) == s);
    assert(unfenced(s) == s);
    lemma_label_off(label, i, gap, t);
    lemma_bare(t);
}

proof fn lemma_fenced_label_off(label: Seq<char>, i: int, gap: Seq<char>, t: Seq<char>)
    requires
        all_space(gap),
        0 <= i < 18,
        tag_at(label + gap + t, labels()[i], 0),
        forall|j: int| 0 <= j < i ==> !tag_at(label + gap + t, #[trigger] labels()[j], 0),
        label.len() == labels()[i].len(),
        forall|k: int|
            0 <= k < (label + gap + t).len() ==> (#[trigger] (label + gap + t)[k]) != '\n',
        is_bare(t),
    ensures
        trimmed(
            collapsed(unlabelled(unfenced(fence() + (label + gap + t) + fence()), labels())),
        ) == collapsed(t),
{
    law_fences_go_with_their_first_line(label + gap + t, t);
    lemma_label_off(label, i, gap, t);
    lemma_bare(t);
}

/// Cleaning takes everything off in one go where a text wears it all, quotation marks outside a
/// fence outside a label: what is left is the text, collapsed and without a final mark.
pub proof fn law_cleaning_takes_everything_off(
    pre: Seq<char>,
    a: char,
    label: Seq<char>,
    i: int,
    gap: Seq<char>,
    t: Seq<char>,
    b: char,
    post: Seq<char>,
)
    requires
        all_space(pre),
        all_space(post),
        all_space(gap),
        is_quote_pair(a, b),
        0 <= i < 18,
        tag_at(label + gap + t, labels()[i], 0),
        forall|j: int| 0 <= j < i ==> !tag_at(label + gap + t, #[trigger] labels()[j], 0),
        label.len() == labels()[i].len(),
        forall|k: int|
            0 <= k < (label + gap + t).len() ==> (#[trigger] (label + gap + t)[k]) != '\n',
        is_bare(t),
    ensures
        cleaned(pre + (seq![a] + (fence() + (label + gap + t) + fence()) + seq![b]) + post)
            == unmarked(collapsed(t)),
{
    let fenced = fence() + (label + gap + t) + fence();
    let quoted = seq![a] + fenced + seq![b];
    assert(quoted[0] == a && quoted.last() == b);
    crate::text::law_trimming_undoes_padding(pre, quoted, post);
    law_quotes_go_in_pairs(a, fenced, b);
    lemma_fenced_label_off(label, i, gap, t);
}

proof fn lemma_label_chars()
    ensures
        labels()[0] == seq!['识', '别', '结', '果', ':'],
        labels()[1] == seq!['识', '别', '结', '果', '：'],
        labels()[2] == seq!['图', '中', '文', '字', '是', ':'],
        labels()[3] == seq!['图', '中', '文', '字', '是', '：'],
        labels()[4] == seq!['图', '中', '文', '字', ':'],
        labels()[5] == seq!['图', '中', '文', '字', '：'],
        labels()[6] == seq!['用', '户', '写', '的', '是', ':'],
        labels()[7] == seq!['用', '户', '写', '的', '是', '：'],
        labels()[8] == seq!['文', '字', '内', '容', ':'],
        labels()[9] == seq!['文', '字', '内', '容', '：'],
        labels()[10] == seq!['内', '容', ':'],
        labels()[11] == seq!['内', '容', '：'],
        labels()[12] == seq!['a', 'n', 's', 'w', 'e', 'r', ':'],
        labels()[13] == seq!['a', 'n', 's', 'w', 'e', 'r', '：'],
        labels()[14] == seq!['r', 'e', 's', 'u', 'l', 't', ':'],
        labels()[15] == seq!['r', 'e', 's', 'u', 'l', 't', '：'],
        labels()[16] == seq!['o', 'c', 'r', ':'],
        labels()[17] == seq!['o', 'c', 'r', '：'],
{
    reveal_strlit("识别结果:");
    assert(labels()[0] =~= seq!['识', '别', '结', '果', ':']);
    reveal_strlit("识别结果：");
    assert(labels()[1] =~= seq!['识', '别', '结', '果', '：']);
    reveal_strlit("图中文字是:");
    assert(labels()[2] =~= seq!['图', '中', '文', '字', '是', ':']);
    reveal_strlit("图中文字是：");
    assert(labels()[3] =~= seq!['图', '中', '文', '字', '是', '：']);
    reveal_strlit("图中文字:");
    assert(labels()[4] =~= seq!['图', '中', '文', '字', ':']);
    reveal_strlit("图中文字：");
    assert(labels()[5] =~= seq!['图', '中', '文', '字', '：']);
    reveal_strlit("用户写的是:");
    assert(labels()[6] =~= seq!['用', '户', '写', '的', '是', ':']);
    reveal_strlit("用户写的是：");
    assert(labels()[7] =~= seq!['用', '户', '写', '的', '是', '：']);
    reveal_strlit("文字内容:");
    assert(labels()[8] =~= seq!['文', '字', '内', '容', ':']);
    reveal_strlit("文字内容：");
    assert(labels()[9] =~= seq!['文', '字', '内', '容', '：']);
    reveal_strlit("内容:");
    assert(labels()[10] =~= seq!['内', '容', ':']);
    reveal_strlit("内容：");
    assert(labels()[11] =~= seq!['内', '容', '：']);
    reveal_strlit("answer:");
    assert(labels()[12] =~= seq!['a', 'n', 's', 'w', 'e', 'r', ':']);
    reveal_strlit("answer：");
    assert(labels()[13] =~= seq!['a', 'n', 's', 'w', 'e', 'r', '：']);
    reveal_strlit("result:");
    assert(labels()[14] =~= seq!['r', 'e', 's', 'u', 'l', 't', ':']);
    reveal_strlit("result：");
    assert(labels()[15] =~= seq!['r', 'e', 's', 'u', 'l', 't', '：']);
    reveal_strlit("ocr:");
    assert(labels()[16] =~= seq!['o', 'c', 'r', ':']);
    reveal_strlit("ocr：");
    assert(labels()[17] =~= seq!['o', 'c', 'r', '：']);
}

/// The label that stands at the start of a text, told by the first character and, among labels
/// that begin alike, by a later one.
proof fn lemma_one_label_at_most(s: Seq<char>, i: int, j: int)
    requires
        0 <= i < 18,
        0 <= j < 18,
        tag_at(s, labels()[i], 0),
        tag_at(s, labels()[j], 0),
    ensures
        i == j,
{
    lemma_label_chars();
    let a = labels()[i];
    let b = labels()[j];
    assert(ascii_lower(s[0]) == a[0] && ascii_lower(s[0]) == b[0]);
    assert(ascii_lower(s[2]) == a[2] && ascii_lower(s[2]) == b[2]);
    if a.len() > 3 && b.len() > 3 {
        assert(ascii_lower(s[3]) == a[3] && ascii_lower(s[3]) == b[3]);
    }
    if a.len() > 4 && b.len() > 4 {
        assert(ascii_lower(s[4]) == a[4] && ascii_lower(s[4]) == b[4]);
    }
    if a.len() > 5 && b.len() > 5 {
        assert(ascii_lower(s[5]) == a[5] && ascii_lower(s[5]) == b[5]);
    }
    if a.len() > 6 && b.len() > 6 {
        assert(ascii_lower(s[6]) == a[6] && ascii_lower(s[6]) == b[6]);
    }
}

/// A text that begins with a label, whatever the case of its letters, loses exactly that label and
/// the white space after it.
pub proof fn law_label_at_the_start_goes(s: Seq<char>, i: int)
    requires
        0 <= i < 18,
        tag_at(s, labels()[i], 0),
    ensures
        unlabelled(s, labels()) == trimmed_start(s.skip(labels()[i].len() as int)),
        forall|j: int| 0 <= j < 18 && j != i ==> !tag_at(s, #[trigger] labels()[j], 0),
{
    assert forall|j: int| 0 <= j < 18 && j != i implies !tag_at(s, #[trigger] labels()[j], 0) by {
        if tag_at(s, labels()[j], 0) {
            lemma_one_label_at_most(s, i, j);
        }
    }
    law_labels_go_once(s, i);
}

/// Which characters count as plain before a final mark, by number: the ASCII letters and digits,
/// every character of the three blocks of ideographs, and of the other Chinese, Japanese and
/// Korean blocks those that are letters or digits.
pub proof fn law_plain_characters_by_number(c: char)
    ensures
        cjk_or_ascii(c) <==> {
            let n = c as u32;
            ||| 0x30 <= n <= 0x39 || 0x41 <= n <= 0x5A || 0x61 <= n <= 0x7A
            ||| 0x3400 <= n <= 0x4DBF || 0x4E00 <= n <= 0x9FFF || 0xF900 <= n <= 0xFAFF
            ||| unicode_alphanumeric(c) && {
                ||| 0x1100 <= n <= 0x11FF || 0x3001 <= n <= 0x33FF || 0xA960 <= n <= 0xA97F
                ||| 0xAC00 <= n <= 0xD7FF || 0xFF65 <= n <= 0xFFDC || 0x1AFF0 <= n <= 0x1B16F
                ||| 0x20000 <= n <= 0x3FFFF
            }
        },
{
}

/// Cleaning takes each thing off once and in this order: white space around the text, quotation
/// marks, a code fence, a label, runs of white space and the white space around what is left, and
/// a final mark. What one step uncovers for an earlier one stays.
pub proof fn law_cleaning_takes_its_steps_in_order(raw: Seq<char>)
    ensures
        ({
            let bare = unquoted(trimmed(raw));
            let inner = unfenced(bare);
            let text = unlabelled(inner, labels());
            cleaned(raw) == unmarked(trimmed(collapsed(text)))
        }),
{
}

/// White space around a text makes no difference to what cleaning makes of it.
pub proof fn law_cleaning_ignores_white_space_around(pre: Seq<char>, t: Seq<char>, post: Seq<char>)
    requires
        all_space(pre),
        all_space(post),
        t.len() > 0 ==> !is_space(t[0]) && !is_space(t.last()),
    ensures
        cleaned(pre + t + post) == cleaned(t),
{
    crate::text::law_trimming_undoes_padding(pre, t, post);
    crate::text::lemma_trimmed_fixed(t);
}

} // verus!
