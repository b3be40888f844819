//! Separating a model's reasoning from its answer.
//!
//! Reasoning models write their chain of thought between a `<think>` and a `</think>` tag before
//! the answer proper. Tags are found without regard to ASCII case.

use crate::text::{
    ascii_lower, chars_of, is_space, lower_char, lowered, trim, trimmed, trimmed_end,
    trimmed_start,
};
use vstd::prelude::*;
use vstd::slice::*;
use vstd::string::*;

verus! {

/// `needle` stands in `haystack` at index `i`.
pub open spec fn occurs_at(haystack: Seq<u8>, needle: Seq<u8>, i: int) -> bool {
    0 <= i && i + needle.len() <= haystack.len() && haystack.subrange(i, i + needle.len())
        == needle
}

fn matches_at(haystack: &[u8], needle: &[u8], i: usize) -> (r: bool)
    requires
        i + needle@.len() <= haystack@.len(),
    ensures
        r == occurs_at(haystack@, needle@, i as int),
{
    let n: usize = needle.len();
    let mut k: usize = 0;
    assert(i + n <= haystack.len());
    while k < n
        invariant
            k <= n,
            n == needle@.len(),
            i + n <= haystack@.len(),
            i + n <= usize::MAX,
            forall|j: int| 0 <= j < k ==> haystack@[i + j] == #[trigger] needle@[j],
        decreases n - k,
    {
        if haystack[i + k] != needle[k] {
            proof {
                assert(haystack@.subrange(i as int, i + n)[k as int] != needle@[k as int]);
            }
            return false;
        }
        k += 1;
    }
    proof {
        assert(haystack@.subrange(i as int, i + n) =~= needle@);
    }
    true
}

/// The index at which `needle` first stands in `haystack`.
pub fn find_subseq(haystack: &[u8], needle: &[u8]) -> (r: Option<usize>)
    ensures
        match r {
            Some(i) => occurs_at(haystack@, needle@, i as int) && forall|j: int|
                0 <= j < i ==> !#[trigger] occurs_at(haystack@, needle@, j),
            None => forall|j: int| !#[trigger] occurs_at(haystack@, needle@, j),
        },
{
    let h: usize = haystack.len();
    let n: usize = needle.len();
    if h < n {
        return None;
    }
    let mut i: usize = 0;
    while i <= h - n
        invariant
            n <= h,
            h == haystack@.len(),
            n == needle@.len(),
            i <= h - n + 1,
            forall|j: int| 0 <= j < i ==> !#[trigger] occurs_at(haystack@, needle@, j),
        decreases h - n + 1 - i,
    {
        if matches_at(haystack, needle, i) {
            return Some(i);
        }
        if i == h - n {
            proof {
                assert forall|j: int| !#[trigger] occurs_at(haystack@, needle@, j) by {
                    if 0 <= j <= i {
                    } else {
                        assert(j < 0 || j + n > h);
                    }
                }
            }
            return None;
        }
        i += 1;
    }
    None
}

/// `tag` stands in `s` at index `i`, whatever the case of the ASCII letters in `s`.
pub open spec fn tag_at(s: Seq<char>, tag: Seq<char>, i: int) -> bool {
    &&& 0 <= i
    &&& i + tag.len() <= s.len()
    &&& forall|k: int| 0 <= k < tag.len() ==> ascii_lower(s[i + k]) == #[trigger] tag[k]
}

/// The first index from `from` on at which `tag` stands in `s`.
pub open spec fn find_tag(s: Seq<char>, tag: Seq<char>, from: int) -> Option<int>
    decreases s.len() - from,
{
    if from + tag.len() > s.len() {
        None
    } else if tag_at(s, tag, from) {
        Some(from)
    } else {
        find_tag(s, tag, from + 1)
    }
}

/// The reasoning and the answer in a model's response, both trimmed. The reasoning begins with
/// the first opening tag and ends before the first closing tag after it; the answer is what
/// follows that closing tag. A block that is never closed leaves no answer; a response without
/// an opening tag is all answer.
pub open spec fn thinking_and_answer(s: Seq<char>) -> (Seq<char>, Seq<char>) {
    match find_tag(s, "<think>"@, 0) {
        None => (Seq::empty(), trimmed(s)),
        Some(open) => match find_tag(s, "</think>"@, open + "<think>"@.len()) {
            None => (trimmed(s.skip(open)), Seq::empty()),
            Some(close) => (
                trimmed(s.subrange(open, close)),
                trimmed(s.skip(close + "</think>"@.len())),
            ),
        },
    }
}

/// One byte for a character: itself where it is ASCII, with capital letters made small, and 255
/// where it is not.
pub open spec fn ascii_byte(c: char) -> u8 {
    if (c as u32) < 128 {
        ascii_lower(c) as u8
    } else {
        255
    }
}

fn ascii_bytes(s: &str) -> (r: Vec<u8>)
    ensures
        r@ == s@.map_values(|c: char| ascii_byte(c)),
{
    let chars: Vec<char> = chars_of(s);
    let mut out: Vec<u8> = Vec::new();
    let mut i: usize = 0;
    while i < chars.len()
        invariant
            i <= chars.len(),
            chars@ == s@,
            out@.len() == i,
            forall|k: int| 0 <= k < i ==> #[trigger] out@[k] == ascii_byte(s@[k]),
        decreases chars.len() - i,
    {
        let c: char = chars[i];
        if (c as u32) < 128 {
            out.push(lower_char(c) as u8);
        } else {
            out.push(255);
        }
        i += 1;
    }
    proof {
        assert(out@ =~= s@.map_values(|c: char| ascii_byte(c)));
    }
    out
}

/// Every character of `tag` is ASCII and no capital letter.
spec fn plain_tag(tag: Seq<char>) -> bool {
    forall|k: int| 0 <= k < tag.len() ==> (#[trigger] tag[k] as u32) < 128 && ascii_lower(tag[k]) == tag[k]
}

proof fn lemma_tag_bytes(s: Seq<char>, tag: Seq<char>, i: int)
    requires
        plain_tag(tag),
        0 <= i,
    ensures
        tag_at(s, tag, i) <==> occurs_at(
            s.map_values(|c: char| ascii_byte(c)),
            tag.map_values(|c: char| ascii_byte(c)),
            i,
        ),
{
    let f = |c: char| ascii_byte(c);
    let hay = s.map_values(f);
    let needle = tag.map_values(f);
    if i + tag.len() <= s.len() {
        if tag_at(s, tag, i) {
            assert forall|k: int| 0 <= k < tag.len() implies hay.subrange(i, i + tag.len())[k]
                == needle[k] by {
                assert(ascii_lower(s[i + k]) == tag[k]);
            }
            assert(hay.subrange(i, i + needle.len()) =~= needle);
        }
        if occurs_at(hay, needle, i) {
            assert forall|k: int| 0 <= k < tag.len() implies ascii_lower(s[i + k])
                == #[trigger] tag[k] by {
                assert(hay.subrange(i, i + needle.len())[k] == needle[k]);
                assert(hay[i + k] == ascii_byte(s[i + k]));
                assert(needle[k] == ascii_byte(tag[k]));
            }
        }
    }
}

proof fn lemma_find_tag_some(s: Seq<char>, tag: Seq<char>, from: int, at: int)
    requires
        0 <= from <= at,
        tag_at(s, tag, at),
        forall|j: int| from <= j < at ==> !#[trigger] tag_at(s, tag, j),
    ensures
        find_tag(s, tag, from) == Some(at),
    decreases at - from,
{
    if from < at {
        assert(!tag_at(s, tag, from));
        lemma_find_tag_some(s, tag, from + 1, at);
    }
}

proof fn lemma_find_tag_none(s: Seq<char>, tag: Seq<char>, from: int)
    requires
        0 <= from,
        forall|j: int| from <= j ==> !#[trigger] tag_at(s, tag, j),
    ensures
        find_tag(s, tag, from) is None,
    decreases s.len() - from,
{
    if from + tag.len() <= s.len() {
        assert(!tag_at(s, tag, from));
        lemma_find_tag_none(s, tag, from + 1);
    }
}

/// Searches for a tag in `bytes`, which holds one byte for each character of `s`.
fn locate(
    bytes: &Vec<u8>,
    tag: &str,
    from: usize,
    Ghost(s): Ghost<Seq<char>>,
) -> (r: Option<usize>)
    requires
        bytes@ == s.map_values(|c: char| ascii_byte(c)),
        plain_tag(tag@),
        from <= bytes@.len(),
    ensures
        match r {
            Some(i) => find_tag(s, tag@, from as int) == Some(i as int) && from <= i && i
                + tag@.len() <= s.len(),
            None => find_tag(s, tag@, from as int) is None,
        },
{
    let needle: Vec<u8> = ascii_bytes(tag);
    let n: usize = bytes.len();
    let rest: &[u8] = slice_subrange(bytes.as_slice(), from, n);
    let found: Option<usize> = find_subseq(rest, needle.as_slice());
    proof {
        assert forall|j: int| from <= j implies (#[trigger] tag_at(s, tag@, j) <==> occurs_at(
            rest@,
            needle@,
            j - from,
        )) by {
            lemma_tag_bytes(s, tag@, j);
            if j + needle@.len() <= n {
                assert(rest@.subrange(j - from, j - from + needle@.len()) =~= bytes@.subrange(
                    j,
                    j + needle@.len(),
                ));
            }
        }
    }
    match found {
        Some(k) => {
            proof {
                assert(tag_at(s, tag@, from + k));
                assert forall|j: int| from <= j < from + k implies !#[trigger] tag_at(
                    s,
                    tag@,
                    j,
                ) by {
                    assert(!occurs_at(rest@, needle@, j - from));
                }
                lemma_find_tag_some(s, tag@, from as int, from + k);
            }
            Some(from + k)
        },
        None => {
            proof {
                assert forall|j: int| from <= j implies !#[trigger] tag_at(s, tag@, j) by {
                    assert(!occurs_at(rest@, needle@, j - from));
                }
                lemma_find_tag_none(s, tag@, from as int);
            }
            None
        },
    }
}

/// Splits a model's response into its reasoning and its answer.
pub fn strip_thinking_block<'a>(raw: &'a str) -> (r: (&'a str, &'a str))
    ensures
        (r.0@, r.1@) == thinking_and_answer(raw@),
{
    let bytes: Vec<u8> = ascii_bytes(raw);
    let n: usize = bytes.len();
    proof {
        reveal_strlit("<think>");
        reveal_strlit("</think>");
        reveal_strlit("");
        assert(""@ =~= Seq::<char>::empty());
    }
    match locate(&bytes, "<think>", 0, Ghost(raw@)) {
        None => ("", trim(raw)),
        Some(open) => {
            match locate(&bytes, "</think>", open + 7, Ghost(raw@)) {
                None => {
                    proof {
                        assert(raw@.subrange(open as int, n as int) =~= raw@.skip(open as int));
                    }
                    (trim(raw.substring_char(open, n)), "")
                },
                Some(close) => {
                    proof {
                        assert(raw@.subrange(close + 8, n as int) =~= raw@.skip(close + 8));
                    }
                    (
                        trim(raw.substring_char(open, close)),
                        trim(raw.substring_char(close + 8, n)),
                    )
                },
            }
        },
    }
}

proof fn lemma_find_tag_found(s: Seq<char>, tag: Seq<char>, from: int)
    requires
        0 <= from,
    ensures
        match find_tag(s, tag, from) {
            Some(i) => from <= i && tag_at(s, tag, i) && forall|j: int|
                from <= j < i ==> !#[trigger] tag_at(s, tag, j),
            None => forall|j: int| from <= j ==> !#[trigger] tag_at(s, tag, j),
        },
    decreases s.len() - from,
{
    if from + tag.len() <= s.len() && !tag_at(s, tag, from) {
        lemma_find_tag_found(s, tag, from + 1);
    }
}

/// Of a response made of some text, a closed block of reasoning and some more text, the answer
/// is the text after the block, trimmed, and the reasoning is the block without its closing tag:
/// nothing of the reasoning, nor of what came before it, gets into the answer.
pub proof fn law_answer_is_what_follows_the_block(
    before: Seq<char>,
    body: Seq<char>,
    after: Seq<char>,
)
    requires
        ({
            let s = before + "<think>"@ + body + "</think>"@ + after;
            let start = before.len() + "<think>"@.len();
            &&& forall|j: int| 0 <= j < before.len() ==> !#[trigger] tag_at(s, "<think>"@, j)
            &&& forall|j: int|
                start <= j < start + body.len() ==> !#[trigger] tag_at(s, "</think>"@, j)
        }),
    ensures
        thinking_and_answer(before + "<think>"@ + body + "</think>"@ + after) == (
            trimmed("<think>"@ + body),
            trimmed(after),
        ),
{
    reveal_strlit("<think>");
    reveal_strlit("</think>");
    let s = before + "<think>"@ + body + "</think>"@ + after;
    let open = before.len() as int;
    let close = open + 7 + body.len();
    assert(tag_at(s, "<think>"@, open));
    lemma_find_tag_some(s, "<think>"@, 0, open);
    assert(tag_at(s, "</think>"@, close));
    lemma_find_tag_some(s, "</think>"@, open + 7, close);
    assert(s.subrange(open, close) =~= "<think>"@ + body);
    assert(s.skip(close + 8) =~= after);
}

/// A block of reasoning that is never closed leaves no answer.
pub proof fn law_unclosed_block_leaves_no_answer(before: Seq<char>, body: Seq<char>)
    requires
        ({
            let s = before + "<think>"@ + body;
            let start = before.len() + "<think>"@.len();
            &&& forall|j: int| 0 <= j < before.len() ==> !#[trigger] tag_at(s, "<think>"@, j)
            &&& forall|j: int| start <= j ==> !#[trigger] tag_at(s, "</think>"@, j)
        }),
    ensures
        thinking_and_answer(before + "<think>"@ + body) == (
            trimmed("<think>"@ + body),
            Seq::<char>::empty(),
        ),
{
    reveal_strlit("<think>");
    let s = before + "<think>"@ + body;
    let open = before.len() as int;
    assert(tag_at(s, "<think>"@, open));
    lemma_find_tag_some(s, "<think>"@, 0, open);
    lemma_find_tag_none(s, "</think>"@, open + 7);
    assert(s.skip(open) =~= "<think>"@ + body);
}

/// A response without an opening tag is all answer.
pub proof fn law_response_without_block_is_all_answer(s: Seq<char>)
    requires
        forall|j: int| 0 <= j ==> !#[trigger] tag_at(s, "<think>"@, j),
    ensures
        thinking_and_answer(s) == (Seq::<char>::empty(), trimmed(s)),
{
    lemma_find_tag_none(s, "<think>"@, 0);
}

proof fn lemma_trimmed_keeps_nonspace_start(s: Seq<char>)
    requires
        s.len() > 0,
        !is_space(s[0]),
    ensures
        trimmed(s).len() > 0,
    decreases s.len(),
{
    assert(trimmed_start(s) == s);
    if is_space(s.last()) {
        assert(s.len() > 1);
        lemma_trimmed_keeps_nonspace_start(s.drop_last());
    }
}

/// The reasoning is empty exactly where the response has no opening tag.
pub proof fn law_thinking_is_seen_by_its_tag(s: Seq<char>)
    ensures
        thinking_and_answer(s).0.len() > 0 <==> exists|j: int|
            0 <= j && #[trigger] tag_at(s, "<think>"@, j),
{
    reveal_strlit("<think>");
    reveal_strlit("</think>");
    lemma_find_tag_found(s, "<think>"@, 0);
    if let Some(open) = find_tag(s, "<think>"@, 0) {
        assert("<think>"@[0] == '<');
        assert(ascii_lower(s[open + 0]) == "<think>"@[0]);
        assert(s[open] == '<');
        lemma_find_tag_found(s, "</think>"@, open + 7);
        match find_tag(s, "</think>"@, open + 7) {
            None => {
                assert(s.skip(open)[0] == s[open]);
                lemma_trimmed_keeps_nonspace_start(s.skip(open));
            },
            Some(close) => {
                assert(s.subrange(open, close)[0] == s[open]);
                lemma_trimmed_keeps_nonspace_start(s.subrange(open, close));
            },
        }
    }
}

/// Neither the reasoning nor the answer has white space at its ends.
pub proof fn law_both_parts_are_trimmed(s: Seq<char>)
    ensures
        trimmed(thinking_and_answer(s).0) == thinking_and_answer(s).0,
        trimmed(thinking_and_answer(s).1) == thinking_and_answer(s).1,
{
    crate::text::law_trimming_twice_is_trimming_once(s);
    if let Some(open) = find_tag(s, "<think>"@, 0) {
        match find_tag(s, "</think>"@, open + "<think>"@.len()) {
            None => {
                crate::text::law_trimming_twice_is_trimming_once(s.skip(open));
            },
            Some(close) => {
                crate::text::law_trimming_twice_is_trimming_once(s.subrange(open, close));
                crate::text::law_trimming_twice_is_trimming_once(s.skip(close + "</think>"@.len()));
            },
        }
    }
}

proof fn lemma_lower_char(c: char)
    ensures
        ascii_lower(ascii_lower(c)) == ascii_lower(c),
        is_space(ascii_lower(c)) == is_space(c),
{
}

proof fn lemma_tag_at_lowered(s: Seq<char>, tag: Seq<char>, i: int)
    ensures
        tag_at(lowered(s), tag, i) == tag_at(s, tag, i),
{
    if 0 <= i && i + tag.len() <= s.len() {
        assert forall|k: int| 0 <= k < tag.len() implies ascii_lower(
            #[trigger] lowered(s)[i + k],
        ) == ascii_lower(s[i + k]) by {
            lemma_lower_char(s[i + k]);
        }
        if tag_at(s, tag, i) {
            assert forall|k: int| 0 <= k < tag.len() implies ascii_lower(lowered(s)[i + k])
                == #[trigger] tag[k] by {
                assert(ascii_lower(s[i + k]) == tag[k]);
            }
        }
        if tag_at(lowered(s), tag, i) {
            assert forall|k: int| 0 <= k < tag.len() implies ascii_lower(s[i + k])
                == #[trigger] tag[k] by {
                assert(ascii_lower(lowered(s)[i + k]) == tag[k]);
            }
        }
    }
}

proof fn lemma_find_tag_lowered(s: Seq<char>, tag: Seq<char>, from: int)
    ensures
        find_tag(lowered(s), tag, from) == find_tag(s, tag, from),
    decreases s.len() - from,
{
    if from + tag.len() <= s.len() {
        lemma_tag_at_lowered(s, tag, from);
        if !tag_at(s, tag, from) {
            lemma_find_tag_lowered(s, tag, from + 1);
        }
    }
}

proof fn lemma_trimmed_start_lowered(s: Seq<char>)
    ensures
        trimmed_start(lowered(s)) == lowered(trimmed_start(s)),
    decreases s.len(),
{
    if s.len() > 0 {
        lemma_lower_char(s[0]);
        if is_space(s[0]) {
            lemma_trimmed_start_lowered(s.drop_first());
            assert(lowered(s).drop_first() =~= lowered(s.drop_first()));
        }
    }
}

proof fn lemma_trimmed_end_lowered(s: Seq<char>)
    ensures
        trimmed_end(lowered(s)) == lowered(trimmed_end(s)),
    decreases s.len(),
{
    if s.len() > 0 {
        lemma_lower_char(s.last());
        if is_space(s.last()) {
            lemma_trimmed_end_lowered(s.drop_last());
            assert(lowered(s).drop_last() =~= lowered(s.drop_last()));
        }
    }
}

proof fn lemma_trimmed_lowered(s: Seq<char>)
    ensures
        trimmed(lowered(s)) == lowered(trimmed(s)),
{
    lemma_trimmed_start_lowered(s);
    lemma_trimmed_end_lowered(trimmed_start(s));
}

/// Tags are found whatever their case: lowering a response lowers its reasoning and its answer
/// and moves nothing from one to the other.
pub proof fn law_case_of_tags_does_not_matter(s: Seq<char>)
    ensures
        thinking_and_answer(lowered(s)) == (
            lowered(thinking_and_answer(s).0),
            lowered(thinking_and_answer(s).1),
        ),
{
    let low = lowered(s);
    let open_tag = "<think>"@;
    let close_tag = "</think>"@;
    lemma_find_tag_lowered(s, open_tag, 0);
    lemma_trimmed_lowered(s);
    assert(lowered(Seq::<char>::empty()) =~= Seq::<char>::empty());
    lemma_find_tag_found(s, open_tag, 0);
    if let Some(open) = find_tag(s, open_tag, 0) {
        lemma_find_tag_lowered(s, close_tag, open + open_tag.len());
        lemma_find_tag_found(s, close_tag, open + open_tag.len());
        match find_tag(s, close_tag, open + open_tag.len()) {
            None => {
                lemma_trimmed_lowered(s.skip(open));
                assert(low.skip(open) =~= lowered(s.skip(open)));
            },
            Some(close) => {
                lemma_trimmed_lowered(s.subrange(open, close));
                lemma_trimmed_lowered(s.skip(close + close_tag.len()));
                assert(low.subrange(open, close) =~= lowered(s.subrange(open, close)));
                assert(low.skip(close + close_tag.len()) =~= lowered(
                    s.skip(close + close_tag.len()),
                ));
            },
        }
    }
}

/// `tag` is an opening tag, in letters of either case.
pub open spec fn is_open_tag(tag: Seq<char>) -> bool {
    lowered(tag) == "<think>"@
}

/// `tag` is a closing tag, in letters of either case.
pub open spec fn is_close_tag(tag: Seq<char>) -> bool {
    lowered(tag) == "</think>"@
}

/// An opening tag in letters of either case is found as one.
pub proof fn lemma_open_tag_stands(before: Seq<char>, open: Seq<char>, rest: Seq<char>)
    requires
        is_open_tag(open),
    ensures
        tag_at(before + open + rest, "<think>"@, before.len() as int),
{
    let s = before + open + rest;
    let at = before.len() as int;
    assert(lowered(open).len() == open.len());
    assert forall|k: int| 0 <= k < "<think>"@.len() implies ascii_lower(s[at + k])
        == #[trigger] "<think>"@[k] by {
        assert(s[at + k] == open[k]);
        assert(lowered(open)[k] == "<think>"@[k]);
    }
}

/// Whatever the case of its tags, a closed block is cut out as it stands: the reasoning is the
/// block without its closing tag and the answer is what follows the block, both trimmed and with
/// every letter as it was.
pub proof fn law_block_is_cut_out_as_it_stands(
    before: Seq<char>,
    open: Seq<char>,
    body: Seq<char>,
    close: Seq<char>,
    after: Seq<char>,
)
    requires
        is_open_tag(open),
        is_close_tag(close),
        ({
            let s = before + open + body + close + after;
            let start = before.len() + open.len();
            &&& forall|j: int| 0 <= j < before.len() ==> !#[trigger] tag_at(s, "<think>"@, j)
            &&& forall|j: int|
                start <= j < start + body.len() ==> !#[trigger] tag_at(s, "</think>"@, j)
        }),
    ensures
        thinking_and_answer(before + open + body + close + after) == (
            trimmed(open + body),
            trimmed(after),
        ),
{
    reveal_strlit("<think>");
    reveal_strlit("</think>");
    assert(lowered(open).len() == open.len());
    assert(lowered(close).len() == close.len());
    let s = before + open + body + close + after;
    let at = before.len() as int;
    let end = at + 7 + body.len();
    lemma_open_tag_stands(before, open, body + close + after);
    assert(s =~= before + open + (body + close + after));
    lemma_find_tag_some(s, "<think>"@, 0, at);
    assert forall|k: int| 0 <= k < "</think>"@.len() implies ascii_lower(s[end + k])
        == #[trigger] "</think>"@[k] by {
        assert(s[end + k] == close[k]);
        assert(lowered(close)[k] == "</think>"@[k]);
    }
    assert(tag_at(s, "</think>"@, end));
    lemma_find_tag_some(s, "</think>"@, at + 7, end);
    assert(s.subrange(at, end) =~= open + body);
    assert(s.skip(end + 8) =~= after);
}

/// Whatever the case of its opening tag, a block that is never closed is all reasoning, as it
/// stands, and leaves no answer.
pub proof fn law_unclosed_block_is_all_reasoning(
    before: Seq<char>,
    open: Seq<char>,
    body: Seq<char>,
)
    requires
        is_open_tag(open),
        ({
            let s = before + open + body;
            &&& forall|j: int| 0 <= j < before.len() ==> !#[trigger] tag_at(s, "<think>"@, j)
            &&& forall|j: int|
                before.len() + open.len() <= j ==> !#[trigger] tag_at(s, "</think>"@, j)
        }),
    ensures
        thinking_and_answer(before + open + body) == (
            trimmed(open + body),
            Seq::<char>::empty(),
        ),
{
    reveal_strlit("<think>");
    assert(lowered(open).len() == open.len());
    let s = before + open + body;
    let at = before.len() as int;
    lemma_open_tag_stands(before, open, body);
    lemma_find_tag_some(s, "<think>"@, 0, at);
    lemma_find_tag_none(s, "</think>"@, at + 7);
    assert(s.skip(at) =~= open + body);
}

/// A tag stands exactly where the letters read as the tag once they are made small.
pub proof fn law_tags_are_read_letter_by_letter(s: Seq<char>, tag: Seq<char>, i: int)
    ensures
        tag_at(s, tag, i) <==> {
            &&& 0 <= i
            &&& i + tag.len() <= s.len()
            &&& lowered(s.subrange(i, i + tag.len())) == tag
        },
{
    if 0 <= i && i + tag.len() <= s.len() {
        let part = s.subrange(i, i + tag.len());
        if tag_at(s, tag, i) {
            assert forall|k: int| 0 <= k < tag.len() implies lowered(part)[k] == tag[k] by {
                assert(ascii_lower(s[i + k]) == tag[k]);
            }
            assert(lowered(part) =~= tag);
        }
        if lowered(part) == tag {
            assert forall|k: int| 0 <= k < tag.len() implies ascii_lower(s[i + k])
                == #[trigger] tag[k] by {
                assert(lowered(part)[k] == tag[k]);
            }
        }
    }
}

/// A sequence stands in another at an index exactly where the other is made of that many bytes,
/// the sequence itself and some more bytes.
pub proof fn law_occurrence_is_a_split(before: Seq<u8>, needle: Seq<u8>, after: Seq<u8>)
    ensures
        occurs_at(before + needle + after, needle, before.len() as int),
        forall|haystack: Seq<u8>|
            #[trigger] occurs_at(haystack, needle, before.len() as int) ==> haystack
                == haystack.take(before.len() as int) + needle + haystack.skip(
                (before.len() + needle.len()) as int,
            ),
{
    let n = before.len() as int;
    assert((before + needle + after).subrange(n, n + needle.len()) =~= needle);
    assert forall|haystack: Seq<u8>| #[trigger] occurs_at(haystack, needle, n) implies haystack
        == haystack.take(n) + needle + haystack.skip(n + needle.len()) by {
        assert(haystack =~= haystack.take(n) + haystack.subrange(n, n + needle.len())
            + haystack.skip(n + needle.len()));
    }
}

} // verus!
