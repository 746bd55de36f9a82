//! Keywords: what is left of the text that a caller sends.

use crate::text::characters;
use vstd::prelude::*;

verus! {

/// The characters with the Unicode property White_Space.
pub open spec fn is_white_space(c: char) -> bool {
    let code = c as u32;
    ||| 0x09 <= code <= 0x0d
    ||| code == 0x20
    ||| code == 0x85
    ||| code == 0xa0
    ||| code == 0x1680
    ||| 0x2000 <= code <= 0x200a
    ||| code == 0x2028
    ||| code == 0x2029
    ||| code == 0x202f
    ||| code == 0x205f
    ||| code == 0x3000
}

/// `char::is_whitespace` tells whether a character has the property White_Space.
pub assume_specification[ char::is_whitespace ](c: char) -> (result: bool)
    ensures
        result == is_white_space(c),
;

/// The control characters of ASCII.
pub open spec fn is_ascii_control(c: char) -> bool {
    c as u32 <= 0x1f || c as u32 == 0x7f
}

/// Whether sanitization lets a character stand: every one but the control characters
/// of ASCII, and of those the tab, the line feed and the carriage return.
pub open spec fn is_kept(c: char) -> bool {
    !is_ascii_control(c) || c == '\t' || c == '\n' || c == '\r'
}

/// `text` without the characters that are not kept.
pub open spec fn stripped(text: Seq<char>) -> Seq<char> {
    text.filter(|c: char| is_kept(c))
}

/// The words of a text: its longest runs of characters other than white space.
pub open spec fn words(text: Seq<char>) -> Seq<Seq<char>>
    decreases text.len(),
{
    if text.len() == 0 {
        seq![]
    } else {
        let before = words(text.drop_last());
        if is_white_space(text.last()) {
            before
        } else if text.len() == 1 || is_white_space(text[text.len() - 2]) {
            before.push(seq![text.last()])
        } else {
            before.drop_last().push(before.last().push(text.last()))
        }
    }
}

/// The words one behind the other, with a space between each two.
pub open spec fn spaced(list: Seq<Seq<char>>) -> Seq<char>
    decreases list.len(),
{
    if list.len() == 0 {
        seq![]
    } else if list.len() == 1 {
        list[0]
    } else {
        spaced(list.drop_last()).push(' ') + list.last()
    }
}

/// What sanitization leaves of a keyword: the words of what is kept, a space between
/// each two.
pub open spec fn sanitized(raw: Seq<char>) -> Seq<char> {
    spaced(words(stripped(raw)))
}

/// A text that ends in a character other than white space has a last word.
proof fn last_word(text: Seq<char>)
    requires
        text.len() > 0,
        !is_white_space(text.last()),
    ensures
        words(text).len() > 0,
        words(text).last().len() > 0,
        words(text).last().last() == text.last(),
    decreases text.len(),
{
    if text.len() > 1 && !is_white_space(text[text.len() - 2]) {
        last_word(text.drop_last());
    }
}

/// Putting a character behind the last word puts it behind the whole.
proof fn spaced_extend(list: Seq<Seq<char>>, c: char)
    requires
        list.len() > 0,
    ensures
        spaced(list.drop_last().push(list.last().push(c))) == spaced(list).push(c),
{
    let longer = list.drop_last().push(list.last().push(c));
    assert(longer.drop_last() =~= list.drop_last());
    assert(spaced(longer) =~= spaced(list).push(c));
}

/// A new word stands behind a space, unless it is the first.
proof fn spaced_push(list: Seq<Seq<char>>, word: Seq<char>)
    ensures
        spaced(list.push(word)) == if list.len() == 0 {
            word
        } else {
            spaced(list).push(' ') + word
        },
{
    assert(list.push(word).drop_last() =~= list);
}

/// Whether nothing is left to sanitize: no control characters, no white space but
/// spaces, no space at either end and no two in a row.
pub open spec fn is_clean(text: Seq<char>) -> bool {
    &&& forall|i: int|
        0 <= i < text.len() ==> !is_ascii_control(#[trigger] text[i]) && (is_white_space(text[i])
            ==> text[i] == ' ')
    &&& text.len() > 0 ==> text[0] != ' ' && text.last() != ' '
    &&& forall|i: int, j: int|
        0 <= i < text.len() && j == i + 1 && j < text.len() ==> !(#[trigger] text[i] == ' '
            && #[trigger] text[j] == ' ')
}

/// Whether a character belongs to the words of a keyword.
pub open spec fn is_in_word(c: char) -> bool {
    !is_white_space(c) && !is_ascii_control(c)
}

/// The characters of a text that belong to words, in order.
pub open spec fn letters(text: Seq<char>) -> Seq<char> {
    text.filter(|c: char| is_in_word(c))
}

/// Whether a word has a character, and only characters that belong to words.
spec fn is_word(word: Seq<char>) -> bool {
    &&& word.len() > 0
    &&& forall|i: int| 0 <= i < word.len() ==> is_in_word(#[trigger] word[i])
}

/// Whether a list holds words only.
spec fn are_words(list: Seq<Seq<char>>) -> bool {
    forall|w: int| 0 <= w < list.len() ==> is_word(#[trigger] list[w])
}

/// Whether every character of a text is kept.
spec fn all_kept(text: Seq<char>) -> bool {
    forall|i: int| 0 <= i < text.len() ==> is_kept(#[trigger] text[i])
}

/// The words of a text whose characters are all kept are words.
proof fn words_are_words(text: Seq<char>)
    requires
        all_kept(text),
    ensures
        are_words(words(text)),
    decreases text.len(),
{
    if text.len() > 0 {
        let before = words(text.drop_last());
        assert(all_kept(text.drop_last())) by {
            assert forall|i: int| 0 <= i < text.drop_last().len() implies is_kept(
                #[trigger] text.drop_last()[i],
            ) by {
                assert(text.drop_last()[i] == text[i]);
            }
        }
        words_are_words(text.drop_last());
        let c = text.last();
        if !is_white_space(c) {
            assert(is_kept(c));
            assert(is_in_word(c));
            let list = words(text);
            if text.len() > 1 && !is_white_space(text[text.len() - 2]) {
                last_word(text.drop_last());
            }
            assert forall|w: int| 0 <= w < list.len() implies is_word(#[trigger] list[w]) by {
                if w < list.len() - 1 {
                    assert(list[w] == before[w]);
                } else if text.len() > 1 && !is_white_space(text[text.len() - 2]) {
                    assert(is_word(before[before.len() - 1]));
                    assert(list[w] == before.last().push(c));
                } else {
                    assert(list[w] == seq![c]);
                }
            }
        }
    }
}

/// Words with a space between each two are clean, and end in the end of the last word.
proof fn spaced_is_clean(list: Seq<Seq<char>>)
    requires
        are_words(list),
    ensures
        is_clean(spaced(list)),
        list.len() > 0 ==> spaced(list).len() > 0 && is_in_word(spaced(list).last()),
    decreases list.len(),
{
    if list.len() == 1 {
        assert(is_word(list[0]));
    } else if list.len() > 1 {
        let front = list.drop_last();
        let word = list.last();
        assert(is_word(list[list.len() - 1]));
        assert forall|w: int| 0 <= w < front.len() implies is_word(#[trigger] front[w]) by {
            assert(front[w] == list[w]);
        }
        spaced_is_clean(front);
        let head = spaced(front);
        let whole = spaced(list);
        assert(whole =~= head.push(' ') + word);
        assert forall|i: int| 0 <= i < whole.len() implies !is_ascii_control(#[trigger] whole[i])
            && (is_white_space(whole[i]) ==> whole[i] == ' ') by {
            if i < head.len() {
                assert(whole[i] == head[i]);
            } else if i > head.len() {
                assert(whole[i] == word[i - head.len() - 1]);
            }
        }
        assert(whole[0] == head[0]);
        assert(whole.last() == word[word.len() - 1]);
        assert forall|i: int, j: int|
            0 <= i < whole.len() && j == i + 1 && j < whole.len() implies !(#[trigger] whole[i]
            == ' ' && #[trigger] whole[j] == ' ') by {
            if j < head.len() {
                assert(whole[i] == head[i]);
                assert(whole[j] == head[j]);
            } else if j == head.len() {
                assert(whole[i] == head.last());
            } else {
                assert(whole[j] == word[j - head.len() - 1]);
            }
        }
    }
}

/// Nothing is left to sanitize in a sanitized keyword.
pub proof fn sanitized_is_clean(raw: Seq<char>)
    ensures
        is_clean(sanitized(raw)),
{
    let keep = |c: char| is_kept(c);
    assert(all_kept(stripped(raw))) by {
        assert forall|i: int| 0 <= i < stripped(raw).len() implies is_kept(
            #[trigger] stripped(raw)[i],
        ) by {
            raw.lemma_filter_pred(keep, i);
        }
    }
    words_are_words(stripped(raw));
    spaced_is_clean(words(stripped(raw)));
}

/// A text whose characters are all kept is not changed by stripping.
proof fn nothing_to_strip(text: Seq<char>)
    requires
        all_kept(text),
    ensures
        stripped(text) == text,
    decreases text.len(),
{
    reveal(Seq::filter);
    if text.len() > 0 {
        let front = text.drop_last();
        assert forall|i: int| 0 <= i < front.len() implies is_kept(#[trigger] front[i]) by {
            assert(front[i] == text[i]);
        }
        nothing_to_strip(front);
        assert(is_kept(text.last()));
        assert(text =~= front.push(text.last()));
    }
}

/// What the words of the beginning of a clean text come to: the beginning, without
/// the space that it may end in.
proof fn clean_beginning(text: Seq<char>, n: int)
    requires
        is_clean(text),
        0 <= n <= text.len(),
    ensures
        spaced(words(text.take(n))) == if n > 0 && text[n - 1] == ' ' {
            text.take(n - 1)
        } else {
            text.take(n)
        },
        n > 0 ==> words(text.take(n)).len() > 0,
    decreases n,
{
    let beginning = text.take(n);
    if n > 0 {
        clean_beginning(text, n - 1);
        assert(beginning.drop_last() =~= text.take(n - 1));
        let c = text[n - 1];
        let before = words(text.take(n - 1));
        if c == ' ' {
            assert(text[0] != ' ');
            assert(n > 1);
            assert(text[n - 2] != ' ');
        } else {
            assert(!is_white_space(c));
            if n == 1 {
                assert(before.push(seq![c])[0] == seq![c]);
                assert(text.take(1) =~= seq![c]);
            } else {
                assert(beginning[n - 2] == text[n - 2]);
                if is_white_space(text[n - 2]) {
                    assert(text[n - 2] == ' ');
                    spaced_push(before, seq![c]);
                    assert(spaced(before).push(' ') + seq![c] =~= text.take(n));
                } else {
                    assert(text.take(n - 1).last() == text[n - 2]);
                    last_word(text.take(n - 1));
                    spaced_extend(before, c);
                    assert(spaced(before).push(c) =~= text.take(n));
                }
            }
        }
    } else {
        assert(text.take(0) =~= seq![]);
    }
}

/// A clean keyword is not changed by sanitization.
pub proof fn clean_is_unchanged(text: Seq<char>)
    requires
        is_clean(text),
    ensures
        sanitized(text) == text,
{
    assert(all_kept(text));
    nothing_to_strip(text);
    clean_beginning(text, text.len() as int);
    assert(text.take(text.len() as int) =~= text);
}

/// Sanitizing a keyword once more changes nothing.
pub proof fn sanitized_stays(raw: Seq<char>)
    ensures
        sanitized(sanitized(raw)) == sanitized(raw),
{
    sanitized_is_clean(raw);
    clean_is_unchanged(sanitized(raw));
}

/// The characters of words among one more character.
proof fn letters_push(text: Seq<char>, c: char)
    ensures
        letters(text.push(c)) == if is_in_word(c) {
            letters(text).push(c)
        } else {
            letters(text)
        },
{
    reveal(Seq::filter);
    assert(text.push(c).drop_last() =~= text);
}

/// Stripping keeps the characters of words.
proof fn stripping_keeps_letters(raw: Seq<char>)
    ensures
        letters(stripped(raw)) == letters(raw),
    decreases raw.len(),
{
    reveal(Seq::filter);
    if raw.len() > 0 {
        stripping_keeps_letters(raw.drop_last());
        letters_push(stripped(raw.drop_last()), raw.last());
        letters_push(raw.drop_last(), raw.last());
        assert(raw =~= raw.drop_last().push(raw.last()));
    }
}

/// Putting words together keeps their characters.
proof fn spacing_keeps_letters(text: Seq<char>)
    requires
        all_kept(text),
    ensures
        letters(spaced(words(text))) == letters(text),
    decreases text.len(),
{
    if text.len() > 0 {
        let front = text.drop_last();
        let c = text.last();
        assert forall|i: int| 0 <= i < front.len() implies is_kept(#[trigger] front[i]) by {
            assert(front[i] == text[i]);
        }
        spacing_keeps_letters(front);
        assert(text =~= front.push(c));
        letters_push(front, c);
        let before = words(front);
        if !is_white_space(c) {
            assert(is_kept(c));
            if text.len() == 1 || is_white_space(text[text.len() - 2]) {
                spaced_push(before, seq![c]);
                if before.len() == 0 {
                    assert(seq![c] =~= Seq::<char>::empty().push(c));
                    letters_push(seq![], c);
                } else {
                    letters_push(spaced(before), ' ');
                    letters_push(spaced(before).push(' '), c);
                    assert(spaced(before).push(' ') + seq![c] =~= spaced(before).push(' ').push(c));
                }
            } else {
                last_word(front);
                spaced_extend(before, c);
                letters_push(spaced(before), c);
            }
        }
    }
}

/// Sanitization keeps every character that is neither white space nor a control
/// character, and their order.
pub proof fn letters_survive(raw: Seq<char>)
    ensures
        letters(sanitized(raw)) == letters(raw),
{
    let keep = |c: char| is_kept(c);
    assert forall|i: int| 0 <= i < stripped(raw).len() implies is_kept(
        #[trigger] stripped(raw)[i],
    ) by {
        raw.lemma_filter_pred(keep, i);
    }
    stripping_keeps_letters(raw);
    spacing_keeps_letters(stripped(raw));
}

/// Nothing is left of a keyword exactly where it holds nothing but white space and
/// control characters.
pub proof fn empty_without_letters(raw: Seq<char>)
    ensures
        sanitized(raw).len() == 0 <==> letters(raw).len() == 0,
{
    letters_survive(raw);
    sanitized_is_clean(raw);
    let keyword = sanitized(raw);
    if keyword.len() == 0 {
        keyword.lemma_filter_len(|c: char| is_in_word(c));
    } else {
        assert(is_in_word(keyword[0]));
        keyword.lemma_filter_contains(|c: char| is_in_word(c), 0);
    }
}

/// Where one text ends in white space, or has nothing, the words of two texts one behind
/// the other are the words of the one and those of the other.
proof fn words_concat(a: Seq<char>, b: Seq<char>)
    requires
        a.len() > 0 ==> is_white_space(a.last()),
    ensures
        words(a + b) == words(a) + words(b),
    decreases b.len(),
{
    if b.len() == 0 {
        assert(a + b =~= a);
        assert(words(a) + words(b) =~= words(a));
    } else {
        let front = b.drop_last();
        let whole = a + b;
        assert(whole.drop_last() =~= a + front);
        words_concat(a, front);
        assert(whole.last() == b.last());
        if !is_white_space(b.last()) {
            if b.len() > 1 {
                assert(whole[whole.len() - 2] == b[b.len() - 2]);
                if !is_white_space(b[b.len() - 2]) {
                    last_word(front);
                    assert((words(a) + words(front)).last() == words(front).last());
                    assert((words(a) + words(front)).drop_last() =~= words(a)
                        + words(front).drop_last());
                }
            } else if a.len() > 0 {
                assert(whole[whole.len() - 2] == a.last());
            }
            assert(words(whole) =~= words(a) + words(b));
        }
    }
}

/// Whether a text is white space, but for the vertical tab and the form feed, which are
/// stripped as control characters.
pub open spec fn is_gap(text: Seq<char>) -> bool {
    forall|i: int|
        0 <= i < text.len() ==> is_white_space(#[trigger] text[i]) && text[i] as u32 != 0x0b
            && text[i] as u32 != 0x0c
}

/// White space behind a text adds no word.
proof fn words_before_gap(a: Seq<char>, gap: Seq<char>)
    requires
        is_gap(gap),
    ensures
        words(a + gap) == words(a),
    decreases gap.len(),
{
    if gap.len() == 0 {
        assert(a + gap =~= a);
    } else {
        assert((a + gap).drop_last() =~= a + gap.drop_last());
        assert((a + gap).last() == gap[gap.len() - 1]);
        words_before_gap(a, gap.drop_last());
    }
}

/// Two lists of words one behind the other have a space between them.
proof fn spaced_concat(a: Seq<Seq<char>>, b: Seq<Seq<char>>)
    requires
        a.len() > 0,
        b.len() > 0,
    ensures
        spaced(a + b) == spaced(a) + seq![' '] + spaced(b),
    decreases b.len(),
{
    let front = b.drop_last();
    assert((a + b).drop_last() =~= a + front);
    if front.len() == 0 {
        assert(a + front =~= a);
    } else {
        spaced_concat(a, front);
    }
    assert(spaced(a + b) =~= spaced(a) + seq![' '] + spaced(b));
}

/// White space is kept, but for the vertical tab and the form feed.
proof fn white_space_is_kept(c: char)
    requires
        is_white_space(c),
        c as u32 != 0x0b,
        c as u32 != 0x0c,
    ensures
        is_kept(c),
{
}

/// White space that is kept is not stripped.
proof fn gap_is_kept(gap: Seq<char>)
    requires
        is_gap(gap),
    ensures
        stripped(gap) == gap,
{
    assert forall|i: int| 0 <= i < gap.len() implies is_kept(#[trigger] gap[i]) by {
        white_space_is_kept(gap[i]);
    }
    nothing_to_strip(gap);
}

/// Stripping texts one behind the other is stripping each of them.
proof fn stripped_concat(a: Seq<char>, b: Seq<char>)
    ensures
        stripped(a + b) == stripped(a) + stripped(b),
{
    Seq::filter_distributes_over_add(a, b, |c: char| is_kept(c));
}

/// A keyword with a character that belongs to a word has a word.
proof fn letters_make_words(raw: Seq<char>)
    requires
        letters(raw).len() > 0,
    ensures
        words(stripped(raw)).len() > 0,
{
    empty_without_letters(raw);
}

/// White space between words, however much and of whatever kinds, comes to one space
/// between what is on either side of it.
pub proof fn gap_parts_words(a: Seq<char>, gap: Seq<char>, b: Seq<char>)
    requires
        gap.len() > 0,
        is_gap(gap),
        letters(a).len() > 0,
        letters(b).len() > 0,
    ensures
        sanitized(a + gap + b) == sanitized(a) + seq![' '] + sanitized(b),
{
    let front = stripped(a);
    let back = stripped(b);
    stripped_concat(a + gap, b);
    stripped_concat(a, gap);
    gap_is_kept(gap);
    assert((front + gap).last() == gap[gap.len() - 1]);
    words_concat(front + gap, back);
    words_before_gap(front, gap);
    letters_make_words(a);
    letters_make_words(b);
    spaced_concat(words(front), words(back));
}

/// White space at either end of a keyword does not matter.
pub proof fn ends_are_trimmed(gap: Seq<char>, a: Seq<char>)
    requires
        is_gap(gap),
    ensures
        sanitized(gap + a) == sanitized(a),
        sanitized(a + gap) == sanitized(a),
{
    stripped_concat(gap, a);
    stripped_concat(a, gap);
    gap_is_kept(gap);
    words_before_gap(stripped(a), gap);
    if gap.len() > 0 {
        assert(gap.last() == gap[gap.len() - 1]);
    }
    words_concat(gap, stripped(a));
    words_before_gap(seq![], gap);
    assert(seq![] + gap =~= gap);
    assert(words(gap) + words(stripped(a)) =~= words(stripped(a)));
}

/// Control characters other than the tab, the line feed and the carriage return do not
/// matter, wherever they stand: a word goes on behind them.
pub proof fn controls_do_not_matter(a: Seq<char>, controls: Seq<char>, b: Seq<char>)
    requires
        forall|i: int|
            0 <= i < controls.len() ==> {
                let code = #[trigger] controls[i] as u32;
                (code < 0x20 || code == 0x7f) && code != 0x09 && code != 0x0a && code != 0x0d
            },
    ensures
        sanitized(a + controls + b) == sanitized(a + b),
{
    stripped_concat(a + controls, b);
    stripped_concat(a, controls);
    stripped_concat(a, b);
    assert forall|i: int| 0 <= i < controls.len() implies !is_kept(#[trigger] controls[i]) by {
        let code = controls[i] as u32;
        assert((code < 0x20 || code == 0x7f) && code != 0x09 && code != 0x0a && code != 0x0d);
    }
    controls_are_stripped(controls);
    assert(stripped(a) + stripped(controls) =~= stripped(a));
}

/// Nothing is left of characters that are not kept.
proof fn controls_are_stripped(controls: Seq<char>)
    requires
        forall|i: int| 0 <= i < controls.len() ==> !is_kept(#[trigger] controls[i]),
    ensures
        stripped(controls).len() == 0,
    decreases controls.len(),
{
    reveal(Seq::filter);
    if controls.len() > 0 {
        let front = controls.drop_last();
        assert forall|i: int| 0 <= i < front.len() implies !is_kept(#[trigger] front[i]) by {
            assert(front[i] == controls[i]);
        }
        controls_are_stripped(front);
        assert(!is_kept(controls[controls.len() - 1]));
    }
}

/// Strips control characters from `raw` and puts a single space in the place of each
/// run of white space, with none at either end.
pub fn sanitize_keyword(raw: &str) -> (result: String)
    ensures
        result@ == sanitized(raw@),
{
    let chars = characters(raw);
    let mut result = String::new();
    let mut after_space: bool = true;
    let mut empty: bool = true;
    let mut i: usize = 0;
    let ghost mut seen: Seq<char> = seq![];
    let ghost keep = |c: char| is_kept(c);
    assert(chars@.take(0).filter(keep) =~= seq![]) by {
        reveal(Seq::filter);
    }
    while i < chars.len()
        invariant
            i <= chars@.len(),
            keep == (|c: char| is_kept(c)),
            seen == chars@.take(i as int).filter(keep),
            result@ == spaced(words(seen)),
            empty == (words(seen).len() == 0),
            after_space == (seen.len() == 0 || is_white_space(seen.last())),
        decreases chars@.len() - i,
    {
        let c = chars[i];
        proof {
            reveal(Seq::filter);
            let through = chars@.take(i + 1);
            assert(through.drop_last() =~= chars@.take(i as int));
            assert(through.last() == c);
            assert(through.filter(keep) == if is_kept(c) {
                seen.push(c)
            } else {
                seen
            });
        }
        let code: u32 = c as u32;
        let control: bool = code <= 0x1f || code == 0x7f;
        if !control || c == '\t' || c == '\n' || c == '\r' {
            let ghost before = seen;
            proof {
                seen = seen.push(c);
                assert(seen.drop_last() =~= before);
            }
            if c.is_whitespace() {
                after_space = true;
            } else {
                proof {
                    if after_space {
                        spaced_push(words(before), seq![c]);
                        assert(spaced(words(before)).push(' ') + seq![c] =~= spaced(
                            words(before),
                        ).push(' ').push(c));
                    } else {
                        last_word(before);
                        spaced_extend(words(before), c);
                    }
                }
                if after_space && !empty {
                    result.push(' ');
                }
                result.push(c);
                assert(result@ =~= spaced(words(seen)));
                after_space = false;
                empty = false;
            }
        }
        i = i + 1;
    }
    assert(chars@.take(i as int) =~= raw@);
    result
}

} // verus!
