//! Text as sequences of characters: comparison, searching, splitting, joining
//! and trimming.

use vstd::prelude::*;

verus! {

/// Whether a character has the Unicode `White_Space` property.
pub open spec fn is_whitespace(c: char) -> bool {
    ||| '\u{9}' <= c <= '\u{d}'
    ||| c == ' '
    ||| c == '\u{85}'
    ||| c == '\u{a0}'
    ||| c == '\u{1680}'
    ||| '\u{2000}' <= c <= '\u{200a}'
    ||| c == '\u{2028}'
    ||| c == '\u{2029}'
    ||| c == '\u{202f}'
    ||| c == '\u{205f}'
    ||| c == '\u{3000}'
}

/// Whether a text holds ASCII characters only.
pub open spec fn is_ascii_text(text: Seq<char>) -> bool {
    forall|i: int| 0 <= i < text.len() ==> #[trigger] text[i] <= '\u{7f}'
}

/// The Unicode lowercase of a text.
pub uninterp spec fn lowercase(text: Seq<char>) -> Seq<char>;

/// `char::is_whitespace` tells whether a character has the `White_Space`
/// property, which Unicode gives to these characters.
pub assume_specification[ char::is_whitespace ](c: char) -> (b: bool)
    ensures
        b == is_whitespace(c),
;

/// `str::to_lowercase` is a function of the text alone, and turns the ASCII
/// letters of an ASCII text into small ones. What it makes of other characters
/// is left to the name.
pub assume_specification[ str::to_lowercase ](s: &str) -> (lower: std::string::String)
    ensures
        lower@ == lowercase(s@),
        is_ascii_text(s@) ==> lower@ == ascii_lowercase(s@),
;

/// `String::push` appends one character.
pub assume_specification[ std::string::String::push ](s: &mut std::string::String, c: char)
    ensures
        final(s)@ == old(s)@.push(c),
;

/// The characters of a text, in order.
pub fn chars_of(s: &str) -> (chars: Vec<char>)
    ensures
        chars@ == s@,
{
    let mut chars: Vec<char> = Vec::new();
    for c in it: s.chars()
        invariant
            chars@ == it.seq().take(it.index() as int),
            it.seq() == s@,
    {
        chars.push(c);
    }
    chars
}

/// Whether two texts are equal.
pub fn same_text(a: &str, b: &str) -> (same: bool)
    ensures
        same == (a@ == b@),
{
    let left = chars_of(a);
    let right = chars_of(b);
    same_chars(&left, &right)
}

fn same_chars(left: &Vec<char>, right: &Vec<char>) -> (same: bool)
    ensures
        same == (left@ == right@),
{
    if left.len() != right.len() {
        return false;
    }
    let mut i: usize = 0;
    while i < left.len()
        invariant
            i <= left.len(),
            left.len() == right.len(),
            forall|j: int| 0 <= j < i ==> left@[j] == right@[j],
        decreases left.len() - i,
    {
        if left[i] != right[i] {
            assert(left@[i as int] != right@[i as int]);
            return false;
        }
        i += 1;
    }
    assert(left@ =~= right@);
    true
}

/// Appends `tail` to `out`.
pub fn push_text(out: &mut String, tail: &str)
    ensures
        final(out)@ == old(out)@ + tail@,
{
    let ghost before = out@;
    for c in it: tail.chars()
        invariant
            out@ == before + it.seq().take(it.index() as int),
            it.seq() == tail@,
    {
        out.push(c);
    }
}

/// `head` followed by `tail`.
pub fn joined(head: &str, tail: &str) -> (text: String)
    ensures
        text@ == head@ + tail@,
{
    let mut out = String::new();
    push_text(&mut out, head);
    push_text(&mut out, tail);
    out
}

/// The text made of the characters `chars[from..to]`.
pub fn slice_text(chars: &Vec<char>, from: usize, to: usize) -> (text: String)
    requires
        from <= to <= chars.len(),
    ensures
        text@ == chars@.subrange(from as int, to as int),
{
    let mut out = String::new();
    let mut i: usize = from;
    while i < to
        invariant
            from <= i <= to <= chars.len(),
            out@ == chars@.subrange(from as int, i as int),
        decreases to - i,
    {
        out.push(chars[i]);
        i += 1;
    }
    out
}

/// Whether `needle` occurs somewhere in `text`.
pub open spec fn occurs_in(needle: Seq<char>, text: Seq<char>) -> bool {
    exists|at: int| occurs_at(needle, text, at)
}

pub open spec fn occurs_at(needle: Seq<char>, text: Seq<char>, at: int) -> bool {
    &&& 0 <= at <= text.len() - needle.len()
    &&& text.subrange(at, at + needle.len()) == needle
}

pub fn contains_text(text: &str, needle: &str) -> (found: bool)
    ensures
        found == occurs_in(needle@, text@),
{
    let hay = chars_of(text);
    let pin = chars_of(needle);
    if pin.len() > hay.len() {
        return false;
    }
    let last: usize = hay.len() - pin.len();
    let mut at: usize = 0;
    loop
        invariant
            at <= last,
            last == hay.len() - pin.len(),
            hay@ == text@,
            pin@ == needle@,
            forall|k: int| 0 <= k < at ==> !occurs_at(needle@, text@, k),
        decreases last - at,
    {
        if matches_at(&hay, &pin, at) {
            assert(occurs_at(needle@, text@, at as int));
            return true;
        }
        if at == last {
            return false;
        }
        at += 1;
    }
}

fn matches_at(hay: &Vec<char>, pin: &Vec<char>, at: usize) -> (found: bool)
    requires
        at + pin.len() <= hay.len(),
    ensures
        found == occurs_at(pin@, hay@, at as int),
{
    let mut i: usize = 0;
    while i < pin.len()
        invariant
            i <= pin.len(),
            at + pin.len() <= hay.len(),
            forall|j: int| 0 <= j < i ==> hay@[at + j] == pin@[j],
        decreases pin.len() - i,
    {
        if hay[at + i] != pin[i] {
            assert(hay@.subrange(at as int, at + pin.len())[i as int] != pin@[i as int]);
            return false;
        }
        i += 1;
    }
    assert(hay@.subrange(at as int, at + pin.len()) =~= pin@);
    true
}

pub open spec fn has_prefix(text: Seq<char>, prefix: Seq<char>) -> bool {
    prefix.len() <= text.len() && text.subrange(0, prefix.len() as int) == prefix
}

pub open spec fn has_suffix(text: Seq<char>, suffix: Seq<char>) -> bool {
    suffix.len() <= text.len() && text.subrange(text.len() - suffix.len(), text.len() as int)
        == suffix
}

/// An ending of an ending ends the text too.
pub proof fn suffixes_chain(text: Seq<char>, front: Seq<char>, suffix: Seq<char>)
    requires
        has_suffix(text, front + suffix),
    ensures
        has_suffix(text, suffix),
{
    let whole = front + suffix;
    assert forall|i: int| 0 <= i < suffix.len() implies text[text.len() - suffix.len() + i]
        == suffix[i] by {
        assert(whole[front.len() + i] == suffix[i]);
        assert(text.subrange(text.len() - whole.len(), text.len() as int)[front.len() + i]
            == whole[front.len() + i]);
    }
    assert(text.subrange(text.len() - suffix.len(), text.len() as int) =~= suffix);
}

pub fn starts_with_text(text: &str, prefix: &str) -> (yes: bool)
    ensures
        yes == has_prefix(text@, prefix@),
{
    let hay = chars_of(text);
    let pin = chars_of(prefix);
    if pin.len() > hay.len() {
        return false;
    }
    matches_at(&hay, &pin, 0)
}

/// The words of a text: its longest runs of characters that are not
/// whitespace. The last character extends the last word, starts a new one, or
/// belongs to none.
pub open spec fn words(text: Seq<char>) -> Seq<Seq<char>>
    decreases text.len(),
{
    if text.len() == 0 {
        Seq::empty()
    } else {
        let rest = words(text.drop_last());
        if is_whitespace(text.last()) {
            rest
        } else if text.len() == 1 || is_whitespace(text[text.len() - 2]) {
            rest.push(seq![text.last()])
        } else {
            rest.drop_last().push(rest.last().push(text.last()))
        }
    }
}

/// The views of a list of texts.
pub open spec fn texts(list: Seq<String>) -> Seq<Seq<char>> {
    list.map_values(|s: String| s@)
}

pub fn split_words(text: &str) -> (list: Vec<String>)
    ensures
        texts(list@) == words(text@),
{
    let chars = chars_of(text);
    let mut list: Vec<String> = Vec::new();
    let mut current = String::new();
    let mut open = false;
    let mut i: usize = 0;
    proof {
        assert(texts(list@) =~= words(chars@.take(0)));
    }
    while i < chars.len()
        invariant
            i <= chars.len(),
            open == (i > 0 && !is_whitespace(chars@[i - 1])),
            open ==> texts(list@).push(current@) == words(chars@.take(i as int)),
            !open ==> texts(list@) == words(chars@.take(i as int)),
            !open ==> current@.len() == 0,
        decreases chars.len() - i,
    {
        let c = chars[i];
        let ghost seen = chars@.take(i as int);
        let ghost next = chars@.take(i + 1);
        proof {
            assert(next.drop_last() =~= seen);
            assert(next.last() == c);
            if i > 0 {
                assert(next[next.len() - 2] == chars@[i - 1]);
            }
        }
        if c.is_whitespace() {
            if open {
                let ghost before = list@;
                list.push(current);
                proof {
                    assert(texts(list@) =~= texts(before).push(current@));
                }
                current = String::new();
            }
            open = false;
        } else {
            let ghost had = current@;
            current.push(c);
            proof {
                if open {
                    assert(words(seen) == texts(list@).push(had));
                    assert(words(seen).drop_last() =~= texts(list@));
                    assert(words(next) =~= texts(list@).push(had.push(c)));
                } else {
                    assert(current@ =~= seq![c]);
                    assert(words(next) =~= texts(list@).push(seq![c]));
                }
            }
            open = true;
        }
        i += 1;
    }
    assert(chars@.take(chars.len() as int) =~= text@);
    if open {
        let ghost before = list@;
        list.push(current);
        proof {
            assert(texts(list@) =~= texts(before).push(current@));
        }
    }
    list
}

/// The texts of a list, one after the other, with `separator` in between.
pub open spec fn join(list: Seq<Seq<char>>, separator: Seq<char>) -> Seq<char>
    decreases list.len(),
{
    if list.len() == 0 {
        Seq::empty()
    } else if list.len() == 1 {
        list[0]
    } else {
        join(list.drop_last(), separator) + separator + list.last()
    }
}

pub fn join_texts(list: &Vec<String>, separator: &str) -> (text: String)
    ensures
        text@ == join(texts(list@), separator@),
{
    let mut out = String::new();
    let mut i: usize = 0;
    while i < list.len()
        invariant
            i <= list.len(),
            out@ == join(texts(list@).take(i as int), separator@),
        decreases list.len() - i,
    {
        proof {
            assert(texts(list@).take(i + 1).drop_last() =~= texts(list@).take(i as int));
        }
        if i > 0 {
            push_text(&mut out, separator);
        }
        push_text(&mut out, list[i].as_str());
        i += 1;
        assert(out@ =~= join(texts(list@).take(i as int), separator@));
    }
    assert(texts(list@).take(list.len() as int) =~= texts(list@));
    out
}

pub open spec fn ascii_lower(c: char) -> char {
    if 'A' <= c <= 'Z' {
        (c as int + 32) as char
    } else {
        c
    }
}

/// A text with its ASCII capitals turned into small letters.
pub open spec fn ascii_lowercase(text: Seq<char>) -> Seq<char> {
    text.map_values(|c: char| ascii_lower(c))
}

fn ascii_lower_char(c: char) -> (lower: char)
    ensures
        lower == ascii_lower(c),
{
    if 'A' <= c && c <= 'Z' {
        let code: u8 = c as u8 + 32;
        code as char
    } else {
        c
    }
}

pub fn to_ascii_lowercase(text: &str) -> (lower: String)
    ensures
        lower@ == ascii_lowercase(text@),
{
    let mut out = String::new();
    for c in it: text.chars()
        invariant
            out@ == ascii_lowercase(it.seq().take(it.index() as int)),
            it.seq() == text@,
    {
        out.push(ascii_lower_char(c));
        assert(out@ =~= ascii_lowercase(it.seq().take(it.index() + 1)));
    }
    assert(text@.take(text@.len() as int) =~= text@);
    out
}

/// Whether two texts are equal but for the case of ASCII letters.
pub fn same_ignoring_ascii_case(a: &str, b: &str) -> (same: bool)
    ensures
        same == (ascii_lowercase(a@) == ascii_lowercase(b@)),
{
    let left = to_ascii_lowercase(a);
    let right = to_ascii_lowercase(b);
    same_text(left.as_str(), right.as_str())
}

/// A text in which every occurrence of `from` is replaced by `to`.
pub open spec fn replaced(text: Seq<char>, from: char, to: Seq<char>) -> Seq<char>
    decreases text.len(),
{
    if text.len() == 0 {
        Seq::empty()
    } else {
        replaced(text.drop_last(), from, to) + (if text.last() == from {
            to
        } else {
            seq![text.last()]
        })
    }
}

pub fn replace_char(text: &str, from: char, to: &str) -> (out: String)
    ensures
        out@ == replaced(text@, from, to@),
{
    let mut out = String::new();
    for c in it: text.chars()
        invariant
            out@ == replaced(it.seq().take(it.index() as int), from, to@),
            it.seq() == text@,
    {
        proof {
            assert(it.seq().take(it.index() + 1).drop_last() =~= it.seq().take(it.index() as int));
            assert(it.seq().take(it.index() + 1).last() == c);
        }
        if c == from {
            push_text(&mut out, to);
        } else {
            out.push(c);
        }
        assert(out@ =~= replaced(it.seq().take(it.index() + 1), from, to@));
    }
    assert(text@.take(text@.len() as int) =~= text@);
    out
}

/// What stands before and after the first occurrence of `separator`.
pub open spec fn cut(text: Seq<char>, separator: char) -> Option<(Seq<char>, Seq<char>)>
    decreases text.len(),
{
    if text.len() == 0 {
        None
    } else if text[0] == separator {
        Some((Seq::empty(), text.drop_first()))
    } else {
        match cut(text.drop_first(), separator) {
            Some((head, tail)) => Some((seq![text[0]] + head, tail)),
            None => None,
        }
    }
}

proof fn cut_at(text: Seq<char>, separator: char, at: int)
    requires
        0 <= at < text.len(),
        text[at] == separator,
        forall|k: int| 0 <= k < at ==> #[trigger] text[k] != separator,
    ensures
        cut(text, separator) == Some((text.take(at), text.skip(at + 1))),
    decreases at,
{
    let rest = text.drop_first();
    if at == 0 {
        assert(text.take(0) =~= Seq::empty());
        assert(text.skip(1) =~= rest);
    } else {
        assert(text[0] != separator);
        assert forall|k: int| 0 <= k < at - 1 implies #[trigger] rest[k] != separator by {
            assert(text[k + 1] != separator);
        }
        cut_at(rest, separator, at - 1);
        assert(seq![text[0]] + rest.take(at - 1) =~= text.take(at));
        assert(rest.skip(at) =~= text.skip(at + 1));
    }
}

proof fn cut_nowhere(text: Seq<char>, separator: char)
    requires
        forall|k: int| 0 <= k < text.len() ==> #[trigger] text[k] != separator,
    ensures
        cut(text, separator) is None,
    decreases text.len(),
{
    if text.len() > 0 {
        assert(text[0] != separator);
        let rest = text.drop_first();
        assert forall|k: int| 0 <= k < rest.len() implies #[trigger] rest[k] != separator by {
            assert(text[k + 1] != separator);
        }
        cut_nowhere(rest, separator);
    }
}

/// The two parts of a text around the first `separator` put the text together
/// again.
pub proof fn cut_parts_make_the_text(text: Seq<char>, separator: char)
    requires
        cut(text, separator) is Some,
    ensures
        text == (cut(text, separator)->0).0 + seq![separator] + (cut(text, separator)->0).1,
        !(cut(text, separator)->0).0.contains(separator),
    decreases text.len(),
{
    if text[0] == separator {
        assert(text =~= Seq::<char>::empty() + seq![separator] + text.drop_first());
    } else {
        cut_parts_make_the_text(text.drop_first(), separator);
        let (head, tail) = cut(text.drop_first(), separator)->0;
        assert(text =~= seq![text[0]] + text.drop_first());
        assert(text =~= (seq![text[0]] + head) + seq![separator] + tail);
        assert forall|k: int| 0 <= k < head.len() + 1 implies #[trigger] (seq![text[0]] + head)[k]
            != separator by {
            if k > 0 {
                assert(head[k - 1] != separator);
            }
        }
    }
}

pub fn split_once(text: &str, separator: char) -> (parts: Option<(String, String)>)
    ensures
        parts is None <==> cut(text@, separator) is None,
        parts matches Some((head, tail)) ==> cut(text@, separator) == Some((head@, tail@)),
{
    let chars = chars_of(text);
    let mut i: usize = 0;
    while i < chars.len()
        invariant
            i <= chars.len(),
            chars@ == text@,
            forall|k: int| 0 <= k < i ==> #[trigger] chars@[k] != separator,
        decreases chars.len() - i,
    {
        if chars[i] == separator {
            let head = slice_text(&chars, 0, i);
            let tail = slice_text(&chars, i + 1, chars.len());
            proof {
                cut_at(text@, separator, i as int);
                assert(head@ =~= text@.take(i as int));
                assert(tail@ =~= text@.skip(i + 1));
            }
            return Some((head, tail));
        }
        i += 1;
    }
    proof {
        cut_nowhere(text@, separator);
    }
    None
}

/// A copy of a list of texts.
pub fn copy_texts(list: &Vec<String>) -> (copy: Vec<String>)
    ensures
        copy@ == list@,
{
    let mut copy: Vec<String> = Vec::new();
    let mut i: usize = 0;
    while i < list.len()
        invariant
            i <= list.len(),
            copy@ == list@.take(i as int),
        decreases list.len() - i,
    {
        copy.push(list[i].clone());
        i += 1;
        assert(copy@ =~= list@.take(i as int));
    }
    assert(list@.take(list.len() as int) =~= list@);
    copy
}

/// A copy of an optional text.
pub fn copy_text(text: &Option<String>) -> (copy: Option<String>)
    ensures
        copy == *text,
{
    match text {
        Some(value) => Some(value.clone()),
        None => None,
    }
}

pub open spec fn optional_view(text: Option<String>) -> Option<Seq<char>> {
    match text {
        Some(value) => Some(value@),
        None => None,
    }
}

pub open spec fn optional_str_view(text: Option<&str>) -> Option<Seq<char>> {
    match text {
        Some(value) => Some(value@),
        None => None,
    }
}

/// A text without the whitespace at its start.
pub open spec fn trimmed_start(text: Seq<char>) -> Seq<char>
    decreases text.len(),
{
    if text.len() > 0 && is_whitespace(text[0]) {
        trimmed_start(text.drop_first())
    } else {
        text
    }
}

/// A text without the whitespace at its end.
pub open spec fn trimmed_end(text: Seq<char>) -> Seq<char>
    decreases text.len(),
{
    if text.len() > 0 && is_whitespace(text.last()) {
        trimmed_end(text.drop_last())
    } else {
        text
    }
}

/// A text without the whitespace at its ends.
pub open spec fn trimmed(text: Seq<char>) -> Seq<char> {
    trimmed_end(trimmed_start(text))
}

pub fn trim(text: &str) -> (inner: String)
    ensures
        inner@ == trimmed(text@),
{
    let chars = chars_of(text);
    let mut from: usize = 0;
    assert(chars@.skip(0) =~= chars@);
    while from < chars.len() && chars[from].is_whitespace()
        invariant
            from <= chars.len(),
            trimmed_start(chars@.skip(from as int)) == trimmed_start(chars@),
        decreases chars.len() - from,
    {
        assert(chars@.skip(from as int).drop_first() =~= chars@.skip(from + 1));
        from += 1;
    }
    let ghost body = chars@.skip(from as int);
    assert(trimmed_start(chars@) == body);
    let mut to: usize = chars.len();
    assert(chars@.subrange(from as int, to as int) =~= body);
    while to > from && chars[to - 1].is_whitespace()
        invariant
            from <= to <= chars.len(),
            trimmed_end(chars@.subrange(from as int, to as int)) == trimmed_end(body),
        decreases to,
    {
        assert(chars@.subrange(from as int, to as int).drop_last() =~= chars@.subrange(
            from as int,
            to - 1,
        ));
        to -= 1;
    }
    slice_text(&chars, from, to)
}

pub fn is_empty_text(text: &str) -> (empty: bool)
    ensures
        empty == (text@.len() == 0),
{
    chars_of(text).len() == 0
}

/// Whether a text is made of whitespace, or empty.
pub open spec fn is_blank(text: Seq<char>) -> bool {
    forall|i: int| 0 <= i < text.len() ==> is_whitespace(#[trigger] text[i])
}

/// Whether a text is a word: not empty, and without whitespace.
pub open spec fn is_one_word(text: Seq<char>) -> bool {
    text.len() > 0 && forall|i: int| 0 <= i < text.len() ==> !is_whitespace(#[trigger] text[i])
}

pub open spec fn all_words(list: Seq<Seq<char>>) -> bool {
    forall|i: int| 0 <= i < list.len() ==> is_one_word(#[trigger] list[i])
}

/// Whether the only whitespace of a text are single blanks between other
/// characters.
pub open spec fn is_single_spaced(text: Seq<char>) -> bool {
    forall|i: int|
        0 <= i < text.len() && is_whitespace(#[trigger] text[i]) ==> {
            &&& text[i] == ' '
            &&& 0 < i < text.len() - 1
            &&& !is_whitespace(text[i - 1])
            &&& !is_whitespace(text[i + 1])
        }
}

/// Whitespace alone holds no word.
pub proof fn blank_text_has_no_words(text: Seq<char>)
    ensures
        is_blank(text) <==> words(text).len() == 0,
    decreases text.len(),
{
    if text.len() > 0 {
        let front = text.drop_last();
        blank_text_has_no_words(front);
        if is_blank(text) {
            assert(is_whitespace(text[text.len() - 1]));
            assert forall|i: int| 0 <= i < front.len() implies is_whitespace(
                #[trigger] front[i],
            ) by {
                assert(is_whitespace(text[i]));
            }
        }
        if words(text).len() == 0 {
            assert forall|i: int| 0 <= i < text.len() implies is_whitespace(
                #[trigger] text[i],
            ) by {
                if i < front.len() {
                    assert(is_whitespace(front[i]));
                }
            }
        }
    }
}

/// The parts that a text is split into are words.
pub proof fn words_are_words(text: Seq<char>)
    ensures
        all_words(words(text)),
        text.len() > 0 && !is_whitespace(text.last()) ==> words(text).len() > 0,
    decreases text.len(),
{
    if text.len() > 0 {
        let front = text.drop_last();
        words_are_words(front);
        let c = text.last();
        if !is_whitespace(c) {
            if text.len() == 1 || is_whitespace(text[text.len() - 2]) {
                assert(is_one_word(seq![c]));
            } else {
                assert(front.last() == text[text.len() - 2]);
                let last = words(front).last();
                assert(is_one_word(last));
                assert forall|i: int| 0 <= i < last.push(c).len() implies !is_whitespace(
                    #[trigger] last.push(c)[i],
                ) by {
                    if i < last.len() {
                        assert(!is_whitespace(last[i]));
                    }
                }
                assert(is_one_word(last.push(c)));
            }
        }
    }
}

/// Whitespace, however much of it, parts the words before it from those after
/// it.
pub proof fn whitespace_parts_words(head: Seq<char>, gap: Seq<char>, tail: Seq<char>)
    requires
        gap.len() > 0,
        is_blank(gap),
    ensures
        words(head + gap + tail) == words(head) + words(tail),
    decreases gap.len() + tail.len(),
{
    let text = head + gap + tail;
    if tail.len() == 0 {
        assert(text =~= head + gap);
        assert(is_whitespace(gap[gap.len() - 1]));
        let less = gap.drop_last();
        assert(text.drop_last() =~= head + less);
        if less.len() > 0 {
            assert forall|i: int| 0 <= i < less.len() implies is_whitespace(
                #[trigger] less[i],
            ) by {
                assert(is_whitespace(gap[i]));
            }
            whitespace_parts_words(head, less, tail);
            assert(head + less + tail =~= head + less);
        } else {
            assert(head + less =~= head);
        }
        assert(words(head) + words(tail) =~= words(head));
    } else {
        let front = tail.drop_last();
        whitespace_parts_words(head, gap, front);
        assert(text.drop_last() =~= head + gap + front);
        assert(text.last() == tail.last());
        let c = tail.last();
        if is_whitespace(c) {
        } else if tail.len() == 1 {
            assert(text[text.len() - 2] == gap[gap.len() - 1]);
            assert(words(text) =~= words(head) + words(tail));
        } else {
            assert(text[text.len() - 2] == tail[tail.len() - 2]);
            if is_whitespace(tail[tail.len() - 2]) {
                assert(words(text) =~= words(head) + words(tail));
            } else {
                words_are_words(front);
                assert(front.last() == tail[tail.len() - 2]);
                let both = words(head) + words(front);
                assert(both.last() == words(front).last());
                assert(both.drop_last() =~= words(head) + words(front).drop_last());
                assert(words(text) =~= words(head) + words(tail));
            }
        }
    }
}

/// A word is the only word of itself.
pub proof fn one_word_is_its_words(word: Seq<char>)
    requires
        is_one_word(word),
    ensures
        words(word) == seq![word],
    decreases word.len(),
{
    assert(!is_whitespace(word[word.len() - 1]));
    let front = word.drop_last();
    if word.len() == 1 {
        assert(words(front) =~= Seq::<Seq<char>>::empty());
        assert(words(word) =~= seq![word]) by {
            assert(seq![word.last()] =~= word);
        }
    } else {
        assert forall|i: int| 0 <= i < front.len() implies !is_whitespace(#[trigger] front[i]) by {
            assert(!is_whitespace(word[i]));
        }
        one_word_is_its_words(front);
        assert(!is_whitespace(word[word.len() - 2]));
        assert(front.push(word.last()) =~= word);
        assert(words(word) =~= seq![word]);
    }
}

/// Joining words with single blanks and splitting the text again gives the
/// words back; the text is single-spaced.
pub proof fn splitting_undoes_joining(list: Seq<Seq<char>>)
    requires
        all_words(list),
    ensures
        words(join(list, seq![' '])) == list,
        is_single_spaced(join(list, seq![' '])),
        list.len() > 0 ==> join(list, seq![' ']).len() > 0 && !is_whitespace(
            join(list, seq![' ']).last(),
        ),
    decreases list.len(),
{
    let blank = seq![' '];
    let text = join(list, blank);
    if list.len() == 0 {
        assert(words(text) =~= list);
    } else if list.len() == 1 {
        assert(is_one_word(list[0]));
        one_word_is_its_words(list[0]);
        assert(list =~= seq![list[0]]);
        assert(!is_whitespace(text[text.len() - 1]));
    } else {
        let fewer = list.drop_last();
        let last = list.last();
        assert(is_one_word(list[list.len() - 1]));
        assert forall|i: int| 0 <= i < fewer.len() implies is_one_word(#[trigger] fewer[i]) by {
            assert(is_one_word(list[i]));
        }
        splitting_undoes_joining(fewer);
        let head = join(fewer, blank);
        whitespace_parts_words(head, blank, last);
        one_word_is_its_words(last);
        assert(fewer + seq![last] =~= list);
        assert(text == head + blank + last);
        assert(!is_whitespace(last[last.len() - 1]));
        assert forall|i: int| 0 <= i < text.len() && is_whitespace(#[trigger] text[i]) implies {
            &&& text[i] == ' '
            &&& 0 < i < text.len() - 1
            &&& !is_whitespace(text[i - 1])
            &&& !is_whitespace(text[i + 1])
        } by {
            if i < head.len() {
                assert(text[i] == head[i]);
                assert(is_whitespace(head[i]));
                assert(i < head.len() - 1);
                assert(text[i - 1] == head[i - 1]);
                assert(text[i + 1] == head[i + 1]);
            } else if i == head.len() {
                assert(text[i - 1] == head.last());
                assert(text[i + 1] == last[0]);
                assert(!is_whitespace(last[0]));
            } else {
                assert(text[i] == last[i - head.len() - 1]);
            }
        }
    }
}

/// A list of texts with their ASCII capitals turned into small letters.
pub open spec fn all_ascii_lowercase(list: Seq<Seq<char>>) -> Seq<Seq<char>> {
    list.map_values(|text: Seq<char>| ascii_lowercase(text))
}

/// The case of ASCII letters does not decide where words begin and end.
pub proof fn words_keep_apart_in_lowercase(text: Seq<char>)
    ensures
        words(ascii_lowercase(text)) == all_ascii_lowercase(words(text)),
    decreases text.len(),
{
    let lower = ascii_lowercase(text);
    if text.len() == 0 {
        assert(words(lower) =~= all_ascii_lowercase(words(text)));
    } else {
        let front = text.drop_last();
        words_keep_apart_in_lowercase(front);
        words_are_words(front);
        assert(lower.drop_last() =~= ascii_lowercase(front));
        let c = text.last();
        let rest = words(front);
        assert(lower.last() == ascii_lower(c));
        if text.len() > 1 {
            assert(lower[lower.len() - 2] == ascii_lower(text[text.len() - 2]));
            assert(front.last() == text[text.len() - 2]);
        }
        if is_whitespace(c) {
        } else if text.len() == 1 || is_whitespace(text[text.len() - 2]) {
            assert(ascii_lowercase(seq![c]) =~= seq![ascii_lower(c)]);
            assert(words(lower) =~= all_ascii_lowercase(words(text)));
        } else {
            assert(ascii_lowercase(rest.last().push(c)) =~= ascii_lowercase(rest.last()).push(
                ascii_lower(c),
            ));
            assert(all_ascii_lowercase(rest).last() == ascii_lowercase(rest.last()));
            assert(words(lower) =~= all_ascii_lowercase(words(text)));
        }
    }
}

/// Joining texts and turning their ASCII capitals into small letters can change
/// places, where the separator has no capitals.
pub proof fn lowercase_of_joined(list: Seq<Seq<char>>, separator: Seq<char>)
    requires
        ascii_lowercase(separator) == separator,
    ensures
        ascii_lowercase(join(list, separator)) == join(all_ascii_lowercase(list), separator),
    decreases list.len(),
{
    let lower = all_ascii_lowercase(list);
    if list.len() == 0 {
        assert(ascii_lowercase(join(list, separator)) =~= join(lower, separator));
    } else if list.len() > 1 {
        let head = join(list.drop_last(), separator);
        lowercase_of_joined(list.drop_last(), separator);
        assert(lower.drop_last() =~= all_ascii_lowercase(list.drop_last()));
        assert(ascii_lowercase(head + separator + list.last()) =~= ascii_lowercase(head)
            + ascii_lowercase(separator) + ascii_lowercase(list.last()));
    }
}

/// A text is cut at the first separator, into what stands before and behind it;
/// a text without one is not cut.
pub proof fn cutting_finds_the_first(head: Seq<char>, separator: char, tail: Seq<char>)
    requires
        !head.contains(separator),
    ensures
        cut(head + seq![separator] + tail, separator) == Some((head, tail)),
        cut(head, separator) is None,
{
    let text = head + seq![separator] + tail;
    let at = head.len() as int;
    assert forall|k: int| 0 <= k < at implies #[trigger] text[k] != separator by {
        assert(head[k] == text[k]);
    }
    cut_at(text, separator, at);
    assert(text.take(at) =~= head);
    assert(text.skip(at + 1) =~= tail);
    cut_nowhere(head, separator);
}

/// What stands between two texts occurs in the whole, what stands at the front
/// is a prefix and what stands at the end a suffix; and there is no other way to
/// occur, to begin or to end.
pub proof fn parts_occur_in_the_whole(front: Seq<char>, part: Seq<char>, back: Seq<char>)
    ensures
        occurs_in(part, front + part + back),
        has_prefix(part + back, part),
        has_suffix(front + part, part),
{
    let whole = front + part + back;
    let at = front.len() as int;
    assert(whole.subrange(at, at + part.len()) =~= part);
    assert(occurs_at(part, whole, at));
    assert((part + back).subrange(0, part.len() as int) =~= part);
    assert((front + part).subrange(at, at + part.len()) =~= part);
}

/// What occurs in a text, begins it or ends it has something before and behind
/// it that make up the text.
pub proof fn texts_are_made_of_their_parts(text: Seq<char>, part: Seq<char>)
    ensures
        occurs_in(part, text) ==> exists|front: Seq<char>, back: Seq<char>|
            text == #[trigger] (front + part + back),
        has_prefix(text, part) ==> exists|back: Seq<char>| text == #[trigger] (part + back),
        has_suffix(text, part) ==> exists|front: Seq<char>| text == #[trigger] (front + part),
{
    if occurs_in(part, text) {
        let at = choose|at: int| occurs_at(part, text, at);
        let front = text.take(at);
        let back = text.skip(at + part.len());
        assert forall|i: int| 0 <= i < part.len() implies text[at + i] == part[i] by {
            assert(text.subrange(at, at + part.len())[i] == part[i]);
        }
        assert(text =~= front + part + back);
    }
    if has_prefix(text, part) {
        assert forall|i: int| 0 <= i < part.len() implies text[i] == part[i] by {
            assert(text.subrange(0, part.len() as int)[i] == part[i]);
        }
        assert(text =~= part + text.skip(part.len() as int));
    }
    if has_suffix(text, part) {
        let at = text.len() - part.len();
        assert forall|i: int| 0 <= i < part.len() implies text[at + i] == part[i] by {
            assert(text.subrange(at, text.len() as int)[i] == part[i]);
        }
        assert(text =~= text.take(at) + part);
    }
}

/// Trimming takes the whitespace at both ends away, all of it and nothing else.
pub proof fn trimming_takes_the_ends(front: Seq<char>, body: Seq<char>, back: Seq<char>)
    requires
        is_blank(front),
        is_blank(back),
        body.len() > 0 ==> !is_whitespace(body[0]) && !is_whitespace(body.last()),
    ensures
        trimmed(front + body + back) == body,
    decreases front.len() + back.len(),
{
    let whole = front + body + back;
    if front.len() > 0 {
        assert(is_whitespace(front[0]));
        assert(whole[0] == front[0]);
        assert(whole.drop_first() =~= front.drop_first() + body + back);
        assert forall|i: int| 0 <= i < front.drop_first().len() implies is_whitespace(
            #[trigger] front.drop_first()[i],
        ) by {
            assert(is_whitespace(front[i + 1]));
        }
        trimming_takes_the_ends(front.drop_first(), body, back);
    } else if body.len() == 0 {
        assert(whole =~= back);
        blank_texts_are_trimmed_away(back);
    } else {
        assert(whole =~= body + back);
        assert(whole[0] == body[0]);
        assert(trimmed_start(whole) == whole);
        trailing_blanks_are_trimmed_away(body, back);
    }
}

proof fn blank_texts_are_trimmed_away(text: Seq<char>)
    requires
        is_blank(text),
    ensures
        trimmed_start(text).len() == 0,
        trimmed(text) == Seq::<char>::empty(),
    decreases text.len(),
{
    if text.len() > 0 {
        assert(is_whitespace(text[0]));
        assert forall|i: int| 0 <= i < text.drop_first().len() implies is_whitespace(
            #[trigger] text.drop_first()[i],
        ) by {
            assert(is_whitespace(text[i + 1]));
        }
        blank_texts_are_trimmed_away(text.drop_first());
    } else {
        assert(text =~= Seq::empty());
    }
    assert(trimmed_start(text) =~= Seq::empty());
}

proof fn trailing_blanks_are_trimmed_away(body: Seq<char>, back: Seq<char>)
    requires
        is_blank(back),
        body.len() > 0,
        !is_whitespace(body.last()),
    ensures
        trimmed_end(body + back) == body,
    decreases back.len(),
{
    let whole = body + back;
    if back.len() > 0 {
        assert(is_whitespace(back[back.len() - 1]));
        assert(whole.last() == back.last());
        assert(whole.drop_last() =~= body + back.drop_last());
        assert forall|i: int| 0 <= i < back.drop_last().len() implies is_whitespace(
            #[trigger] back.drop_last()[i],
        ) by {
            assert(is_whitespace(back[i]));
        }
        trailing_blanks_are_trimmed_away(body, back.drop_last());
    } else {
        assert(whole =~= body);
    }
}

/// The capitals from `A` to `Z` have the small letters in their places, and
/// every other character is left as it is.
pub proof fn capitals_have_small_letters(c: char, place: int)
    requires
        0 <= place < 26,
    ensures
        c == "ABCDEFGHIJKLMNOPQRSTUVWXYZ"@[place] ==> ascii_lower(c)
            == "abcdefghijklmnopqrstuvwxyz"@[place],
        !('A' <= c <= 'Z') ==> ascii_lower(c) == c,
{
    reveal_strlit("ABCDEFGHIJKLMNOPQRSTUVWXYZ");
    reveal_strlit("abcdefghijklmnopqrstuvwxyz");
    assert("ABCDEFGHIJKLMNOPQRSTUVWXYZ"@.len() == 26);
    assert("abcdefghijklmnopqrstuvwxyz"@.len() == 26);
    assert("ABCDEFGHIJKLMNOPQRSTUVWXYZ"@[place] as int == 65 + place);
    assert("abcdefghijklmnopqrstuvwxyz"@[place] as int == 97 + place);
}

/// Replacing goes character by character: each that is asked for is replaced and
/// every other stays, in its place.
pub proof fn replacing_goes_by_character(
    front: Seq<char>,
    c: char,
    from: char,
    to: Seq<char>,
)
    ensures
        replaced(front.push(c), from, to) == replaced(front, from, to) + (if c == from {
            to
        } else {
            seq![c]
        }),
        replaced(Seq::empty(), from, to) == Seq::<char>::empty(),
{
    assert(front.push(c).drop_last() =~= front);
    assert(front.push(c).last() == c);
}

} // verus!
