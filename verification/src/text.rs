use vstd::prelude::*;
use vstd::std_specs::iter::IteratorSpec;
use vstd::string::StrSliceExecFns;

verus! {

/// `String::push` appends the one character to the end of the string.
pub assume_specification[ String::push ](s: &mut String, c: char)
    ensures
        final(s)@ == old(s)@.push(c),
;

/// An optional string as an optional sequence of characters.
pub open spec fn option_view(text: Option<String>) -> Option<Seq<char>> {
    match text {
        Some(t) => Some(t@),
        None => None,
    }
}

/// A pair of alternative strings as sequences of characters.
pub open spec fn result_view(text: Result<String, String>) -> Result<Seq<char>, Seq<char>> {
    match text {
        Ok(t) => Ok(t@),
        Err(e) => Err(e@),
    }
}

/// The characters that carry the Unicode `White_Space` property.
pub open spec fn is_whitespace(c: char) -> bool {
    let n = c as u32;
    ||| 0x09 <= n <= 0x0D
    ||| n == 0x20
    ||| n == 0x85
    ||| n == 0xA0
    ||| n == 0x1680
    ||| 0x2000 <= n <= 0x200A
    ||| n == 0x2028
    ||| n == 0x2029
    ||| n == 0x202F
    ||| n == 0x205F
    ||| n == 0x3000
}

/// Tells whether `c` is a whitespace character.
pub fn char_is_whitespace(c: char) -> (b: bool)
    ensures
        b == is_whitespace(c),
{
    let n: u32 = c as u32;
    (0x09 <= n && n <= 0x0D) || n == 0x20 || n == 0x85 || n == 0xA0 || n == 0x1680 || (0x2000 <= n
        && n <= 0x200A) || n == 0x2028 || n == 0x2029 || n == 0x202F || n == 0x205F || n == 0x3000
}

/// The characters of `s`, in order, as a vector.
pub fn chars_of(s: &str) -> (chars: Vec<char>)
    ensures
        chars@ == s@,
{
    let mut chars: Vec<char> = Vec::new();
    for c in it: s.chars()
        invariant
            it.seq() == s@,
            chars@ == s@.take(it.index() as int),
    {
        chars.push(c);
        assert(s@.take(it.index() + 1) == s@.take(it.index() as int).push(c));
    }
    assert(s@.take(s@.len() as int) == s@);
    chars
}

/// The words of `s`: its maximal runs of characters that are not whitespace,
/// in the order in which they occur.
pub open spec fn words(s: Seq<char>) -> Seq<Seq<char>>
    decreases s.len(),
{
    if s.len() == 0 {
        Seq::empty()
    } else {
        let before = s.drop_last();
        let c = s.last();
        if is_whitespace(c) {
            words(before)
        } else if before.len() > 0 && !is_whitespace(before.last()) {
            let ws = words(before);
            ws.drop_last().push(ws.last().push(c))
        } else {
            words(before).push(seq![c])
        }
    }
}

/// The words `ws` written one after another with a single space between
/// neighbours.
pub open spec fn join_words(ws: Seq<Seq<char>>) -> Seq<char>
    decreases ws.len(),
{
    if ws.len() == 0 {
        Seq::empty()
    } else if ws.len() == 1 {
        ws[0]
    } else {
        join_words(ws.drop_last()) + seq![' '] + ws.last()
    }
}

/// `s` with every run of whitespace collapsed to one space and with no
/// whitespace at either end.
pub open spec fn normalized(s: Seq<char>) -> Seq<char> {
    join_words(words(s))
}

/// A text that ends in a character that is not whitespace has at least one
/// word, and its last word is not empty.
pub proof fn lemma_words_of_text_ending_in_word(s: Seq<char>)
    requires
        s.len() > 0,
        !is_whitespace(s.last()),
    ensures
        words(s).len() > 0,
        words(s).last().len() > 0,
        words(s).last().last() == s.last(),
    decreases s.len(),
{
    let before = s.drop_last();
    if before.len() > 0 && !is_whitespace(before.last()) {
        lemma_words_of_text_ending_in_word(before);
    }
}

/// Joining after a character was added to the last word adds that character
/// to the joined text.
pub proof fn lemma_join_extended_word(ws: Seq<Seq<char>>, c: char)
    requires
        ws.len() > 0,
    ensures
        join_words(ws.drop_last().push(ws.last().push(c))) == join_words(ws).push(c),
{
    let extended = ws.drop_last().push(ws.last().push(c));
    if ws.len() == 1 {
        assert(extended[0] == ws[0].push(c));
    } else {
        assert(extended.drop_last() == ws.drop_last());
        assert(join_words(extended) == join_words(ws.drop_last()) + seq![' '] + ws.last().push(
            c,
        ));
        assert(join_words(ws.drop_last()) + seq![' '] + ws.last().push(c) == (join_words(
            ws.drop_last(),
        ) + seq![' '] + ws.last()).push(c));
    }
}

/// Joining after a new word was added: the word follows a space, unless it
/// is the first.
pub proof fn lemma_join_new_word(ws: Seq<Seq<char>>, w: Seq<char>)
    ensures
        join_words(ws.push(w)) == if ws.len() == 0 {
            w
        } else {
            join_words(ws) + seq![' '] + w
        },
{
    assert(ws.push(w).drop_last() == ws);
}

/// How the normalized text grows with one more character: whitespace adds
/// nothing; a character that continues a word is added to it; a character
/// that begins a word is added after a space, unless it begins the first
/// word.
pub proof fn lemma_normalized_push(s: Seq<char>, c: char)
    ensures
        normalized(s.push(c)) == if is_whitespace(c) {
            normalized(s)
        } else if s.len() > 0 && !is_whitespace(s.last()) {
            normalized(s).push(c)
        } else if words(s).len() > 0 {
            normalized(s).push(' ').push(c)
        } else {
            seq![c]
        },
        words(s.push(c)).len() == if is_whitespace(c) {
            words(s).len()
        } else if s.len() > 0 && !is_whitespace(s.last()) {
            words(s).len()
        } else {
            words(s).len() + 1
        },
{
    assert(s.push(c).drop_last() == s);
    if !is_whitespace(c) {
        if s.len() > 0 && !is_whitespace(s.last()) {
            lemma_words_of_text_ending_in_word(s);
            lemma_join_extended_word(words(s), c);
        } else {
            lemma_join_new_word(words(s), seq![c]);
            if words(s).len() > 0 {
                assert(join_words(words(s)) + seq![' '] + seq![c] == join_words(words(s)).push(
                    ' ',
                ).push(c));
            }
        }
    }
}

/// Collapses every run of whitespace in `text` to one space and drops the
/// whitespace at both ends.
pub fn normalize_whitespace(text: &str) -> (out: String)
    ensures
        out@ == normalized(text@),
{
    let mut out = String::new();
    let mut started = false;
    let mut pending = false;
    for c in it: text.chars()
        invariant
            it.seq() == text@,
            out@ == normalized(text@.take(it.index() as int)),
            started == (words(text@.take(it.index() as int)).len() > 0),
            pending == (started && it.index() > 0 && is_whitespace(text@[it.index() - 1])),
    {
        proof {
            let before = text@.take(it.index() as int);
            assert(text@.take(it.index() + 1) == before.push(c));
            lemma_normalized_push(before, c);
            if before.len() > 0 && !is_whitespace(before.last()) {
                lemma_words_of_text_ending_in_word(before);
            }
        }
        if char_is_whitespace(c) {
            if started {
                pending = true;
            }
        } else {
            if pending {
                out.push(' ');
                pending = false;
            }
            out.push(c);
            started = true;
            assert(seq![c] == Seq::<char>::empty().push(c));
        }
    }
    assert(text@.take(text@.len() as int) == text@);
    out
}

/// Counts the words of `text`.
pub fn word_count(text: &str) -> (count: usize)
    ensures
        count == words(text@).len(),
{
    let chars = chars_of(text);
    let mut count: usize = 0;
    let mut in_word = false;
    let mut i: usize = 0;
    while i < chars.len()
        invariant
            i <= chars.len(),
            count == words(chars@.take(i as int)).len(),
            count <= i,
            in_word == (i > 0 && !is_whitespace(chars@[i - 1])),
        decreases chars.len() - i,
    {
        let c = chars[i];
        let ghost before = chars@.take(i as int);
        let ghost now = chars@.take(i + 1);
        assert(now.drop_last() == before);
        assert(now.last() == c);
        if char_is_whitespace(c) {
            in_word = false;
        } else {
            if !in_word {
                count = count + 1;
            } else {
                proof {
                    lemma_words_of_text_ending_in_word(before);
                }
            }
            in_word = true;
        }
        i = i + 1;
    }
    assert(chars@.take(chars@.len() as int) == chars@);
    count
}

/// `s` without the whitespace at its beginning.
pub open spec fn trimmed_start(s: Seq<char>) -> Seq<char>
    decreases s.len(),
{
    if s.len() > 0 && is_whitespace(s[0]) {
        trimmed_start(s.skip(1))
    } else {
        s
    }
}

/// `s` without the whitespace at its end.
pub open spec fn trimmed_end(s: Seq<char>) -> Seq<char>
    decreases s.len(),
{
    if s.len() > 0 && is_whitespace(s.last()) {
        trimmed_end(s.drop_last())
    } else {
        s
    }
}

/// `s` without the whitespace at its two ends.
pub open spec fn trimmed(s: Seq<char>) -> Seq<char> {
    trimmed_end(trimmed_start(s))
}

/// The number of characters of `s` that stand before its first line feed;
/// the length of `s` where it has none.
pub open spec fn line_break(s: Seq<char>) -> nat
    decreases s.len(),
{
    if s.len() == 0 || s[0] == '\n' {
        0
    } else {
        1 + line_break(s.skip(1))
    }
}

/// The first line of `s`, without the line feed that ends it and without
/// the carriage return that may stand before that line feed.
pub open spec fn first_line(s: Seq<char>) -> Seq<char> {
    let cut = line_break(s);
    if 0 < cut < s.len() && s[cut - 1] == '\r' {
        s.take(cut - 1)
    } else {
        s.take(cut as int)
    }
}

/// Cuts the whitespace off the two ends of `text`.
pub fn trim(text: &str) -> (inner: &str)
    ensures
        inner@ == trimmed(text@),
{
    let chars = chars_of(text);
    let mut start: usize = 0;
    assert(chars@.skip(0) == chars@);
    while start < chars.len() && char_is_whitespace(chars[start])
        invariant
            start <= chars.len(),
            trimmed_start(chars@) == trimmed_start(chars@.skip(start as int)),
        decreases chars.len() - start,
    {
        assert(chars@.skip(start as int).skip(1) == chars@.skip(start + 1));
        start = start + 1;
    }
    let mut end: usize = chars.len();
    assert(chars@.subrange(start as int, end as int) == chars@.skip(start as int));
    while end > start && char_is_whitespace(chars[end - 1])
        invariant
            start <= end <= chars.len(),
            trimmed(chars@) == trimmed_end(chars@.subrange(start as int, end as int)),
        decreases end - start,
    {
        assert(chars@.subrange(start as int, end as int).drop_last() == chars@.subrange(
            start as int,
            end - 1,
        ));
        end = end - 1;
    }
    text.substring_char(start, end)
}

/// Cuts the first line out of `text`.
pub fn first_line_of(text: &str) -> (line: &str)
    ensures
        line@ == first_line(text@),
{
    let chars = chars_of(text);
    let mut cut: usize = 0;
    assert(chars@.skip(0) == chars@);
    while cut < chars.len() && chars[cut] != '\n'
        invariant
            cut <= chars.len(),
            line_break(chars@) == cut + line_break(chars@.skip(cut as int)),
        decreases chars.len() - cut,
    {
        assert(chars@.skip(cut as int).skip(1) == chars@.skip(cut + 1));
        cut = cut + 1;
    }
    if 0 < cut && cut < chars.len() && chars[cut - 1] == '\r' {
        text.substring_char(0, cut - 1)
    } else {
        text.substring_char(0, cut)
    }
}

/// A text of words: it neither begins nor ends with whitespace, its only
/// whitespace is the space, and no two spaces stand side by side.
pub open spec fn is_normal(s: Seq<char>) -> bool {
    &&& s.len() > 0 ==> !is_whitespace(s[0]) && !is_whitespace(s.last())
    &&& forall|i: int| 0 <= i < s.len() && is_whitespace(#[trigger] s[i]) ==> s[i] == ' '
    &&& forall|i: int|
        0 <= i < s.len() - 1 ==> !(is_whitespace(#[trigger] s[i]) && is_whitespace(s[i + 1]))
}

/// Tells whether every character of `t` is a space or a character of `s`
/// that is not whitespace.
pub open spec fn drawn_from(t: Seq<char>, s: Seq<char>) -> bool {
    forall|i: int|
        0 <= i < t.len() ==> #[trigger] t[i] == ' ' || (!is_whitespace(t[i]) && s.contains(t[i]))
}

/// A normalized text is empty exactly when the text has no word, and ends
/// with the last character of the text where that is no whitespace.
proof fn lemma_normalized_end(s: Seq<char>)
    ensures
        (normalized(s).len() > 0) == (words(s).len() > 0),
        normalized(s).len() > 0 ==> !is_whitespace(normalized(s).last()),
        is_normal(normalized(s)),
        drawn_from(normalized(s), s),
    decreases s.len(),
{
    if s.len() > 0 {
        let before = s.drop_last();
        let c = s.last();
        assert(before.push(c) == s);
        lemma_normalized_end(before);
        lemma_normalized_push(before, c);
        let t = normalized(before);
        let r = normalized(s);
        assert forall|i: int| 0 <= i < r.len() implies #[trigger] r[i] == ' ' || (!is_whitespace(
            r[i],
        ) && s.contains(r[i])) by {
            if i < t.len() && r[i] == t[i] {
                if t[i] != ' ' {
                    let k = choose|k: int| 0 <= k < before.len() && before[k] == t[i];
                    assert(s[k] == t[i]);
                }
            } else if r[i] != ' ' {
                assert(r[i] == c);
                assert(s[s.len() - 1] == c);
            }
        }
    }
}

/// The normalized text is a text of words, made of spaces and of the
/// characters of the text that are not whitespace.
pub proof fn law_normalized_is_normal(s: Seq<char>)
    ensures
        is_normal(normalized(s)),
        drawn_from(normalized(s), s),
{
    lemma_normalized_end(s);
}

/// No word is empty and no word holds whitespace.
pub proof fn lemma_words_are_solid(s: Seq<char>)
    ensures
        forall|k: int|
            0 <= k < words(s).len() ==> (#[trigger] words(s)[k]).len() > 0 && forall|i: int|
                0 <= i < words(s)[k].len() ==> !is_whitespace(#[trigger] words(s)[k][i]),
    decreases s.len(),
{
    if s.len() > 0 {
        lemma_words_are_solid(s.drop_last());
        let before = s.drop_last();
        if !is_whitespace(s.last()) && before.len() > 0 && !is_whitespace(before.last()) {
            lemma_words_of_text_ending_in_word(before);
        }
    }
}

/// A word written after a text that is empty or ends in whitespace is one
/// more word of the whole.
proof fn lemma_words_with_word_added(x: Seq<char>, w: Seq<char>)
    requires
        x.len() == 0 || is_whitespace(x.last()),
        w.len() > 0,
        forall|i: int| 0 <= i < w.len() ==> !is_whitespace(#[trigger] w[i]),
    ensures
        words(x + w) == words(x).push(w),
    decreases w.len(),
{
    let head = w.drop_last();
    let c = w.last();
    assert((x + w).drop_last() == x + head);
    if head.len() == 0 {
        assert(x + head == x);
        assert(seq![c] == w);
    } else {
        lemma_words_with_word_added(x, head);
        assert((x + head).last() == head.last());
        assert(words(x).push(head).drop_last() == words(x));
        assert(head.push(c) == w);
    }
}

/// The words of joined words are those words.
proof fn lemma_words_of_joined(ws: Seq<Seq<char>>)
    requires
        forall|k: int|
            0 <= k < ws.len() ==> (#[trigger] ws[k]).len() > 0 && forall|i: int|
                0 <= i < ws[k].len() ==> !is_whitespace(#[trigger] ws[k][i]),
    ensures
        words(join_words(ws)) == ws,
    decreases ws.len(),
{
    if ws.len() == 1 {
        lemma_words_with_word_added(Seq::empty(), ws[0]);
        assert(Seq::<char>::empty() + ws[0] == ws[0]);
        assert(Seq::<Seq<char>>::empty().push(ws[0]) == ws);
    } else if ws.len() > 1 {
        let front = ws.drop_last();
        lemma_words_of_joined(front);
        let x = join_words(front) + seq![' '];
        assert(x.drop_last() == join_words(front));
        assert(words(x) == front);
        lemma_words_with_word_added(x, ws.last());
        assert(front.push(ws.last()) == ws);
    }
}

/// Normalization keeps the words, and so the word count; a text that is
/// normalized already stays as it is.
pub proof fn law_normalization_keeps_words(s: Seq<char>)
    ensures
        words(normalized(s)) == words(s),
        normalized(normalized(s)) == normalized(s),
{
    lemma_words_are_solid(s);
    lemma_words_of_joined(words(s));
}

/// The normalized text is no longer than the text, and shorter where the
/// text ends in whitespace after a word.
proof fn lemma_normalized_length(s: Seq<char>)
    ensures
        normalized(s).len() <= s.len(),
        words(s).len() > 0 && is_whitespace(s.last()) ==> normalized(s).len() < s.len(),
    decreases s.len(),
{
    if s.len() > 0 {
        let before = s.drop_last();
        assert(before.push(s.last()) == s);
        lemma_normalized_length(before);
        lemma_normalized_push(before, s.last());
        if before.len() > 0 && !is_whitespace(before.last()) {
            lemma_words_of_text_ending_in_word(before);
        }
    }
}

/// Normalization never makes a text longer.
pub proof fn law_normalized_is_no_longer(s: Seq<char>)
    ensures
        normalized(s).len() <= s.len(),
{
    lemma_normalized_length(s);
}

} // verus!
