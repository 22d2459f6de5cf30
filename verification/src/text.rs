//! Plain text: trimming, lines, decimal numbers and short forms.

use vstd::prelude::*;
use vstd::utf8::*;

verus! {

/// The characters that count as white space (Unicode's `White_Space` property).
pub open spec fn white_space(c: char) -> bool {
    ||| '\u{9}' <= c <= '\u{d}'
    ||| c == '\u{20}'
    ||| c == '\u{85}'
    ||| c == '\u{a0}'
    ||| c == '\u{1680}'
    ||| '\u{2000}' <= c <= '\u{200a}'
    ||| c == '\u{2028}'
    ||| c == '\u{2029}'
    ||| c == '\u{202f}'
    ||| c == '\u{205f}'
    ||| c == '\u{3000}'
}

/// `char::is_whitespace`, which tests Unicode's `White_Space` property.
pub assume_specification[ char::is_whitespace ](c: char) -> (answer: bool)
    ensures
        answer == white_space(c),
;

/// `String::push`, which appends one character.
pub assume_specification[ String::push ](text: &mut String, c: char)
    ensures
        final(text)@ == old(text)@.push(c),
;

/// `text` without the characters at its front that `unwanted` picks.
pub open spec fn drop_front(text: Seq<char>, unwanted: spec_fn(char) -> bool) -> Seq<char>
    decreases text.len(),
{
    if text.len() > 0 && unwanted(text.first()) {
        drop_front(text.drop_first(), unwanted)
    } else {
        text
    }
}

/// `text` without the characters at its end that `unwanted` picks.
pub open spec fn drop_back(text: Seq<char>, unwanted: spec_fn(char) -> bool) -> Seq<char>
    decreases text.len(),
{
    if text.len() > 0 && unwanted(text.last()) {
        drop_back(text.drop_last(), unwanted)
    } else {
        text
    }
}

/// `text` without white space at either end.
pub open spec fn trimmed(text: Seq<char>) -> Seq<char> {
    drop_back(drop_front(text, |c: char| white_space(c)), |c: char| white_space(c))
}

/// `url` without slashes at its end.
pub open spec fn without_end_slashes(url: Seq<char>) -> Seq<char> {
    drop_back(url, |c: char| c == '/')
}

/// Dropping stops at the first character that is to stay.
proof fn lemma_drop_front(text: Seq<char>, unwanted: spec_fn(char) -> bool, k: int)
    requires
        0 <= k <= text.len(),
        forall|i: int| 0 <= i < k ==> unwanted(#[trigger] text[i]),
        k < text.len() ==> !unwanted(text[k]),
    ensures
        drop_front(text, unwanted) == text.skip(k),
    decreases k,
{
    if k > 0 {
        assert(unwanted(text[0]));
        let rest = text.drop_first();
        assert forall|i: int| 0 <= i < k - 1 implies unwanted(#[trigger] rest[i]) by {
            assert(unwanted(text[i + 1]));
        }
        lemma_drop_front(rest, unwanted, k - 1);
        assert(rest.skip(k - 1) =~= text.skip(k));
    } else {
        assert(text.skip(0) =~= text);
    }
}

/// Dropping stops at the last character that is to stay.
proof fn lemma_drop_back(text: Seq<char>, unwanted: spec_fn(char) -> bool, k: int)
    requires
        0 <= k <= text.len(),
        forall|i: int| k <= i < text.len() ==> unwanted(#[trigger] text[i]),
        k > 0 ==> !unwanted(text[k - 1]),
    ensures
        drop_back(text, unwanted) == text.take(k),
    decreases text.len() - k,
{
    if k < text.len() {
        assert(unwanted(text[text.len() - 1]));
        let rest = text.drop_last();
        assert forall|i: int| k <= i < rest.len() implies unwanted(#[trigger] rest[i]) by {
            assert(unwanted(text[i]));
        }
        lemma_drop_back(rest, unwanted, k);
        assert(rest.take(k) =~= text.take(k));
    } else {
        assert(text.take(k) =~= text);
    }
}

/// The characters of `text`, one by one.
fn chars_of(text: &str) -> (chars: Vec<char>)
    ensures
        chars@ == text@,
{
    let mut chars: Vec<char> = Vec::new();
    for c in it: text.chars()
        invariant
            it.seq() == text@,
            chars@ == text@.take(it.index() as int),
    {
        chars.push(c);
        assert(text@.take(it.index() + 1) =~= text@.take(it.index() as int).push(c));
    }
    assert(text@.take(text@.len() as int) =~= text@);
    chars
}

/// `text` without white space at either end.
pub fn trim(text: &str) -> (short: String)
    ensures
        short@ == trimmed(text@),
{
    let chars = chars_of(text);
    let mut start: usize = 0;
    while start < chars.len() && chars[start].is_whitespace()
        invariant
            start <= chars@.len(),
            forall|i: int| 0 <= i < start ==> white_space(#[trigger] chars@[i]),
        decreases chars@.len() - start,
    {
        start = start + 1;
    }
    let mut end: usize = chars.len();
    while end > start && chars[end - 1].is_whitespace()
        invariant
            start <= end <= chars@.len(),
            forall|i: int| end <= i < chars@.len() ==> white_space(#[trigger] chars@[i]),
        decreases end,
    {
        end = end - 1;
    }
    proof {
        let unwanted = |c: char| white_space(c);
        lemma_drop_front(text@, unwanted, start as int);
        let rest = text@.skip(start as int);
        assert forall|i: int| end - start <= i < rest.len() implies unwanted(#[trigger] rest[i]) by {
            assert(rest[i] == chars@[i + start]);
        }
        lemma_drop_back(rest, unwanted, end - start);
        assert(rest.take(end - start) =~= text@.subrange(start as int, end as int));
    }
    text.substring_char(start, end).to_owned()
}

/// `url` without slashes at its end.
pub fn trim_end_slashes(url: &str) -> (short: String)
    ensures
        short@ == without_end_slashes(url@),
{
    let chars = chars_of(url);
    let mut end: usize = chars.len();
    while end > 0 && chars[end - 1] == '/'
        invariant
            end <= chars@.len(),
            forall|i: int| end <= i < chars@.len() ==> #[trigger] chars@[i] == '/',
        decreases end,
    {
        end = end - 1;
    }
    proof {
        let unwanted = |c: char| c == '/';
        lemma_drop_back(url@, unwanted, end as int);
        assert(url@.take(end as int) =~= url@.subrange(0, end as int));
    }
    url.substring_char(0, end).to_owned()
}

/// `line` without one carriage return at its end.
pub open spec fn without_return(line: Seq<char>) -> Seq<char> {
    if line.len() > 0 && line.last() == '\r' {
        line.drop_last()
    } else {
        line
    }
}

/// The lines of `text`. A line ends with a line feed, or with a carriage return and a line feed;
/// the last line may lack its end.
pub open spec fn text_lines(text: Seq<char>) -> Seq<Seq<char>>
    decreases text.len(),
{
    match text.index_of_first('\n') {
        Some(i) => if 0 <= i < text.len() {
            seq![without_return(text.take(i))] + text_lines(text.skip(i + 1))
        } else {
            Seq::empty()
        },
        None => if text.len() == 0 {
            Seq::empty()
        } else {
            seq![text]
        },
    }
}

/// What `lines` hold, one by one.
pub open spec fn strings_view(lines: Seq<String>) -> Seq<Seq<char>> {
    lines.map_values(|line: String| line@)
}

/// The first line of a text whose first line feed is known.
pub(crate) proof fn lemma_first_line(line: Seq<char>, rest: Seq<char>)
    requires
        forall|i: int| 0 <= i < line.len() ==> #[trigger] line[i] != '\n',
    ensures
        text_lines(line + seq!['\n'] + rest) == seq![without_return(line)] + text_lines(rest),
{
    let text = line + seq!['\n'] + rest;
    text.index_of_first_ensures('\n');
    assert(text[line.len() as int] == '\n');
    assert(text.contains('\n'));
    let i = text.index_of_first('\n')->0;
    assert(i == line.len()) by {
        if i < line.len() {
            assert(text[i] == line[i]);
        }
    }
    assert(text.take(i) =~= line);
    assert(text.skip(i + 1) =~= rest);
}

/// A text without a line feed is one line, or none where it is empty.
pub(crate) proof fn lemma_only_line(line: Seq<char>)
    requires
        forall|i: int| 0 <= i < line.len() ==> #[trigger] line[i] != '\n',
    ensures
        text_lines(line) == (if line.len() == 0 {
            Seq::<Seq<char>>::empty()
        } else {
            seq![line]
        }),
{
    line.index_of_first_ensures('\n');
}

/// The lines of `text`.
pub fn split_lines(text: &str) -> (lines: Vec<String>)
    ensures
        strings_view(lines@) == text_lines(text@),
{
    let mut lines: Vec<String> = Vec::new();
    let mut line = String::new();
    assert(strings_view(lines@) + text_lines(line@ + text@.skip(0)) =~= text_lines(text@)) by {
        assert(line@ + text@.skip(0) =~= text@);
    }
    for c in it: text.chars()
        invariant
            it.seq() == text@,
            forall|i: int| 0 <= i < line@.len() ==> #[trigger] line@[i] != '\n',
            text_lines(text@) == strings_view(lines@) + text_lines(
                line@ + text@.skip(it.index() as int),
            ),
    {
        let ghost n = it.index() as int;
        let ghost shown = strings_view(lines@);
        let ghost was = line@;
        assert(text@.skip(n) =~= seq![c] + text@.skip(n + 1));
        if c == '\n' {
            proof {
                lemma_first_line(was, text@.skip(n + 1));
                assert(was + text@.skip(n) =~= was + seq!['\n'] + text@.skip(n + 1));
            }
            let done = strip_return(&line);
            lines.push(done);
            line = String::new();
            assert(strings_view(lines@) =~= shown.push(without_return(was)));
            assert(line@ + text@.skip(n + 1) =~= text@.skip(n + 1));
            assert(shown.push(without_return(was)) + text_lines(text@.skip(n + 1)) =~= shown + (
            seq![without_return(was)] + text_lines(text@.skip(n + 1))));
        } else {
            line.push(c);
            assert(line@ + text@.skip(n + 1) =~= was + text@.skip(n));
        }
    }
    let ghost shown = strings_view(lines@);
    proof {
        assert(line@ + text@.skip(text@.len() as int) =~= line@);
        lemma_only_line(line@);
    }
    if !line.as_str().is_empty() {
        let ghost last = line@;
        lines.push(line);
        assert(strings_view(lines@) =~= shown + seq![last]);
    } else {
        assert(shown + Seq::<Seq<char>>::empty() =~= shown);
    }
    lines
}

/// `line` without one carriage return at its end.
fn strip_return(line: &String) -> (short: String)
    ensures
        short@ == without_return(line@),
{
    let n = line.as_str().unicode_len();
    if n > 0 && line.as_str().get_char(n - 1) == '\r' {
        assert(line@.subrange(0, n - 1) =~= line@.drop_last());
        line.as_str().substring_char(0, n - 1).to_owned()
    } else {
        line.clone()
    }
}

/// The digit that stands for `d`.
pub open spec fn digit(d: int) -> char
    recommends
        0 <= d < 10,
{
    "0123456789"@[d]
}

/// `n` in decimal digits, without leading zeros.
pub open spec fn decimal(n: nat) -> Seq<char>
    decreases n,
{
    if n < 10 {
        seq![digit(n as int)]
    } else {
        decimal(n / 10).push(digit((n % 10) as int))
    }
}

/// `n` in decimal digits, without leading zeros.
pub fn decimal_text(n: u64) -> (digits: String)
    ensures
        digits@ == decimal(n as nat),
    decreases n,
{
    let mut digits = if n < 10 {
        String::new()
    } else {
        decimal_text(n / 10)
    };
    proof {
        reveal_strlit("0123456789");
        assert(seq![digit((n % 10) as int)] =~= Seq::<char>::empty().push(digit((n % 10) as int)));
    }
    digits.push("0123456789".get_char((n % 10) as usize));
    digits
}

/// The smaller of `limit` and the number of bytes of `text`.
pub open spec fn head_len(text: Seq<char>, limit: nat) -> int {
    let len = encode_utf8(text).len();
    if limit < len {
        limit as int
    } else {
        len as int
    }
}

/// Cutting `text` after `limit` bytes, if it has that many, cuts no character in two.
pub open spec fn head_is_whole(text: Seq<char>, limit: nat) -> bool {
    is_char_boundary(encode_utf8(text), head_len(text, limit))
}

/// The first `limit` bytes of `text`, or all of it where it has no more than that.
pub open spec fn head(text: Seq<char>, limit: nat) -> Seq<char> {
    decode_utf8(encode_utf8(text).take(head_len(text, limit)))
}

/// Whether cutting `text` after `limit` bytes, if it has that many, cuts no character in two.
pub fn cuts_whole(text: &str, limit: usize) -> (answer: bool)
    ensures
        answer == head_is_whole(text@, limit as nat),
{
    let len = text.as_bytes().len();
    let cut = if limit < len {
        limit
    } else {
        len
    };
    text.is_char_boundary(cut)
}

/// The first `limit` bytes of `text`, or all of it where it has no more than that.
pub fn short_form(text: &str, limit: usize) -> (short: String)
    requires
        head_is_whole(text@, limit as nat),
    ensures
        short@ == head(text@, limit as nat),
{
    let len = text.as_bytes().len();
    let cut = if limit < len {
        limit
    } else {
        len
    };
    let (front, rest) = text.split_at(cut);
    proof {
        encode_utf8_decode_utf8(front@);
        assert(encode_utf8(text@).take(cut as int) =~= encode_utf8(text@).subrange(0, cut as int));
    }
    front.to_owned()
}

/// A short form is the front of the text.
pub proof fn law_short_form_is_front(text: Seq<char>, limit: nat)
    requires
        head_is_whole(text, limit),
    ensures
        head(text, limit).is_prefix_of(text),
        encode_utf8(head(text, limit)).len() <= limit,
{
    let bytes = encode_utf8(text);
    let cut = head_len(text, limit);
    encode_utf8_valid_utf8(text);
    encode_utf8_decode_utf8(text);
    decode_utf8_split(bytes, cut);
    valid_utf8_split(bytes, cut);
    assert(bytes.take(cut) =~= bytes.subrange(0, cut));
    decode_utf8_encode_utf8(bytes.subrange(0, cut));
    let rest = decode_utf8(bytes.subrange(cut, bytes.len() as int));
    assert(text =~= head(text, limit) + rest);
    assert(head(text, limit) =~= text.subrange(0, head(text, limit).len() as int));
}

/// A text of ASCII characters alone can be cut anywhere, and loses what comes after the cut.
pub proof fn law_short_form_of_ascii(text: Seq<char>, limit: nat)
    requires
        is_ascii_chars(text),
    ensures
        head_is_whole(text, limit),
        head(text, limit) == text.take(if limit < text.len() { limit as int } else { text.len() as int }),
{
    let cut = if limit < text.len() {
        limit as int
    } else {
        text.len() as int
    };
    is_ascii_chars_encode_utf8(text);
    let front = text.take(cut);
    assert(is_ascii_chars(front));
    is_ascii_chars_encode_utf8(front);
    encode_utf8_valid_utf8(text);
    let bytes = encode_utf8(text);
    if cut == bytes.len() {
        is_char_boundary_start_end_of_seq(bytes);
    } else {
        is_char_boundary_iff_not_is_continuation_byte(bytes, cut);
        assert(bytes[cut] == text[cut] as u8);
        assert(text[cut] as u32 <= 127);
    }
    assert(bytes.take(cut) =~= encode_utf8(front));
    encode_utf8_decode_utf8(front);
}

/// Trimming twice is trimming once, and what is left has no white space at either end.
pub proof fn law_trimmed(text: Seq<char>)
    ensures
        trimmed(trimmed(text)) == trimmed(text),
        trimmed(text).len() > 0 ==> !white_space(trimmed(text).first()) && !white_space(
            trimmed(text).last(),
        ),
{
    let unwanted = |c: char| white_space(c);
    let front = drop_front(text, unwanted);
    lemma_dropped_front(text, unwanted);
    lemma_dropped_back(front, unwanted);
    let short = trimmed(text);
    if short.len() > 0 {
        assert(short.first() == front.first());
    }
    assert(drop_front(short, unwanted) == short);
    assert(drop_back(short, unwanted) == short);
}

/// What is left after dropping at the front starts with a character that is to stay.
proof fn lemma_dropped_front(text: Seq<char>, unwanted: spec_fn(char) -> bool)
    ensures
        drop_front(text, unwanted).len() > 0 ==> !unwanted(drop_front(text, unwanted).first()),
    decreases text.len(),
{
    if text.len() > 0 && unwanted(text.first()) {
        lemma_dropped_front(text.drop_first(), unwanted);
    }
}

/// What is left after dropping at the end is a front that ends with a character that is to stay.
proof fn lemma_dropped_back(text: Seq<char>, unwanted: spec_fn(char) -> bool)
    ensures
        drop_back(text, unwanted).len() <= text.len(),
        drop_back(text, unwanted) == text.take(drop_back(text, unwanted).len() as int),
        drop_back(text, unwanted).len() > 0 ==> !unwanted(drop_back(text, unwanted).last()),
    decreases text.len(),
{
    if text.len() > 0 && unwanted(text.last()) {
        lemma_dropped_back(text.drop_last(), unwanted);
        let short = drop_back(text, unwanted);
        assert(text.drop_last().take(short.len() as int) =~= text.take(short.len() as int));
    } else {
        assert(text.take(text.len() as int) =~= text);
    }
}

/// What is appended to a text of whole lines adds its own lines at the end.
pub proof fn law_lines_append(text: Seq<char>, more: Seq<char>)
    requires
        text.len() > 0 ==> text.last() == '\n',
    ensures
        text_lines(text + more) == text_lines(text) + text_lines(more),
    decreases text.len(),
{
    text.index_of_first_ensures('\n');
    match text.index_of_first('\n') {
        Some(i) => {
            let line = text.take(i);
            let rest = text.skip(i + 1);
            assert(forall|j: int| 0 <= j < line.len() ==> #[trigger] line[j] == text[j]);
            assert(text =~= line + seq!['\n'] + rest);
            assert(text + more =~= line + seq!['\n'] + (rest + more));
            lemma_first_line(line, rest);
            lemma_first_line(line, rest + more);
            law_lines_append(rest, more);
            assert(seq![without_return(line)] + (text_lines(rest) + text_lines(more)) =~= seq![
                without_return(line),
            ] + text_lines(rest) + text_lines(more));
        },
        None => {
            if text.len() > 0 {
                assert(text[text.len() - 1] == '\n');
                assert(text.contains('\n'));
            }
            assert(text + more =~= more);
            assert(text_lines(text) + text_lines(more) =~= text_lines(more));
        },
    }
}

/// What is dropped at the front is unwanted, and no more than the front goes.
proof fn lemma_dropped_front_is_unwanted(text: Seq<char>, unwanted: spec_fn(char) -> bool)
    ensures
        drop_front(text, unwanted).len() <= text.len(),
        drop_front(text, unwanted) == text.skip(text.len() - drop_front(text, unwanted).len()),
        forall|i: int|
            0 <= i < text.len() - drop_front(text, unwanted).len() ==> unwanted(#[trigger] text[i]),
    decreases text.len(),
{
    if text.len() > 0 && unwanted(text.first()) {
        let rest = text.drop_first();
        lemma_dropped_front_is_unwanted(rest, unwanted);
        let k = text.len() - drop_front(text, unwanted).len();
        assert(rest.skip(k - 1) =~= text.skip(k));
        assert forall|i: int| 0 <= i < k implies unwanted(#[trigger] text[i]) by {
            if i > 0 {
                assert(rest[i - 1] == text[i]);
            }
        }
    } else {
        assert(text.skip(0) =~= text);
    }
}

/// What is dropped at the end is unwanted.
proof fn lemma_dropped_back_is_unwanted(text: Seq<char>, unwanted: spec_fn(char) -> bool)
    ensures
        forall|i: int|
            drop_back(text, unwanted).len() <= i < text.len() ==> unwanted(#[trigger] text[i]),
    decreases text.len(),
{
    if text.len() > 0 && unwanted(text.last()) {
        let rest = text.drop_last();
        lemma_dropped_back_is_unwanted(rest, unwanted);
        assert forall|i: int| drop_back(text, unwanted).len() <= i < text.len() implies unwanted(
            #[trigger] text[i],
        ) by {
            if i < rest.len() {
                assert(rest[i] == text[i]);
            }
        }
    }
}

/// Trimming takes white space away at the two ends and nothing else.
pub proof fn law_trimming_takes_white_space_only(text: Seq<char>)
    ensures
        exists|a: int, b: int|
            {
                &&& 0 <= a <= b <= text.len()
                &&& trimmed(text) == #[trigger] text.subrange(a, b)
                &&& forall|i: int| 0 <= i < a ==> white_space(#[trigger] text[i])
                &&& forall|i: int| b <= i < text.len() ==> white_space(#[trigger] text[i])
            },
{
    let unwanted = |c: char| white_space(c);
    let front = drop_front(text, unwanted);
    let a = text.len() - front.len();
    lemma_dropped_front_is_unwanted(text, unwanted);
    lemma_dropped_back(front, unwanted);
    lemma_dropped_back_is_unwanted(front, unwanted);
    let b = a + trimmed(text).len();
    assert(trimmed(text) =~= text.subrange(a, b));
    assert forall|i: int| 0 <= i < a implies white_space(#[trigger] text[i]) by {
        assert(unwanted(text[i]));
    }
    assert forall|i: int| b <= i < text.len() implies white_space(#[trigger] text[i]) by {
        assert(text[i] == front[i - a]);
        assert(unwanted(front[i - a]));
    }
}

/// Something is left of a text exactly where it holds a character that is no white space.
pub proof fn law_trimmed_to_nothing(text: Seq<char>)
    ensures
        trimmed(text).len() > 0 <==> exists|i: int|
            0 <= i < text.len() && !white_space(#[trigger] text[i]),
{
    law_trimming_takes_white_space_only(text);
    law_trimmed(text);
    let (a, b) = choose|a: int, b: int|
        {
            &&& 0 <= a <= b <= text.len()
            &&& trimmed(text) == #[trigger] text.subrange(a, b)
            &&& forall|i: int| 0 <= i < a ==> white_space(#[trigger] text[i])
            &&& forall|i: int| b <= i < text.len() ==> white_space(#[trigger] text[i])
        };
    if trimmed(text).len() > 0 {
        assert(!white_space(text[a]));
    }
}

/// Slashes are taken away at the end and nothing else, until none is left there.
pub proof fn law_end_slashes_go(url: Seq<char>)
    ensures
        without_end_slashes(url).len() <= url.len(),
        without_end_slashes(url) == url.take(without_end_slashes(url).len() as int),
        forall|i: int| without_end_slashes(url).len() <= i < url.len() ==> #[trigger] url[i] == '/',
        without_end_slashes(url).len() > 0 ==> without_end_slashes(url).last() != '/',
{
    let unwanted = |c: char| c == '/';
    lemma_dropped_back(url, unwanted);
    lemma_dropped_back_is_unwanted(url, unwanted);
    assert forall|i: int| without_end_slashes(url).len() <= i < url.len() implies #[trigger] url[i]
        == '/' by {
        assert(unwanted(url[i]));
    }
}

/// A text without a line feed is one line as it stands, the empty text none; a line feed behind it
/// makes it a line without the carriage return that it may end with, and is no line of its own.
pub proof fn law_one_line(line: Seq<char>)
    requires
        forall|i: int| 0 <= i < line.len() ==> #[trigger] line[i] != '\n',
    ensures
        line.len() == 0 ==> text_lines(line) == Seq::<Seq<char>>::empty(),
        line.len() > 0 ==> text_lines(line) == seq![line],
        text_lines(line.push('\n')) == seq![
            if line.len() > 0 && line.last() == '\r' {
                line.drop_last()
            } else {
                line
            },
        ],
{
    lemma_only_line(line);
    lemma_first_line(line, Seq::empty());
    lemma_only_line(Seq::empty());
    assert(line + seq!['\n'] + Seq::<char>::empty() =~= line.push('\n'));
    assert(seq![without_return(line)] + Seq::<Seq<char>>::empty() =~= seq![without_return(line)]);
}

/// The number that a row of decimal digits stands for.
pub open spec fn digits_value(digits: Seq<char>) -> int
    decreases digits.len(),
{
    if digits.len() == 0 {
        0
    } else {
        digits_value(digits.drop_last()) * 10 + (digits.last() as int - '0' as int)
    }
}

/// The ten digits are those from `0` up.
pub(crate) proof fn lemma_digit(d: int)
    requires
        0 <= d < 10,
    ensures
        digit(d) as int == '0' as int + d,
{
    reveal_strlit("0123456789");
}

/// A number in decimal is made of digits, starts with no zero unless it is a zero, and stands for
/// that number.
pub proof fn law_decimal_stands_for_its_number(n: nat)
    ensures
        digits_value(decimal(n)) == n,
        decimal(n).len() > 0,
        decimal(n).len() > 1 ==> decimal(n)[0] != '0',
        forall|i: int| 0 <= i < decimal(n).len() ==> '0' <= #[trigger] decimal(n)[i] <= '9',
    decreases n,
{
    reveal_with_fuel(digits_value, 2);
    if n < 10 {
        lemma_digit(n as int);
        assert(decimal(n).drop_last() =~= Seq::empty());
    } else {
        lemma_digit((n % 10) as int);
        law_decimal_stands_for_its_number(n / 10);
        assert(decimal(n).drop_last() =~= decimal(n / 10));
        if n / 10 < 10 {
            lemma_digit((n / 10) as int);
        }
    }
}

/// A short form has as many bytes as the limit allows, and is the whole text where that fits; it
/// can be made where the cut is at the end of a character.
pub proof fn law_short_form_fills_its_limit(text: Seq<char>, limit: nat)
    ensures
        limit < encode_utf8(text).len() ==> head_is_whole(text, limit) == is_char_boundary(
            encode_utf8(text),
            limit as int,
        ),
        limit >= encode_utf8(text).len() ==> head_is_whole(text, limit) && head(text, limit) == text,
        head_is_whole(text, limit) && limit < encode_utf8(text).len() ==> encode_utf8(
            head(text, limit),
        ) == encode_utf8(text).take(limit as int),
{
    let bytes = encode_utf8(text);
    encode_utf8_valid_utf8(text);
    encode_utf8_decode_utf8(text);
    is_char_boundary_start_end_of_seq(bytes);
    assert(bytes.take(bytes.len() as int) =~= bytes);
    if head_is_whole(text, limit) {
        let cut = head_len(text, limit);
        valid_utf8_split(bytes, cut);
        assert(bytes.take(cut) =~= bytes.subrange(0, cut));
        decode_utf8_encode_utf8(bytes.subrange(0, cut));
    }
}

/// Each string of a list stands for its characters.
pub proof fn law_strings_view(lines: Seq<String>)
    ensures
        strings_view(lines).len() == lines.len(),
        forall|i: int| 0 <= i < lines.len() ==> #[trigger] strings_view(lines)[i] == lines[i]@,
{
}

/// A text can be cut at a limit exactly where it is no longer than that, or a character ends there.
pub proof fn law_cutting(text: &str, limit: usize, answer: bool)
    requires
        call_ensures(cuts_whole, (text, limit), answer),
    ensures
        answer <==> limit >= encode_utf8(text@).len() || is_char_boundary(
            encode_utf8(text@),
            limit as int,
        ),
{
    law_short_form_fills_its_limit(text@, limit as nat);
}

} // verus!
