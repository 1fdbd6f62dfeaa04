//! Text as sequences of characters: UTF-8 lengths, decimal numbers, splitting,
//! trimming and replacing, each proved against a definition over `Seq<char>`.
use vstd::prelude::*;
use vstd::utf8::encode_scalar;
use vstd::utf8::encode_utf8;

verus! {

/// `String::push` appends one character at the end.
pub assume_specification[ String::push ](s: &mut String, ch: char)
    ensures
        final(s)@ == old(s)@.push(ch),
;

/// `String::push_str` appends the given text at the end.
pub assume_specification[ String::push_str ](s: &mut String, text: &str)
    ensures
        final(s)@ == old(s)@ + text@,
;

/// The characters with the Unicode `White_Space` property.
pub open spec fn white_space(ch: char) -> bool {
    ||| 0x9 <= ch as u32 <= 0xd
    ||| ch as u32 == 0x20
    ||| ch as u32 == 0x85
    ||| ch as u32 == 0xa0
    ||| ch as u32 == 0x1680
    ||| 0x2000 <= ch as u32 <= 0x200a
    ||| ch as u32 == 0x2028
    ||| ch as u32 == 0x2029
    ||| ch as u32 == 0x202f
    ||| ch as u32 == 0x205f
    ||| ch as u32 == 0x3000
}

/// `char::is_whitespace` answers whether a character has the Unicode
/// `White_Space` property.
pub assume_specification[ char::is_whitespace ](ch: char) -> (b: bool)
    ensures
        b == white_space(ch),
;

/// The lowercase form of a text.
pub uninterp spec fn lowercase(text: Seq<char>) -> Seq<char>;

/// `str::to_lowercase` gives the Unicode lowercase equivalent of the text,
/// which depends on the text alone. Of the mapping itself only one point is
/// stated: the empty text maps to itself.
#[verifier::external_body]
pub(crate) fn to_lowercase(text: &str) -> (r: String)
    ensures
        r@ == lowercase(text@),
        text@.len() == 0 ==> r@.len() == 0,
{
    text.to_lowercase()
}

// ---------------------------------------------------------------------------
// UTF-8 lengths
// ---------------------------------------------------------------------------

/// Number of bytes that a text takes in UTF-8.
pub open spec fn byte_len(text: Seq<char>) -> nat {
    encode_utf8(text).len()
}

/// Number of bytes that a character takes in UTF-8.
pub open spec fn char_bytes(ch: char) -> nat {
    if (ch as u32) < 0x80 {
        1
    } else if (ch as u32) < 0x800 {
        2
    } else if (ch as u32) < 0x10000 {
        3
    } else {
        4
    }
}

pub proof fn lemma_char_bytes(ch: char)
    ensures
        encode_scalar(ch as u32).len() == char_bytes(ch),
{
}

pub proof fn lemma_byte_len_push(text: Seq<char>, ch: char)
    ensures
        byte_len(text.push(ch)) == byte_len(text) + char_bytes(ch),
    decreases text.len(),
{
    lemma_char_bytes(ch);
    reveal_with_fuel(encode_utf8, 2);
    if text.len() == 0 {
        assert(text.push(ch).drop_first() =~= Seq::<char>::empty());
    } else {
        assert(text.push(ch).drop_first() =~= text.drop_first().push(ch));
        lemma_byte_len_push(text.drop_first(), ch);
    }
}

pub proof fn lemma_encode_concat(a: Seq<char>, b: Seq<char>)
    ensures
        encode_utf8(a + b) == encode_utf8(a) + encode_utf8(b),
    decreases a.len(),
{
    if a.len() == 0 {
        assert(a + b =~= b);
        assert(encode_utf8(a) =~= Seq::<u8>::empty());
    } else {
        assert((a + b).drop_first() =~= a.drop_first() + b);
        lemma_encode_concat(a.drop_first(), b);
        assert(encode_utf8(a + b) =~= encode_scalar(a[0] as u32) + (encode_utf8(a.drop_first())
            + encode_utf8(b)));
    }
}

pub proof fn lemma_byte_len_concat(a: Seq<char>, b: Seq<char>)
    ensures
        byte_len(a + b) == byte_len(a) + byte_len(b),
{
    lemma_encode_concat(a, b);
}

/// Every character takes at least one byte.
pub proof fn lemma_byte_len_bounds(text: Seq<char>)
    ensures
        text.len() <= byte_len(text) <= 4 * text.len(),
    decreases text.len(),
{
    if text.len() > 0 {
        lemma_char_bytes(text[0]);
        lemma_byte_len_bounds(text.drop_first());
    }
}

/// Byte offsets grow strictly with the number of characters before them.
pub proof fn lemma_byte_len_take(text: Seq<char>, i: int, j: int)
    requires
        0 <= i <= j <= text.len(),
    ensures
        byte_len(text.take(j)) == byte_len(text.take(i)) + byte_len(text.subrange(i, j)),
        i < j ==> byte_len(text.take(i)) < byte_len(text.take(j)),
{
    assert(text.take(j) =~= text.take(i) + text.subrange(i, j));
    lemma_byte_len_concat(text.take(i), text.subrange(i, j));
    lemma_byte_len_bounds(text.subrange(i, j));
}

pub proof fn lemma_byte_len_step(text: Seq<char>, i: int)
    requires
        0 <= i < text.len(),
    ensures
        byte_len(text.take(i + 1)) == byte_len(text.take(i)) + char_bytes(text[i]),
{
    assert(text.take(i + 1) =~= text.take(i).push(text[i]));
    lemma_byte_len_push(text.take(i), text[i]);
}

/// Number of bytes that `ch` takes in UTF-8.
pub fn char_len(ch: char) -> (n: usize)
    ensures
        n == char_bytes(ch),
        1 <= n <= 4,
{
    let code: u32 = ch as u32;
    if code < 0x80 {
        1
    } else if code < 0x800 {
        2
    } else if code < 0x10000 {
        3
    } else {
        4
    }
}

/// Length of `text` in bytes.
pub fn str_len(text: &str) -> (n: usize)
    ensures
        n == byte_len(text@),
{
    text.as_bytes().len()
}

/// The characters of `text`, in order.
pub fn chars_of(text: &str) -> (r: Vec<char>)
    ensures
        r@ == text@,
{
    let mut out: Vec<char> = Vec::new();
    for ch in it: text.chars()
        invariant
            it.seq() == text@,
            out@ == text@.take(it.index() as int),
    {
        out.push(ch);
    }
    out
}

/// The text made of the characters `chars[start..end]`.
pub fn string_of(chars: &Vec<char>, start: usize, end: usize) -> (r: String)
    requires
        start <= end <= chars@.len(),
    ensures
        r@ == chars@.subrange(start as int, end as int),
{
    let mut out: String = String::new();
    let mut i: usize = start;
    while i < end
        invariant
            start <= i <= end <= chars@.len(),
            out@ == chars@.subrange(start as int, i as int),
        decreases end - i,
    {
        out.push(chars[i]);
        proof {
            assert(chars@.subrange(start as int, i + 1) =~= chars@.subrange(
                start as int,
                i as int,
            ).push(chars@[i as int]));
        }
        i += 1;
    }
    out
}

/// `text` as an owned string.
pub fn owned(text: &str) -> (r: String)
    ensures
        r@ == text@,
{
    let mut out: String = String::new();
    out.push_str(text);
    assert(out@ =~= text@);
    out
}

// ---------------------------------------------------------------------------
// Building text
// ---------------------------------------------------------------------------

pub open spec fn repeated(ch: char, n: nat) -> Seq<char> {
    Seq::new(n, |i: int| ch)
}

/// `n` times the character `ch`.
pub fn repeat_char(ch: char, n: usize) -> (r: String)
    ensures
        r@ == repeated(ch, n as nat),
{
    let mut out: String = String::new();
    let mut i: usize = 0;
    while i < n
        invariant
            i <= n,
            out@ =~= repeated(ch, i as nat),
        decreases n - i,
    {
        out.push(ch);
        i += 1;
    }
    out
}

pub open spec fn digit(d: nat) -> char {
    if d == 0 {
        '0'
    } else if d == 1 {
        '1'
    } else if d == 2 {
        '2'
    } else if d == 3 {
        '3'
    } else if d == 4 {
        '4'
    } else if d == 5 {
        '5'
    } else if d == 6 {
        '6'
    } else if d == 7 {
        '7'
    } else if d == 8 {
        '8'
    } else {
        '9'
    }
}

/// The decimal numeral of `n`, without leading zeros.
pub open spec fn numeral(n: nat) -> Seq<char>
    decreases n,
{
    if n < 10 {
        seq![digit(n)]
    } else {
        numeral(n / 10).push(digit(n % 10))
    }
}

fn digit_char(d: u8) -> (r: char)
    requires
        d < 10,
    ensures
        r == digit(d as nat),
{
    match d {
        0 => '0',
        1 => '1',
        2 => '2',
        3 => '3',
        4 => '4',
        5 => '5',
        6 => '6',
        7 => '7',
        8 => '8',
        _ => '9',
    }
}

/// The decimal numeral of `n`.
pub fn decimal(n: u128) -> (r: String)
    ensures
        r@ == numeral(n as nat),
    decreases n,
{
    if n < 10 {
        let mut out: String = String::new();
        out.push(digit_char(n as u8));
        assert(out@ =~= numeral(n as nat));
        out
    } else {
        let mut out: String = decimal(n / 10);
        out.push(digit_char((n % 10) as u8));
        out
    }
}

/// `text` padded on the left with blanks to `width` characters.
pub open spec fn padded_left(text: Seq<char>, width: nat) -> Seq<char> {
    if text.len() < width {
        repeated(' ', (width - text.len()) as nat) + text
    } else {
        text
    }
}

/// `text` right-aligned in a field of `width` characters.
pub fn pad_left(text: &str, width: usize) -> (r: String)
    ensures
        r@ == padded_left(text@, width as nat),
{
    let chars: Vec<char> = chars_of(text);
    if chars.len() < width {
        let mut out: String = repeat_char(' ', width - chars.len());
        out.push_str(text);
        out
    } else {
        owned(text)
    }
}

// ---------------------------------------------------------------------------
// Comparing and searching
// ---------------------------------------------------------------------------

/// Whether two texts hold the same characters.
pub fn same_text(a: &str, b: &str) -> (r: bool)
    ensures
        r == (a@ == b@),
{
    let x: Vec<char> = chars_of(a);
    let y: Vec<char> = chars_of(b);
    if x.len() != y.len() {
        return false;
    }
    let mut i: usize = 0;
    while i < x.len()
        invariant
            x@ == a@,
            y@ == b@,
            x@.len() == y@.len(),
            i <= x@.len(),
            forall|k: int| 0 <= k < i ==> x@[k] == y@[k],
        decreases x@.len() - i,
    {
        if x[i] != y[i] {
            assert(a@[i as int] != b@[i as int]);
            return false;
        }
        i += 1;
    }
    assert(a@ =~= b@);
    true
}

pub open spec fn occurs_at(text: Seq<char>, pattern: Seq<char>, i: int) -> bool {
    0 <= i && i + pattern.len() <= text.len() && text.subrange(i, i + pattern.len()) == pattern
}

/// Whether `pattern` stands at the start of `text`.
pub open spec fn starts_with(text: Seq<char>, pattern: Seq<char>) -> bool {
    occurs_at(text, pattern, 0)
}

/// Whether `pattern` stands somewhere in `text`.
pub open spec fn contains_text(text: Seq<char>, pattern: Seq<char>) -> bool {
    exists|i: int| occurs_at(text, pattern, i)
}

fn matches_at(text: &Vec<char>, pattern: &Vec<char>, at: usize) -> (r: bool)
    ensures
        r == occurs_at(text@, pattern@, at as int),
{
    if at > text.len() || text.len() - at < pattern.len() {
        return false;
    }
    let mut i: usize = 0;
    while i < pattern.len()
        invariant
            at + pattern.len() <= text.len(),
            i <= pattern@.len(),
            forall|k: int| 0 <= k < i ==> text@[at + k] == pattern@[k],
        decreases pattern@.len() - i,
    {
        if text[at + i] != pattern[i] {
            assert(text@.subrange(at as int, at + pattern@.len())[i as int] != pattern@[i as int]);
            return false;
        }
        i += 1;
    }
    assert(text@.subrange(at as int, at + pattern@.len()) =~= pattern@);
    true
}

/// Whether `text` begins with `pattern`.
pub fn text_starts_with(text: &str, pattern: &str) -> (r: bool)
    ensures
        r == starts_with(text@, pattern@),
{
    matches_at(&chars_of(text), &chars_of(pattern), 0)
}

/// Whether `pattern` occurs in `text`.
pub fn text_contains(text: &str, pattern: &str) -> (r: bool)
    ensures
        r == contains_text(text@, pattern@),
{
    let hay: Vec<char> = chars_of(text);
    let needle: Vec<char> = chars_of(pattern);
    if needle.len() > hay.len() {
        return false;
    }
    let last: usize = hay.len() - needle.len();
    let mut i: usize = 0;
    while i <= last
        invariant
            hay@ == text@,
            needle@ == pattern@,
            needle@.len() <= hay@.len(),
            last == hay@.len() - needle@.len(),
            i <= last + 1,
            forall|k: int| 0 <= k < i ==> !occurs_at(text@, pattern@, k),
        decreases last + 1 - i,
    {
        if matches_at(&hay, &needle, i) {
            return true;
        }
        if i == last {
            return false;
        }
        i += 1;
    }
    false
}

// ---------------------------------------------------------------------------
// Splitting
// ---------------------------------------------------------------------------

/// The pieces of `text` between the occurrences of `sep`; one more than there
/// are separators.
pub open spec fn split_on(text: Seq<char>, sep: char) -> Seq<Seq<char>>
    decreases text.len(),
{
    if text.len() == 0 {
        seq![Seq::<char>::empty()]
    } else {
        let parts = split_on(text.drop_last(), sep);
        if text.last() == sep {
            parts.push(Seq::<char>::empty())
        } else {
            parts.drop_last().push(parts.last().push(text.last()))
        }
    }
}

pub open spec fn texts(parts: Seq<String>) -> Seq<Seq<char>> {
    parts.map_values(|p: String| p@)
}

pub proof fn lemma_split_nonempty(text: Seq<char>, sep: char)
    ensures
        split_on(text, sep).len() > 0,
    decreases text.len(),
{
    if text.len() > 0 {
        lemma_split_nonempty(text.drop_last(), sep);
    }
}

/// Splits `text` at every `sep`.
pub fn split_text(text: &str, sep: char) -> (r: Vec<String>)
    ensures
        texts(r@) == split_on(text@, sep),
        r@.len() > 0,
{
    let chars: Vec<char> = chars_of(text);
    let mut done: Vec<String> = Vec::new();
    let mut current: String = String::new();
    let mut i: usize = 0;
    assert(texts(done@).push(current@) =~= split_on(chars@.take(0), sep));
    while i < chars.len()
        invariant
            chars@ == text@,
            i <= chars@.len(),
            texts(done@).push(current@) == split_on(chars@.take(i as int), sep),
        decreases chars@.len() - i,
    {
        let ch: char = chars[i];
        let ghost before = texts(done@).push(current@);
        proof {
            assert(chars@.take(i + 1).drop_last() =~= chars@.take(i as int));
        }
        if ch == sep {
            let ghost old_done = done@;
            done.push(current);
            current = String::new();
            assert(texts(done@) =~= before);
        } else {
            current.push(ch);
            assert(before.drop_last() =~= texts(done@));
        }
        i += 1;
        assert(texts(done@).push(current@) =~= split_on(chars@.take(i as int), sep));
    }
    assert(chars@.take(i as int) =~= text@);
    let ghost before = texts(done@).push(current@);
    done.push(current);
    assert(texts(done@) =~= before);
    done
}

pub open spec fn without_trailing(text: Seq<char>, ch: char) -> Seq<char> {
    if text.len() > 0 && text.last() == ch {
        text.drop_last()
    } else {
        text
    }
}

/// The lines of `text`: a line ends at a line feed, or at a carriage return
/// followed by a line feed; the last line needs no terminator.
pub open spec fn lines_of(text: Seq<char>) -> Seq<Seq<char>> {
    let parts = split_on(text, '\n');
    let ended = parts.drop_last().map_values(|p: Seq<char>| without_trailing(p, '\r'));
    if parts.last().len() == 0 {
        ended
    } else {
        ended.push(parts.last())
    }
}

/// `text` without its last character if that is `ch`.
pub fn strip_last(text: &str, ch: char) -> (r: String)
    ensures
        r@ == without_trailing(text@, ch),
{
    let chars: Vec<char> = chars_of(text);
    let n: usize = chars.len();
    if n > 0 && chars[n - 1] == ch {
        let out: String = string_of(&chars, 0, n - 1);
        assert(out@ =~= text@.drop_last());
        out
    } else {
        owned(text)
    }
}

/// The lines of `text`, without their terminators.
pub fn text_lines(text: &str) -> (r: Vec<String>)
    ensures
        texts(r@) == lines_of(text@),
{
    let parts: Vec<String> = split_text(text, '\n');
    let last: usize = parts.len() - 1;
    let mut out: Vec<String> = Vec::new();
    let ghost all = split_on(text@, '\n');
    let ghost ended = all.drop_last().map_values(|p: Seq<char>| without_trailing(p, '\r'));
    let mut i: usize = 0;
    assert(texts(out@) =~= ended.take(0));
    while i < last
        invariant
            texts(parts@) == all,
            last == parts@.len() - 1,
            i <= last,
            ended == all.drop_last().map_values(|p: Seq<char>| without_trailing(p, '\r')),
            texts(out@) == ended.take(i as int),
        decreases last - i,
    {
        let ghost before = texts(out@);
        let line: String = strip_last(parts[i].as_str(), '\r');
        out.push(line);
        proof {
            assert(texts(parts@)[i as int] == parts@[i as int]@);
            assert(texts(out@) =~= before.push(line@));
            assert(ended.take(i + 1) =~= ended.take(i as int).push(ended[i as int]));
        }
        i += 1;
    }
    assert(texts(parts@)[last as int] == parts@[last as int]@);
    assert(ended.take(last as int) =~= ended);
    if !parts[last].as_str().is_empty() {
        let ghost before = texts(out@);
        let tail: String = parts[last].clone();
        out.push(tail);
        assert(texts(out@) =~= before.push(tail@));
    }
    out
}

/// The lines of a text, each with the line feed that ends it.
pub open spec fn ended_lines(text: Seq<char>) -> Seq<Seq<char>>
    decreases text.len(),
{
    if text.len() == 0 {
        Seq::empty()
    } else {
        let before = ended_lines(text.drop_last());
        if text.len() == 1 || text[text.len() - 2] == '\n' {
            before.push(seq![text.last()])
        } else {
            before.drop_last().push(before.last().push(text.last()))
        }
    }
}

proof fn lemma_some_ended_line(text: Seq<char>)
    requires
        text.len() > 0,
    ensures
        ended_lines(text).len() > 0,
{
}

/// Cuts `text` behind every line feed.
pub fn lines_with_endings(text: &str) -> (r: Vec<String>)
    ensures
        texts(r@) == ended_lines(text@),
{
    let chars: Vec<char> = chars_of(text);
    let mut lines: Vec<String> = Vec::new();
    let mut i: usize = 0;
    assert(texts(lines@) =~= ended_lines(chars@.take(0)));
    while i < chars.len()
        invariant
            i <= chars@.len(),
            texts(lines@) == ended_lines(chars@.take(i as int)),
        decreases chars@.len() - i,
    {
        let ghost before = texts(lines@);
        let ghost head = chars@.take(i + 1);
        assert(head.drop_last() =~= chars@.take(i as int));
        let mut line: String = String::new();
        if i > 0 && chars[i - 1] != '\n' {
            proof {
                lemma_some_ended_line(chars@.take(i as int));
                assert(texts(lines@).len() == lines@.len());
            }
            if let Some(last) = lines.pop() {
                line = last;
            }
            assert(texts(lines@) =~= before.drop_last());
            assert(line@ == before.last());
        }
        let ghost kept = texts(lines@);
        line.push(chars[i]);
        let ghost added = line@;
        lines.push(line);
        proof {
            assert(texts(lines@) =~= kept.push(added));
            if i == 0 || chars@[i - 1] == '\n' {
                assert(added =~= seq![chars@[i as int]]);
            }
            assert(texts(lines@) =~= ended_lines(head));
        }
        i += 1;
    }
    assert(chars@.take(i as int) =~= chars@);
    lines
}

// ---------------------------------------------------------------------------
// Trimming
// ---------------------------------------------------------------------------

pub open spec fn trim_start(text: Seq<char>) -> Seq<char>
    decreases text.len(),
{
    if text.len() > 0 && white_space(text[0]) {
        trim_start(text.drop_first())
    } else {
        text
    }
}

pub open spec fn trim_end(text: Seq<char>) -> Seq<char>
    decreases text.len(),
{
    if text.len() > 0 && white_space(text.last()) {
        trim_end(text.drop_last())
    } else {
        text
    }
}

/// `text` without the white space at its two ends.
pub open spec fn trimmed(text: Seq<char>) -> Seq<char> {
    trim_end(trim_start(text))
}

/// Removes the white space at both ends of `text`.
pub fn trim(text: &str) -> (r: String)
    ensures
        r@ == trimmed(text@),
{
    let chars: Vec<char> = chars_of(text);
    let n: usize = chars.len();
    let mut start: usize = 0;
    assert(chars@.subrange(0, n as int) =~= chars@);
    while start < n && chars[start].is_whitespace()
        invariant
            n == chars@.len(),
            start <= n,
            trim_start(chars@) == trim_start(chars@.subrange(start as int, n as int)),
        decreases n - start,
    {
        proof {
            let rest = chars@.subrange(start as int, n as int);
            assert(rest.drop_first() =~= chars@.subrange(start + 1, n as int));
        }
        start += 1;
    }
    let mut end: usize = n;
    let ghost middle = chars@.subrange(start as int, n as int);
    assert(trim_start(chars@) == middle);
    while end > start && chars[end - 1].is_whitespace()
        invariant
            n == chars@.len(),
            start <= end <= n,
            middle == chars@.subrange(start as int, n as int),
            trim_end(middle) == trim_end(chars@.subrange(start as int, end as int)),
        decreases end,
    {
        proof {
            let rest = chars@.subrange(start as int, end as int);
            assert(rest.drop_last() =~= chars@.subrange(start as int, end - 1));
        }
        end -= 1;
    }
    string_of(&chars, start, end)
}

/// `text` without any trailing occurrences of `a` or `b`.
pub open spec fn trim_end_chars(text: Seq<char>, a: char, b: char) -> Seq<char>
    decreases text.len(),
{
    if text.len() > 0 && (text.last() == a || text.last() == b) {
        trim_end_chars(text.drop_last(), a, b)
    } else {
        text
    }
}

/// Removes every trailing `a` and `b` from `text`.
pub fn trim_end_of(text: &str, a: char, b: char) -> (r: String)
    ensures
        r@ == trim_end_chars(text@, a, b),
{
    let chars: Vec<char> = chars_of(text);
    let mut end: usize = chars.len();
    assert(chars@.subrange(0, end as int) =~= chars@);
    while end > 0 && (chars[end - 1] == a || chars[end - 1] == b)
        invariant
            end <= chars@.len(),
            trim_end_chars(chars@, a, b) == trim_end_chars(chars@.subrange(0, end as int), a, b),
        decreases end,
    {
        assert(chars@.subrange(0, end as int).drop_last() =~= chars@.subrange(0, end - 1));
        end -= 1;
    }
    string_of(&chars, 0, end)
}

// ---------------------------------------------------------------------------
// Line breaks
// ---------------------------------------------------------------------------

/// `text` with every line break (`\r\n`, `\r` or `\n`) turned into `brk` and
/// every tab into `tab`.
pub open spec fn with_breaks(text: Seq<char>, brk: char, tab: char) -> Seq<char>
    decreases text.len(),
{
    if text.len() == 0 {
        Seq::empty()
    } else {
        let rest = with_breaks(text.drop_last(), brk, tab);
        if text.last() == '\n' && text.len() > 1 && text[text.len() - 2] == '\r' {
            rest
        } else if text.last() == '\n' || text.last() == '\r' {
            rest.push(brk)
        } else if text.last() == '\t' {
            rest.push(tab)
        } else {
            rest.push(text.last())
        }
    }
}

/// Replaces line breaks and tabs in `text`.
pub fn replace_breaks(text: &str, brk: char, tab: char) -> (r: String)
    ensures
        r@ == with_breaks(text@, brk, tab),
{
    let chars: Vec<char> = chars_of(text);
    let mut out: String = String::new();
    let mut i: usize = 0;
    while i < chars.len()
        invariant
            chars@ == text@,
            i <= chars@.len(),
            out@ == with_breaks(chars@.take(i as int), brk, tab),
        decreases chars@.len() - i,
    {
        let ch: char = chars[i];
        assert(chars@.take(i + 1).drop_last() =~= chars@.take(i as int));
        if ch == '\n' && i > 0 && chars[i - 1] == '\r' {
        } else if ch == '\n' || ch == '\r' {
            out.push(brk);
        } else if ch == '\t' {
            out.push(tab);
        } else {
            out.push(ch);
        }
        i += 1;
    }
    assert(chars@.take(i as int) =~= text@);
    out
}

// ---------------------------------------------------------------------------
// Limits in bytes
// ---------------------------------------------------------------------------

/// The longest start of `text` that takes at most `limit` bytes.
pub open spec fn within_bytes(text: Seq<char>, limit: nat) -> Seq<char>
    decreases text.len(),
{
    if text.len() == 0 || byte_len(text) <= limit {
        text
    } else {
        within_bytes(text.drop_last(), limit)
    }
}

proof fn lemma_within_is(text: Seq<char>, limit: nat, k: int)
    requires
        0 <= k <= text.len(),
        byte_len(text.take(k)) <= limit,
        k < text.len() ==> byte_len(text.take(k + 1)) > limit,
    ensures
        within_bytes(text, limit) == text.take(k),
    decreases text.len(),
{
    if k == text.len() {
        assert(text.take(k) =~= text);
    } else {
        assert(text.take(text.len() as int) =~= text);
        lemma_byte_len_take(text, k + 1, text.len() as int);
        let shorter = text.drop_last();
        assert(shorter.take(k) =~= text.take(k));
        if k < shorter.len() {
            assert(shorter.take(k + 1) =~= text.take(k + 1));
        }
        lemma_within_is(shorter, limit, k);
    }
}

/// Cuts `text` to at most `limit` bytes on a character boundary; the flag says
/// whether anything was dropped.
pub fn cut_to_bytes(text: &str, limit: usize) -> (r: (String, bool))
    ensures
        r.0@ == within_bytes(text@, limit as nat),
        r.1 == (byte_len(text@) > limit),
{
    let total: usize = str_len(text);
    if total <= limit {
        return (owned(text), false);
    }
    let chars: Vec<char> = chars_of(text);
    let mut used: usize = 0;
    let mut i: usize = 0;
    assert(text@.take(0) =~= Seq::<char>::empty());
    assert(byte_len(text@.take(0)) == 0) by {
        lemma_byte_len_bounds(text@.take(0));
    }
    while i < chars.len() && char_len(chars[i]) <= limit - used
        invariant
            chars@ == text@,
            i <= chars@.len(),
            used == byte_len(text@.take(i as int)),
            used <= limit,
        decreases chars@.len() - i,
    {
        proof {
            lemma_byte_len_step(text@, i as int);
        }
        used = used + char_len(chars[i]);
        i += 1;
    }
    proof {
        if i < chars@.len() {
            lemma_byte_len_step(text@, i as int);
        }
        lemma_within_is(text@, limit as nat, i as int);
    }
    let cut: String = string_of(&chars, 0, i);
    assert(cut@ =~= text@.take(i as int));
    (cut, true)
}

/// What is kept of a text under a limit is a start of it and respects the
/// limit, and nothing is dropped from a text that fits.
pub proof fn cutting_keeps_a_prefix(text: Seq<char>, limit: nat)
    ensures
        within_bytes(text, limit).len() <= text.len(),
        within_bytes(text, limit) == text.take(within_bytes(text, limit).len() as int),
        byte_len(within_bytes(text, limit)) <= limit,
        byte_len(text) <= limit ==> within_bytes(text, limit) == text,
        within_bytes(text, limit).len() < text.len() ==> byte_len(
            text.take((within_bytes(text, limit).len() + 1) as int),
        ) > limit,
    decreases text.len(),
{
    if text.len() == 0 {
        lemma_byte_len_bounds(text);
        assert(text.take(0) =~= text);
    } else if byte_len(text) <= limit {
        assert(text.take(text.len() as int) =~= text);
    } else {
        cutting_keeps_a_prefix(text.drop_last(), limit);
        let kept = within_bytes(text, limit);
        let init = text.drop_last();
        assert(init.take(kept.len() as int) =~= text.take(kept.len() as int));
        if kept.len() < init.len() {
            assert(init.take((kept.len() + 1) as int) =~= text.take((kept.len() + 1) as int));
        } else {
            assert(text.take((kept.len() + 1) as int) =~= text);
        }
    }
}

// ---------------------------------------------------------------------------
// Laws
// ---------------------------------------------------------------------------

/// The number that a text of digits denotes.
pub open spec fn denoted(text: Seq<char>) -> nat
    decreases text.len(),
{
    if text.len() == 0 {
        0
    } else {
        (denoted(text.drop_last()) * 10 + (text.last() as nat - '0' as nat)) as nat
    }
}

/// A numeral is made of digits, denotes its number, and has no leading zero.
pub proof fn numerals_denote_their_number(n: nat)
    ensures
        numeral(n).len() > 0,
        forall|i: int| 0 <= i < numeral(n).len() ==> '0' <= #[trigger] numeral(n)[i] <= '9',
        denoted(numeral(n)) == n,
        n > 0 ==> numeral(n)[0] != '0',
    decreases n,
{
    if n < 10 {
        assert(numeral(n).drop_last() =~= Seq::<char>::empty());
        assert(denoted(numeral(n).drop_last()) == 0);
        assert(numeral(n).last() == digit(n));
    } else {
        numerals_denote_their_number(n / 10);
        assert(numeral(n).drop_last() =~= numeral(n / 10));
        assert(numeral(n).last() == digit(n % 10));
    }
}

/// Padding puts blanks in front of a text, as many as the width asks for, and
/// never cuts it.
pub proof fn padding_aligns_right(text: Seq<char>, width: nat)
    ensures
        padded_left(text, width).len() == if text.len() < width {
            width
        } else {
            text.len()
        },
        padded_left(text, width).skip(padded_left(text, width).len() - text.len()) == text,
        forall|i: int|
            0 <= i < padded_left(text, width).len() - text.len() ==> #[trigger] padded_left(
                text,
                width,
            )[i] == ' ',
{
    assert(padded_left(text, width).skip(padded_left(text, width).len() - text.len()) =~= text);
}

/// The pieces of a text, `sep` between them.
pub open spec fn rejoined(parts: Seq<Seq<char>>, sep: char) -> Seq<char>
    decreases parts.len(),
{
    if parts.len() == 0 {
        Seq::empty()
    } else if parts.len() == 1 {
        parts[0]
    } else {
        rejoined(parts.drop_last(), sep).push(sep) + parts.last()
    }
}

/// Splitting loses nothing: the pieces hold no separator, and joined by it they
/// are the text again.
pub proof fn split_texts_join_again(text: Seq<char>, sep: char)
    ensures
        split_on(text, sep).len() > 0,
        rejoined(split_on(text, sep), sep) == text,
        forall|i: int, j: int|
            0 <= i < split_on(text, sep).len() && 0 <= j < split_on(text, sep)[i].len()
                ==> #[trigger] split_on(text, sep)[i][j] != sep,
    decreases text.len(),
{
    if text.len() == 0 {
        assert(text =~= Seq::<char>::empty());
    } else {
        let init = text.drop_last();
        let parts = split_on(init, sep);
        let all = split_on(text, sep);
        split_texts_join_again(init, sep);
        if text.last() == sep {
            assert(all.drop_last() =~= parts);
            assert(rejoined(all, sep) =~= init.push(sep));
            assert(init.push(sep) =~= text);
        } else {
            assert(all.drop_last() =~= parts.drop_last());
            if parts.len() == 1 {
                assert(rejoined(all, sep) =~= init.push(text.last()));
            } else {
                assert(rejoined(all, sep) =~= init.push(text.last()));
            }
            assert(init.push(text.last()) =~= text);
            assert forall|i: int, j: int|
                0 <= i < all.len() && 0 <= j < all[i].len() implies #[trigger] all[i][j] != sep by {
                if i < all.len() - 1 {
                    assert(all[i][j] == parts[i][j]);
                } else if j < parts.last().len() {
                    assert(all[i][j] == parts[i][j]);
                }
            }
        }
    }
}

/// A text without the separator is its only piece.
pub proof fn unseparated_texts_stay_whole(text: Seq<char>, sep: char)
    requires
        forall|i: int| 0 <= i < text.len() ==> #[trigger] text[i] != sep,
    ensures
        split_on(text, sep) == seq![text],
    decreases text.len(),
{
    if text.len() == 0 {
        assert(text =~= Seq::<char>::empty());
        assert(split_on(text, sep) =~= seq![text]);
    } else {
        let init = text.drop_last();
        assert forall|i: int| 0 <= i < init.len() implies #[trigger] init[i] != sep by {
            assert(init[i] == text[i]);
        }
        unseparated_texts_stay_whole(init, sep);
        assert(text[text.len() - 1] != sep);
        let parts = split_on(init, sep);
        assert(parts.last() == init);
        assert(parts.drop_last() =~= Seq::<Seq<char>>::empty());
        assert(init.push(text.last()) =~= text);
        assert(split_on(text, sep) == parts.drop_last().push(parts.last().push(text.last())));
        assert(split_on(text, sep) =~= seq![text]);
    }
}

/// A text without line endings is its only line; an empty one has none.
pub proof fn single_lines_stay_whole(text: Seq<char>)
    requires
        forall|i: int| 0 <= i < text.len() ==> #[trigger] text[i] != '\n',
    ensures
        text.len() > 0 ==> lines_of(text) == seq![text],
        text.len() == 0 ==> lines_of(text).len() == 0,
{
    unseparated_texts_stay_whole(text, '\n');
    assert(split_on(text, '\n').drop_last() =~= Seq::<Seq<char>>::empty());
    if text.len() > 0 {
        assert(lines_of(text) =~= seq![text]);
    }
}

/// Cut behind every line feed, a text is all of its lines one after the other;
/// only the last one may go without a line feed, and none holds another.
pub proof fn ended_lines_cover_the_text(text: Seq<char>)
    ensures
        run_together(ended_lines(text)) == text,
        text.len() > 0 ==> ended_lines(text).len() > 0 && ended_lines(text).last().len() > 0
            && ended_lines(text).last().last() == text.last(),
        forall|i: int|
            0 <= i < ended_lines(text).len() - 1 ==> (#[trigger] ended_lines(text)[i]).len() > 0
                && ended_lines(text)[i].last() == '\n',
    decreases text.len(),
{
    if text.len() == 0 {
        assert(text =~= Seq::<char>::empty());
    } else {
        let init = text.drop_last();
        let before = ended_lines(init);
        let all = ended_lines(text);
        ended_lines_cover_the_text(init);
        if text.len() == 1 || text[text.len() - 2] == '\n' {
            assert(all.drop_last() =~= before);
            assert(run_together(all) =~= init.push(text.last()));
            if text.len() > 1 {
                assert(init.last() == text[text.len() - 2]);
            }
        } else {
            assert(all.drop_last() =~= before.drop_last());
            assert(run_together(all) =~= init.push(text.last()));
        }
        assert(init.push(text.last()) =~= text);
    }
}

/// Texts one after the other.
pub open spec fn run_together(parts: Seq<Seq<char>>) -> Seq<char>
    decreases parts.len(),
{
    if parts.len() == 0 {
        Seq::empty()
    } else {
        run_together(parts.drop_last()) + parts.last()
    }
}

/// Trimming drops white space at both ends and nothing else: it keeps a stretch
/// of the text that neither starts nor ends with white space.
pub proof fn trimming_drops_white_space(text: Seq<char>) -> (from: int)
    ensures
        0 <= from <= from + trimmed(text).len() <= text.len(),
        trimmed(text) == text.subrange(from, from + trimmed(text).len()),
        forall|i: int| 0 <= i < from ==> white_space(#[trigger] text[i]),
        forall|i: int| from + trimmed(text).len() <= i < text.len() ==> white_space(
            #[trigger] text[i],
        ),
        trimmed(text).len() > 0 ==> !white_space(trimmed(text)[0]) && !white_space(
            trimmed(text).last(),
        ),
{
    let rest = trim_start(text);
    let from = lemma_trim_start(text);
    lemma_trim_end(rest);
    let kept = trim_end(rest);
    assert(kept =~= text.subrange(from, from + kept.len()));
    assert forall|i: int| from + kept.len() <= i < text.len() implies white_space(
        #[trigger] text[i],
    ) by {
        assert(text[i] == rest[i - from]);
    }
    if kept.len() > 0 {
        assert(kept[0] == rest[0]);
    }
    from
}

proof fn lemma_trim_start(text: Seq<char>) -> (from: int)
    ensures
        0 <= from <= text.len(),
        trim_start(text) == text.skip(from),
        forall|i: int| 0 <= i < from ==> white_space(#[trigger] text[i]),
        from < text.len() ==> !white_space(text[from]),
    decreases text.len(),
{
    if text.len() > 0 && white_space(text[0]) {
        let rest = text.drop_first();
        let n = lemma_trim_start(rest);
        assert(text.skip(n + 1) =~= rest.skip(n));
        assert forall|i: int| 0 <= i < n + 1 implies white_space(#[trigger] text[i]) by {
            if i > 0 {
                assert(rest[i - 1] == text[i]);
            }
        }
        if n < rest.len() {
            assert(rest[n] == text[n + 1]);
        }
        n + 1
    } else {
        assert(text.skip(0) =~= text);
        0
    }
}

proof fn lemma_trim_end(text: Seq<char>)
    ensures
        trim_end(text).len() <= text.len(),
        trim_end(text) == text.take(trim_end(text).len() as int),
        forall|i: int| trim_end(text).len() <= i < text.len() ==> white_space(#[trigger] text[i]),
        trim_end(text).len() > 0 ==> !white_space(trim_end(text).last()),
    decreases text.len(),
{
    if text.len() > 0 && white_space(text.last()) {
        let init = text.drop_last();
        lemma_trim_end(init);
        assert(init.take(trim_end(init).len() as int) =~= text.take(trim_end(init).len() as int));
        assert forall|i: int| trim_end(text).len() <= i < text.len() implies white_space(
            #[trigger] text[i],
        ) by {
            if i < init.len() {
                assert(init[i] == text[i]);
            }
        }
    } else {
        assert(text.take(text.len() as int) =~= text);
    }
}

/// A text is blank to trimming exactly where all of it is white space.
pub proof fn blank_texts_are_white_space(text: Seq<char>)
    ensures
        trimmed(text).len() == 0 <==> forall|i: int|
            0 <= i < text.len() ==> white_space(#[trigger] text[i]),
{
    let from = trimming_drops_white_space(text);
    if trimmed(text).len() > 0 {
        assert(text[from] == trimmed(text)[0]);
    }
}

/// Each line break of a text, however it is written, becomes one `brk`, each tab
/// becomes `tab`, and every other character stays.
pub proof fn breaks_are_made_uniform(text: Seq<char>, brk: char, tab: char, ch: char)
    ensures
        ch == '\n' ==> with_breaks(text.push('\r').push(ch), brk, tab) == with_breaks(
            text,
            brk,
            tab,
        ).push(brk),
        ch == '\r' ==> with_breaks(text.push(ch), brk, tab) == with_breaks(text, brk, tab).push(brk),
        ch == '\n' && (text.len() == 0 || text.last() != '\r') ==> with_breaks(
            text.push(ch),
            brk,
            tab,
        ) == with_breaks(text, brk, tab).push(brk),
        ch == '\t' ==> with_breaks(text.push(ch), brk, tab) == with_breaks(text, brk, tab).push(tab),
        ch != '\n' && ch != '\r' && ch != '\t' ==> with_breaks(text.push(ch), brk, tab)
            == with_breaks(text, brk, tab).push(ch),
        with_breaks(Seq::empty(), brk, tab).len() == 0,
{
    assert(text.push(ch).drop_last() =~= text);
    let returned = text.push('\r');
    assert(returned.drop_last() =~= text);
    assert(with_breaks(returned, brk, tab) == with_breaks(text, brk, tab).push(brk));
    let ended = returned.push(ch);
    assert(ended.drop_last() =~= returned);
    assert(ended[ended.len() - 2] == '\r');
}

/// Splitting goes on behind each separator as if the text began there.
pub proof fn splits_run_on(a: Seq<char>, b: Seq<char>, sep: char)
    ensures
        split_on(a.push(sep) + b, sep) == split_on(a, sep) + split_on(b, sep),
    decreases b.len(),
{
    let all = a.push(sep) + b;
    if b.len() == 0 {
        assert(all =~= a.push(sep));
        assert(all.drop_last() =~= a);
        assert(split_on(all, sep) =~= split_on(a, sep) + split_on(b, sep));
    } else {
        let init = b.drop_last();
        splits_run_on(a, init, sep);
        lemma_split_nonempty(init, sep);
        assert(all.drop_last() =~= a.push(sep) + init);
        assert(all.last() == b.last());
        let x = split_on(a, sep);
        let y = split_on(init, sep);
        assert((x + y).last() == y.last());
        assert((x + y).drop_last() =~= x + y.drop_last());
        assert(split_on(all, sep) =~= x + split_on(b, sep));
    }
}

/// Trimming characters takes all of them from the end, and nothing else.
pub proof fn trimming_ends_drops_just_them(text: Seq<char>, a: char, b: char)
    ensures
        ({
            let kept = trim_end_chars(text, a, b);
            &&& kept.len() <= text.len()
            &&& kept =~= text.take(kept.len() as int)
            &&& kept.len() > 0 ==> kept.last() != a && kept.last() != b
            &&& forall|i: int|
                kept.len() <= i < text.len() ==> #[trigger] text[i] == a || text[i] == b
        }),
    decreases text.len(),
{
    if text.len() > 0 && (text.last() == a || text.last() == b) {
        let init = text.drop_last();
        trimming_ends_drops_just_them(init, a, b);
        let kept = trim_end_chars(text, a, b);
        assert(init.take(kept.len() as int) =~= text.take(kept.len() as int));
        assert forall|i: int| kept.len() <= i < text.len() implies #[trigger] text[i] == a
            || text[i] == b by {
            if i < init.len() {
                assert(init[i] == text[i]);
            }
        }
    } else {
        assert(text.take(text.len() as int) =~= text);
    }
}

/// A text stands where each of its characters does.
pub proof fn patterns_stand_whole(text: Seq<char>, pattern: Seq<char>, i: int)
    ensures
        occurs_at(text, pattern, i) <==> 0 <= i && i + pattern.len() <= text.len()
            && text.subrange(i, i + pattern.len()) =~= pattern,
        starts_with(text, pattern) <==> pattern.len() <= text.len() && text.take(
            pattern.len() as int,
        ) =~= pattern,
{
    if 0 <= i && i + pattern.len() <= text.len() {
        let part = text.subrange(i, i + pattern.len());
        if part =~= pattern {
            assert forall|j: int| 0 <= j < pattern.len() implies text[i + j] == pattern[j] by {
                assert(part[j] == text[i + j]);
            }
        }
    }
    if pattern.len() <= text.len() {
        let part = text.take(pattern.len() as int);
        if part =~= pattern {
            assert forall|j: int| 0 <= j < pattern.len() implies text[j] == pattern[j] by {
                assert(part[j] == text[j]);
            }
        }
    }
}

/// A line ends at its line feed, and a carriage return in front of that belongs
/// to the end; what comes behind is lines again.
pub proof fn lines_end_at_line_feeds(line: Seq<char>, rest: Seq<char>)
    requires
        forall|i: int| 0 <= i < line.len() ==> #[trigger] line[i] != '\n',
        line.len() == 0 || line.last() != '\r',
    ensures
        lines_of(line.push('\n') + rest) == seq![line] + lines_of(rest),
        lines_of(line.push('\r').push('\n') + rest) == seq![line] + lines_of(rest),
{
    let returned = line.push('\r');
    splits_run_on(line, rest, '\n');
    splits_run_on(returned, rest, '\n');
    unseparated_texts_stay_whole(line, '\n');
    unseparated_texts_stay_whole(returned, '\n');
    lemma_split_nonempty(rest, '\n');
    let parts = split_on(rest, '\n');
    let strip = |p: Seq<char>| without_trailing(p, '\r');
    assert(returned.drop_last() =~= line);
    let a = seq![line] + parts;
    let b = seq![returned] + parts;
    assert(a.last() == parts.last() && b.last() == parts.last());
    let ended = parts.drop_last().map_values(strip);
    assert(a.drop_last().map_values(strip) =~= seq![line] + ended);
    assert(b.drop_last().map_values(strip) =~= seq![line] + ended);
    assert(lines_of(line.push('\n') + rest) =~= seq![line] + lines_of(rest));
    assert(lines_of(returned.push('\n') + rest) =~= seq![line] + lines_of(rest));
}

} // verus!
