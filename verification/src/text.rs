//! Text as sequences of characters: trimming, splitting, joining, replacing,
//! and numbers in decimal and hexadecimal.

use vstd::prelude::*;
use vstd::string::*;
use vstd::utf8::*;

verus! {

/// `String::push` appends one character at the end of the string.
pub assume_specification[ String::push ](text: &mut String, c: char)
    ensures
        final(text)@ == old(text)@.push(c),
;

/// What `String::from_utf8_lossy` reads out of a run of bytes.
pub uninterp spec fn lossy_text(bytes: Seq<u8>) -> Seq<char>;

/// Calls `String::from_utf8_lossy`. The text is a function of the bytes, and it is the plain
/// decoding wherever the bytes are valid UTF-8. How much of an invalid run one replacement
/// character stands for is left unsaid.
#[verifier::external_body]
pub(crate) fn decode_lossy(bytes: &[u8]) -> (text: String)
    ensures
        text@ == lossy_text(bytes@),
        valid_utf8(bytes@) ==> text@ == decode_utf8(bytes@),
{
    String::from_utf8_lossy(bytes).into_owned()
}

/// Characters with the Unicode property White_Space.
pub open spec fn is_whitespace(c: char) -> bool {
    let n = c as u32;
    ||| 0x9 <= n <= 0xd
    ||| n == 0x20
    ||| n == 0x85
    ||| n == 0xa0
    ||| n == 0x1680
    ||| 0x2000 <= n <= 0x200a
    ||| n == 0x2028
    ||| n == 0x2029
    ||| n == 0x202f
    ||| n == 0x205f
    ||| n == 0x3000
}

/// Tells whether `c` is white space.
pub fn whitespace(c: char) -> (yes: bool)
    ensures
        yes == is_whitespace(c),
{
    let n: u32 = c as u32;
    (0x9 <= n && n <= 0xd) || n == 0x20 || n == 0x85 || n == 0xa0 || n == 0x1680 || (0x2000 <= n
        && n <= 0x200a) || n == 0x2028 || n == 0x2029 || n == 0x202f || n == 0x205f || n == 0x3000
}

/// `s` without its leading white space.
pub open spec fn trim_start(s: Seq<char>) -> Seq<char>
    decreases s.len(),
{
    if s.len() > 0 && is_whitespace(s[0]) {
        trim_start(s.drop_first())
    } else {
        s
    }
}

/// `s` without its trailing white space.
pub open spec fn trim_end(s: Seq<char>) -> Seq<char>
    decreases s.len(),
{
    if s.len() > 0 && is_whitespace(s.last()) {
        trim_end(s.drop_last())
    } else {
        s
    }
}

/// `s` without the white space at either end.
pub open spec fn trimmed(s: Seq<char>) -> Seq<char> {
    trim_end(trim_start(s))
}

/// The part of `s` before the first `c`, which is all of it where there is none.
pub open spec fn before(s: Seq<char>, c: char) -> Seq<char>
    decreases s.len(),
{
    if s.len() == 0 || s[0] == c {
        Seq::empty()
    } else {
        seq![s[0]] + before(s.drop_first(), c)
    }
}

/// The longest start of `s` without white space.
pub open spec fn leading_word(s: Seq<char>) -> Seq<char>
    decreases s.len(),
{
    if s.len() == 0 || is_whitespace(s[0]) {
        Seq::empty()
    } else {
        seq![s[0]] + leading_word(s.drop_first())
    }
}

/// The first position at or after `from` where `pattern` occurs in `s`.
pub open spec fn index_from<T>(s: Seq<T>, pattern: Seq<T>, from: int) -> Option<int>
    decreases s.len() - from + 1,
{
    if from < 0 || from + pattern.len() > s.len() {
        None
    } else if s.subrange(from, from + pattern.len()) == pattern {
        Some(from)
    } else {
        index_from(s, pattern, from + 1)
    }
}

/// The first position where `pattern` occurs in `s`.
pub open spec fn index_of<T>(s: Seq<T>, pattern: Seq<T>) -> Option<int> {
    index_from(s, pattern, 0)
}

/// A position found by `index_from` lies inside `s`, the pattern stands there, and it stands
/// nowhere between `from` and that position. Where none is found, it stands nowhere after `from`.
pub proof fn lemma_index_from<T>(s: Seq<T>, pattern: Seq<T>, from: int)
    requires
        0 <= from,
    ensures
        index_from(s, pattern, from) matches Some(i) ==> {
            &&& from <= i
            &&& i + pattern.len() <= s.len()
            &&& s.subrange(i, i + pattern.len()) == pattern
            &&& forall|j: int|
                from <= j < i ==> #[trigger] s.subrange(j, j + pattern.len()) != pattern
        },
        index_from(s, pattern, from) is None ==> forall|j: int|
            from <= j && j + pattern.len() <= s.len() ==> #[trigger] s.subrange(
                j,
                j + pattern.len(),
            ) != pattern,
    decreases s.len() - from + 1,
{
    if from + pattern.len() <= s.len() && s.subrange(from, from + pattern.len()) != pattern {
        lemma_index_from(s, pattern, from + 1);
    }
}

/// The parts of `s` between the occurrences of `separator`, in order.
pub open spec fn pieces(s: Seq<char>, separator: Seq<char>) -> Seq<Seq<char>>
    decreases s.len(),
{
    match index_of(s, separator) {
        Some(i) => if separator.len() > 0 && 0 <= i && i + separator.len() <= s.len() {
            seq![s.take(i)] + pieces(s.skip(i + separator.len()), separator)
        } else {
            seq![s]
        },
        None => seq![s],
    }
}

/// A line without the carriage return before its line feed.
pub open spec fn without_return(s: Seq<char>) -> Seq<char> {
    if s.len() > 0 && s.last() == '\r' {
        s.drop_last()
    } else {
        s
    }
}

/// The lines of a text. A line ends at a line feed, with or without a carriage return before it,
/// and nothing after the last line feed is no line.
pub open spec fn lines(s: Seq<char>) -> Seq<Seq<char>> {
    let parts = pieces(s, seq!['\n']);
    let ended = parts.drop_last().map_values(|p: Seq<char>| without_return(p));
    if parts.last().len() == 0 {
        ended
    } else {
        ended.push(parts.last())
    }
}

/// `s` with `with` in place of each `c`.
pub open spec fn replaced(s: Seq<char>, c: char, with: Seq<char>) -> Seq<char>
    decreases s.len(),
{
    if s.len() == 0 {
        Seq::empty()
    } else {
        replaced(s.drop_last(), c, with) + (if s.last() == c {
            with
        } else {
            seq![s.last()]
        })
    }
}

/// The parts in order with `separator` between each two.
pub open spec fn joined(parts: Seq<Seq<char>>, separator: Seq<char>) -> Seq<char>
    decreases parts.len(),
{
    if parts.len() == 0 {
        Seq::empty()
    } else if parts.len() == 1 {
        parts[0]
    } else {
        joined(parts.drop_last(), separator) + separator + parts.last()
    }
}

/// The lower-case form of an ASCII capital, and every other character itself.
pub open spec fn ascii_lower(c: char) -> char {
    if 'A' <= c && c <= 'Z' {
        (c as u32 + 32) as char
    } else {
        c
    }
}

/// `s` with its ASCII capitals in lower case.
pub open spec fn lowercased(s: Seq<char>) -> Seq<char> {
    s.map_values(|c: char| ascii_lower(c))
}

/// The digit for a value below sixteen.
pub open spec fn digit(d: nat) -> char {
    if d < 10 {
        (48 + d) as char
    } else {
        (87 + d) as char
    }
}

/// `n` in decimal, without leading zeros.
pub open spec fn decimal(n: nat) -> Seq<char>
    decreases n,
{
    if n < 10 {
        seq![digit(n)]
    } else {
        decimal(n / 10).push(digit(n % 10))
    }
}

/// `n` in lower-case hexadecimal, without leading zeros.
pub open spec fn hexadecimal(n: nat) -> Seq<char>
    decreases n,
{
    if n < 16 {
        seq![digit(n)]
    } else {
        hexadecimal(n / 16).push(digit(n % 16))
    }
}

/// A decimal digit.
pub open spec fn is_digit(c: char) -> bool {
    '0' <= c && c <= '9'
}

/// A run of decimal digits.
pub open spec fn all_digits(s: Seq<char>) -> bool {
    forall|i: int| 0 <= i < s.len() ==> is_digit(#[trigger] s[i])
}

/// The number that a run of decimal digits stands for.
pub open spec fn digits_value(s: Seq<char>) -> nat
    decreases s.len(),
{
    if s.len() == 0 {
        0
    } else {
        (digits_value(s.drop_last()) * 10 + (s.last() as u32 - 48)) as nat
    }
}

/// The number that a text stands for: one or more decimal digits, after one `+` or none.
pub open spec fn parsed_number(s: Seq<char>) -> Option<nat> {
    let digits = if s.len() > 0 && s[0] == '+' {
        s.drop_first()
    } else {
        s
    };
    if digits.len() > 0 && all_digits(digits) {
        Some(digits_value(digits))
    } else {
        None
    }
}

/// Tells whether two texts are the same.
pub fn same_text(a: &str, b: &str) -> (same: bool)
    ensures
        same == (a@ == b@),
{
    proof {
        encode_utf8_decode_utf8(a@);
        encode_utf8_decode_utf8(b@);
    }
    let left: &[u8] = a.as_bytes();
    let right: &[u8] = b.as_bytes();
    if left.len() != right.len() {
        return false;
    }
    let mut i: usize = 0;
    while i < left.len()
        invariant
            i <= left.len() == right.len(),
            left@ == encode_utf8(a@),
            right@ == encode_utf8(b@),
            forall|j: int| 0 <= j < i ==> left@[j] == right@[j],
        decreases left.len() - i,
    {
        if left[i] != right[i] {
            return false;
        }
        i = i + 1;
    }
    assert(left@ =~= right@);
    true
}

/// The characters of a text.
pub fn characters(text: &str) -> (chars: Vec<char>)
    ensures
        chars@ == text@,
{
    let mut chars: Vec<char> = Vec::new();
    for c in it: text.chars()
        invariant
            it.seq() == text@,
            chars@ == text@.take(it.index() as int),
    {
        chars.push(c);
    }
    chars
}

/// The text of the characters from `from` up to `to`.
pub fn text_between(chars: &Vec<char>, from: usize, to: usize) -> (text: String)
    requires
        from <= to <= chars.len(),
    ensures
        text@ == chars@.subrange(from as int, to as int),
{
    let mut text = String::new();
    let mut i: usize = from;
    while i < to
        invariant
            from <= i <= to <= chars.len(),
            text@ == chars@.subrange(from as int, i as int),
        decreases to - i,
    {
        text.push(chars[i]);
        i = i + 1;
    }
    text
}

/// `text` without the white space at either end.
pub fn trim(text: &str) -> (result: String)
    ensures
        result@ == trimmed(text@),
{
    let chars = characters(text);
    let mut from: usize = 0;
    assert(chars@.subrange(0, chars.len() as int) =~= chars@);
    while from < chars.len() && whitespace(chars[from])
        invariant
            from <= chars.len(),
            trim_start(chars@) == trim_start(chars@.subrange(from as int, chars.len() as int)),
        decreases chars.len() - from,
    {
        proof {
            let rest = chars@.subrange(from as int, chars.len() as int);
            assert(rest.drop_first() =~= chars@.subrange(from + 1, chars.len() as int));
        }
        from = from + 1;
    }
    let mut to: usize = chars.len();
    while from < to && whitespace(chars[to - 1])
        invariant
            from <= to <= chars.len(),
            trimmed(chars@) == trim_end(chars@.subrange(from as int, to as int)),
        decreases to - from,
    {
        proof {
            let rest = chars@.subrange(from as int, to as int);
            assert(rest.drop_last() =~= chars@.subrange(from as int, to - 1));
        }
        to = to - 1;
    }
    text_between(&chars, from, to)
}

/// Tells whether `text` holds nothing but white space.
pub fn is_blank(text: &str) -> (blank: bool)
    ensures
        blank == (trimmed(text@).len() == 0),
{
    let rest = trim(text);
    rest.as_str().is_empty()
}

/// The text before the first `c`.
pub fn text_before(text: &str, c: char) -> (result: String)
    ensures
        result@ == before(text@, c),
{
    let mut result = String::new();
    let chars = characters(text);
    let mut i: usize = 0;
    assert(chars@.subrange(0, chars.len() as int) =~= chars@);
    while i < chars.len() && chars[i] != c
        invariant
            i <= chars.len(),
            before(chars@, c) == result@ + before(
                chars@.subrange(i as int, chars.len() as int),
                c,
            ),
        decreases chars.len() - i,
    {
        proof {
            let rest = chars@.subrange(i as int, chars.len() as int);
            assert(rest.drop_first() =~= chars@.subrange(i + 1, chars.len() as int));
        }
        let ghost earlier = result@;
        result.push(chars[i]);
        proof {
            let tail = before(chars@.subrange(i + 1, chars.len() as int), c);
            assert(earlier + (seq![chars@[i as int]] + tail) =~= result@ + tail);
        }
        i = i + 1;
    }
    assert(result@ + Seq::<char>::empty() =~= result@);
    result
}

/// What stands before the first `c` is a start of the text, and `c` follows it where there is more.
pub proof fn lemma_before(s: Seq<char>, c: char)
    ensures
        before(s, c).len() <= s.len(),
        before(s, c) == s.take(before(s, c).len() as int),
        before(s, c).len() < s.len() ==> s[before(s, c).len() as int] == c,
    decreases s.len(),
{
    if s.len() > 0 && s[0] != c {
        let rest = s.drop_first();
        lemma_before(rest, c);
        let head = before(rest, c);
        assert(s.take(1 + head.len() as int) =~= seq![s[0]] + rest.take(head.len() as int));
    } else {
        assert(s.take(0) =~= Seq::<char>::empty());
    }
}

/// The two sides of the first `c` in a text that holds it.
pub open spec fn sides(s: Seq<char>, c: char) -> Option<(Seq<char>, Seq<char>)> {
    let left = before(s, c);
    if left.len() < s.len() {
        Some((left, s.skip(left.len() as int + 1)))
    } else {
        None
    }
}

/// The views of an optional pair of strings.
pub open spec fn opt_pair(pair: Option<(String, String)>) -> Option<(Seq<char>, Seq<char>)> {
    match pair {
        Some((a, b)) => Some((a@, b@)),
        None => None,
    }
}

/// Splits `text` at the first `c`.
pub fn split_once(text: &str, c: char) -> (parts: Option<(String, String)>)
    ensures
        opt_pair(parts) == sides(text@, c),
{
    proof {
        lemma_before(text@, c);
    }
    let left = text_before(text, c);
    let chars = characters(text);
    let at = left.as_str().unicode_len();
    if at < chars.len() {
        let right = text_between(&chars, at + 1, chars.len());
        assert(right@ =~= text@.skip(at + 1));
        Some((left, right))
    } else {
        None
    }
}

/// The first word of `text` and what follows it.
pub fn split_word(text: &str) -> (parts: (String, String))
    ensures
        parts.0@ == leading_word(trim_start(text@)),
        trim_start(text@) == parts.0@ + parts.1@,
{
    let chars = characters(text);
    let mut from: usize = 0;
    assert(chars@.subrange(0, chars.len() as int) =~= chars@);
    while from < chars.len() && whitespace(chars[from])
        invariant
            from <= chars.len(),
            trim_start(chars@) == trim_start(chars@.subrange(from as int, chars.len() as int)),
        decreases chars.len() - from,
    {
        proof {
            let rest = chars@.subrange(from as int, chars.len() as int);
            assert(rest.drop_first() =~= chars@.subrange(from + 1, chars.len() as int));
        }
        from = from + 1;
    }
    let ghost start = chars@.subrange(from as int, chars.len() as int);
    let mut to: usize = from;
    assert(chars@.subrange(from as int, from as int) + leading_word(start) =~= leading_word(start));
    while to < chars.len() && !whitespace(chars[to])
        invariant
            from <= to <= chars.len(),
            leading_word(start) == chars@.subrange(from as int, to as int) + leading_word(
                chars@.subrange(to as int, chars.len() as int),
            ),
        decreases chars.len() - to,
    {
        proof {
            let rest = chars@.subrange(to as int, chars.len() as int);
            assert(rest.drop_first() =~= chars@.subrange(to + 1, chars.len() as int));
            let tail = leading_word(rest.drop_first());
            assert(chars@.subrange(from as int, to as int) + (seq![chars@[to as int]] + tail)
                =~= chars@.subrange(from as int, to + 1) + tail);
        }
        to = to + 1;
    }
    let word = text_between(&chars, from, to);
    let rest = text_between(&chars, to, chars.len());
    assert(leading_word(start) =~= word@);
    assert(start =~= word@ + rest@);
    (word, rest)
}

/// Tells whether `pattern` stands in `items` at `at`.
fn stands_at(items: &Vec<char>, pattern: &Vec<char>, at: usize) -> (yes: bool)
    requires
        at + pattern.len() <= items.len(),
    ensures
        yes == (items@.subrange(at as int, at + pattern.len()) == pattern@),
{
    let mut i: usize = 0;
    while i < pattern.len()
        invariant
            i <= pattern.len(),
            at + pattern.len() <= items.len(),
            forall|j: int| 0 <= j < i ==> items@[at + j] == pattern@[j],
        decreases pattern.len() - i,
    {
        if items[at + i] != pattern[i] {
            assert(items@.subrange(at as int, at + pattern.len())[i as int] != pattern@[i as int]);
            return false;
        }
        i = i + 1;
    }
    assert(items@.subrange(at as int, at + pattern.len()) =~= pattern@);
    true
}

/// The first position at or after `from` where `pattern` occurs.
pub fn find_from(items: &Vec<char>, pattern: &Vec<char>, from: usize) -> (position: Option<usize>)
    requires
        from <= items.len(),
    ensures
        position matches Some(i) ==> index_from(items@, pattern@, from as int) == Some(i as int),
        position is None ==> index_from(items@, pattern@, from as int) is None,
{
    let mut at: usize = from;
    while pattern.len() <= items.len() - at
        invariant
            from <= at <= items.len(),
            index_from(items@, pattern@, from as int) == index_from(items@, pattern@, at as int),
        decreases items.len() - at + 1,
    {
        if stands_at(items, pattern, at) {
            return Some(at);
        }
        if at == items.len() {
            assert(items@.subrange(at as int, at + pattern.len()) =~= pattern@);
            return None;
        }
        at = at + 1;
    }
    None
}

/// The pieces of a text are those of a list of strings.
pub open spec fn views(parts: Seq<String>) -> Seq<Seq<char>> {
    parts.map_values(|p: String| p@)
}

/// Splits `text` at each occurrence of `separator`.
pub fn split(text: &str, separator: &str) -> (parts: Vec<String>)
    requires
        separator@.len() > 0,
    ensures
        views(parts@) == pieces(text@, separator@),
{
    let chars = characters(text);
    let pattern = characters(separator);
    let mut parts: Vec<String> = Vec::new();
    let mut from: usize = 0;
    assert(chars@.subrange(0, chars.len() as int) =~= chars@);
    assert(views(parts@) + pieces(chars@, pattern@) =~= pieces(chars@, pattern@));
    loop
        invariant_except_break
            pattern.len() > 0,
            from <= chars.len(),
            pieces(chars@, pattern@) == views(parts@) + pieces(
                chars@.subrange(from as int, chars.len() as int),
                pattern@,
            ),
        ensures
            pieces(chars@, pattern@) == views(parts@),
        decreases chars.len() - from,
    {
        let ghost rest = chars@.subrange(from as int, chars.len() as int);
        let found = find_from(&chars, &pattern, from);
        proof {
            lemma_index_from(chars@, pattern@, from as int);
            lemma_index_shift(chars@, pattern@, from as int, from as int);
        }
        match found {
            Some(at) => {
                let piece = text_between(&chars, from, at);
                proof {
                    assert(rest.take(at - from) =~= piece@);
                    assert(rest.skip(at - from + pattern.len()) =~= chars@.subrange(
                        at + pattern.len(),
                        chars.len() as int,
                    ));
                    let tail = pieces(
                        chars@.subrange(at + pattern.len(), chars.len() as int),
                        pattern@,
                    );
                    assert(views(parts@) + (seq![piece@] + tail) =~= views(parts@.push(piece))
                        + tail);
                }
                parts.push(piece);
                from = at + pattern.len();
            },
            None => {
                let piece = text_between(&chars, from, chars.len());
                assert(views(parts@) + seq![piece@] =~= views(parts@.push(piece)));
                parts.push(piece);
                break;
            },
        }
    }
    parts
}

/// Searching a text from `from` is searching what follows `from`.
proof fn lemma_index_shift<T>(s: Seq<T>, pattern: Seq<T>, from: int, at: int)
    requires
        0 <= from <= at <= s.len(),
    ensures
        index_from(s.subrange(from, s.len() as int), pattern, at - from) == (match index_from(
            s,
            pattern,
            at,
        ) {
            Some(i) => Some(i - from),
            None => None,
        }),
    decreases s.len() - at + 1,
{
    let rest = s.subrange(from, s.len() as int);
    if at + pattern.len() <= s.len() {
        assert(rest.subrange(at - from, at - from + pattern.len()) =~= s.subrange(
            at,
            at + pattern.len(),
        ));
        if s.subrange(at, at + pattern.len()) != pattern {
            if at < s.len() {
                lemma_index_shift(s, pattern, from, at + 1);
            } else {
                assert(s.subrange(at, at + pattern.len()) =~= pattern);
            }
        }
    }
}

/// The lines of `text`.
pub fn text_lines(text: &str) -> (result: Vec<String>)
    ensures
        views(result@) == lines(text@),
{
    proof {
        reveal_strlit("\n");
        assert("\n"@ =~= seq!['\n']);
    }
    let parts = split(text, "\n");
    let ghost all = pieces(text@, seq!['\n']);
    proof {
        lemma_pieces_not_empty(text@, seq!['\n']);
        assert(views(parts@).len() == parts@.len());
    }
    let ghost ended = all.drop_last().map_values(|p: Seq<char>| without_return(p));
    let last: usize = parts.len() - 1;
    let mut result: Vec<String> = Vec::new();
    let mut i: usize = 0;
    while i < last
        invariant
            i <= last,
            last == parts.len() - 1,
            views(parts@) == all,
            ended == all.drop_last().map_values(|p: Seq<char>| without_return(p)),
            views(result@) == ended.take(i as int),
        decreases last - i,
    {
        let line = drop_return(parts[i].as_str());
        proof {
            assert(views(parts@)[i as int] == parts@[i as int]@);
            assert(views(parts@).len() == parts@.len());
            assert(ended[i as int] == line@);
            assert(views(result@.push(line)) =~= views(result@).push(line@));
            assert(views(result@.push(line)) =~= ended.take(i + 1));
        }
        result.push(line);
        i = i + 1;
    }
    assert(views(parts@)[last as int] == parts@[last as int]@);
    assert(ended.take(last as int) =~= ended);
    if !parts[last].as_str().is_empty() {
        let line = parts[last].clone();
        assert(views(result@.push(line)) =~= ended.push(all.last()));
        result.push(line);
    }
    result
}

/// There is at least one piece.
proof fn lemma_pieces_not_empty(s: Seq<char>, separator: Seq<char>)
    ensures
        pieces(s, separator).len() > 0,
{
}

/// A line without the carriage return at its end.
fn drop_return(text: &str) -> (line: String)
    ensures
        line@ == without_return(text@),
{
    let chars = characters(text);
    let mut to: usize = chars.len();
    if to > 0 && chars[to - 1] == '\r' {
        to = to - 1;
    }
    let line = text_between(&chars, 0, to);
    assert(line@ =~= without_return(text@));
    line
}

/// `text` with `with` in place of each `c`.
pub fn replace(text: &str, c: char, with: &str) -> (result: String)
    ensures
        result@ == replaced(text@, c, with@),
{
    let chars = characters(text);
    let mut result = String::new();
    let mut i: usize = 0;
    while i < chars.len()
        invariant
            i <= chars.len(),
            result@ == replaced(chars@.take(i as int), c, with@),
        decreases chars.len() - i,
    {
        assert(chars@.take(i + 1).drop_last() =~= chars@.take(i as int));
        if chars[i] == c {
            result.append(with);
        } else {
            result.push(chars[i]);
        }
        i = i + 1;
    }
    assert(chars@.take(chars.len() as int) =~= chars@);
    result
}

/// The parts in order with `separator` between each two.
pub fn join(parts: &Vec<String>, separator: &str) -> (result: String)
    ensures
        result@ == joined(views(parts@), separator@),
{
    let mut result = String::new();
    let mut i: usize = 0;
    while i < parts.len()
        invariant
            i <= parts.len(),
            result@ == joined(views(parts@).take(i as int), separator@),
        decreases parts.len() - i,
    {
        proof {
            assert(views(parts@).take(i + 1).drop_last() =~= views(parts@).take(i as int));
            assert(views(parts@).take(i + 1).last() == parts@[i as int]@);
        }
        if i > 0 {
            result.append(separator);
        } else {
            assert(result@ + parts@[0]@ =~= parts@[0]@);
        }
        result.append(parts[i].as_str());
        i = i + 1;
    }
    assert(views(parts@).take(parts.len() as int) =~= views(parts@));
    result
}

/// `text` with its ASCII capitals in lower case.
pub fn lowercase(text: &str) -> (result: String)
    ensures
        result@ == lowercased(text@),
{
    let chars = characters(text);
    let mut result = String::new();
    let mut i: usize = 0;
    while i < chars.len()
        invariant
            i <= chars.len(),
            result@ == lowercased(chars@.take(i as int)),
        decreases chars.len() - i,
    {
        let c = chars[i];
        let lower = if 'A' <= c && c <= 'Z' {
            (c as u8 + 32) as char
        } else {
            c
        };
        assert(lower == ascii_lower(c));
        result.push(lower);
        assert(result@ =~= lowercased(chars@.take(i + 1)));
        i = i + 1;
    }
    assert(chars@.take(chars.len() as int) =~= chars@);
    result
}

/// The digit for a value below sixteen.
fn digit_char(d: u8) -> (c: char)
    requires
        d < 16,
    ensures
        c == digit(d as nat),
{
    if d < 10 {
        (48 + d) as char
    } else {
        (87 + d) as char
    }
}

/// `n` in decimal.
pub fn decimal_text(n: u128) -> (text: String)
    ensures
        text@ == decimal(n as nat),
    decreases n,
{
    if n < 10 {
        let mut text = String::new();
        text.push(digit_char(n as u8));
        assert(text@ =~= seq![digit(n as nat)]);
        text
    } else {
        let mut text = decimal_text(n / 10);
        text.push(digit_char((n % 10) as u8));
        text
    }
}

/// `n` in hexadecimal.
pub fn hexadecimal_text(n: usize) -> (text: String)
    ensures
        text@ == hexadecimal(n as nat),
    decreases n,
{
    if n < 16 {
        let mut text = String::new();
        text.push(digit_char(n as u8));
        assert(text@ =~= seq![digit(n as nat)]);
        text
    } else {
        let mut text = hexadecimal_text(n / 16);
        text.push(digit_char((n % 16) as u8));
        text
    }
}

/// Reads a number in decimal; a text that is no number, or one past `usize::MAX`, gives none.
pub fn parse_number(text: &str) -> (number: Option<usize>)
    ensures
        number == (match parsed_number(text@) {
            Some(n) => if n <= usize::MAX {
                Some(n as usize)
            } else {
                None
            },
            None => None,
        }),
{
    let chars = characters(text);
    let mut from: usize = 0;
    if chars.len() > 0 && chars[0] == '+' {
        from = 1;
    }
    let ghost digits = chars@.subrange(from as int, chars.len() as int);
    assert(digits =~= (if chars@.len() > 0 && chars@[0] == '+' {
        chars@.drop_first()
    } else {
        chars@
    }));
    if from == chars.len() {
        return None;
    }
    let mut i: usize = from;
    let mut value: Option<usize> = Some(0);
    while i < chars.len()
        invariant
            from <= i <= chars.len(),
            digits == chars@.subrange(from as int, chars.len() as int),
            forall|j: int| 0 <= j < i - from ==> is_digit(#[trigger] digits[j]),
            value == (if digits_value(digits.take(i - from)) <= usize::MAX {
                Some(digits_value(digits.take(i - from)) as usize)
            } else {
                None
            }),
            parsed_number(text@) == (if digits.len() > 0 && all_digits(digits) {
                Some(digits_value(digits))
            } else {
                None
            }),
        decreases chars.len() - i,
    {
        let c = chars[i];
        assert(c == digits[i - from]);
        if !('0' <= c && c <= '9') {
            assert(!is_digit(digits[i - from]));
            return None;
        }
        assert(digits.take(i + 1 - from).drop_last() =~= digits.take(i - from));
        let d: usize = (c as u8 - 48) as usize;
        value = match value {
            Some(v) => match v.checked_mul(10) {
                Some(tens) => tens.checked_add(d),
                None => None,
            },
            None => None,
        };
        i = i + 1;
    }
    assert(digits.take(digits.len() as int) =~= digits);
    value
}

/// What follows `prefix` in a text that starts with it.
pub open spec fn after_prefix(s: Seq<char>, prefix: Seq<char>) -> Option<Seq<char>> {
    if prefix.len() <= s.len() && s.take(prefix.len() as int) == prefix {
        Some(s.skip(prefix.len() as int))
    } else {
        None
    }
}

/// The view of an optional string.
pub open spec fn opt_text(text: Option<String>) -> Option<Seq<char>> {
    match text {
        Some(t) => Some(t@),
        None => None,
    }
}

/// What follows `prefix` in `text`, where it starts with it.
pub fn strip_prefix(text: &str, prefix: &str) -> (rest: Option<String>)
    ensures
        opt_text(rest) == after_prefix(text@, prefix@),
{
    let chars = characters(text);
    let pattern = characters(prefix);
    if chars.len() < pattern.len() {
        return None;
    }
    assert(chars@.subrange(0, 0 + pattern.len()) =~= chars@.take(pattern.len() as int));
    if stands_at(&chars, &pattern, 0) {
        let rest = text_between(&chars, pattern.len(), chars.len());
        assert(rest@ =~= chars@.skip(pattern.len() as int));
        Some(rest)
    } else {
        None
    }
}

/// The first `count` characters of a text, or all of a shorter one.
pub open spec fn first_chars(s: Seq<char>, count: nat) -> Seq<char> {
    if s.len() <= count {
        s
    } else {
        s.take(count as int)
    }
}

/// The first `count` characters of `text`.
pub fn take_chars(text: &str, count: usize) -> (result: String)
    ensures
        result@ == first_chars(text@, count as nat),
{
    let chars = characters(text);
    let to = if chars.len() <= count {
        chars.len()
    } else {
        count
    };
    let result = text_between(&chars, 0, to);
    assert(result@ =~= first_chars(text@, count as nat));
    result
}

} // verus!
