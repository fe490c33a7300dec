//! Operations on text.
use vstd::prelude::*;

verus! {

/// Whether two texts are the same.
pub fn same_text(a: &str, b: &str) -> (result: bool)
    ensures
        result == (a@ == b@),
{
    a.to_owned() == b.to_owned()
}

/// The characters of a text.
fn characters(text: &str) -> (chars: Vec<char>)
    ensures
        chars@ == text@,
{
    let mut chars: Vec<char> = Vec::new();
    for c in iter: text.chars()
        invariant
            iter.seq() == text@,
            chars@ == text@.take(iter.index() as int),
    {
        chars.push(c);
    }
    assert(text@.take(text@.len() as int) =~= text@);
    chars
}

/// The texts, each followed by the separator but for the last.
pub open spec fn joined(parts: Seq<Seq<char>>, separator: Seq<char>) -> Seq<char>
    decreases parts.len(),
{
    if parts.len() == 0 {
        Seq::empty()
    } else if parts.len() == 1 {
        parts[0]
    } else {
        joined(parts.drop_last(), separator) + separator + parts.last()
    }
}

/// The views of some texts.
pub open spec fn views(texts: Seq<String>) -> Seq<Seq<char>> {
    texts.map_values(|text: String| text@)
}

/// Joins texts with a separator between them.
pub fn join(parts: &Vec<String>, separator: &str) -> (result: String)
    ensures
        result@ == joined(views(parts@), separator@),
{
    let mut result = String::new();
    for idx in 0..parts.len()
        invariant
            result@ == joined(views(parts@.take(idx as int)), separator@),
    {
        let ghost next = views(parts@.take(idx + 1));
        assert(next.drop_last() =~= views(parts@.take(idx as int)));
        if idx > 0 {
            result.append(separator);
        }
        result.append(parts[idx].as_str());
        assert(result@ =~= joined(next, separator@));
    }
    assert(parts@.take(parts@.len() as int) =~= parts@);
    result
}

/// The digit of this value.
pub open spec fn digit_char(digit: int) -> char {
    (48 + digit) as char
}

/// The decimal notation of a number.
pub open spec fn decimal(number: nat) -> Seq<char>
    decreases number,
{
    if number < 10 {
        seq![digit_char(number as int)]
    } else {
        decimal(number / 10).push(digit_char((number % 10) as int))
    }
}

/// The text of one digit.
fn digit_text(digit: usize) -> (text: &'static str)
    requires
        digit < 10,
    ensures
        text@ == seq![digit_char(digit as int)],
{
    proof {
        reveal_strlit("0");
        reveal_strlit("1");
        reveal_strlit("2");
        reveal_strlit("3");
        reveal_strlit("4");
        reveal_strlit("5");
        reveal_strlit("6");
        reveal_strlit("7");
        reveal_strlit("8");
        reveal_strlit("9");
    }
    let text = match digit {
        0 => "0",
        1 => "1",
        2 => "2",
        3 => "3",
        4 => "4",
        5 => "5",
        6 => "6",
        7 => "7",
        8 => "8",
        _ => "9",
    };
    assert(text@ =~= seq![digit_char(digit as int)]);
    text
}

/// Writes a number in decimal notation.
pub fn decimal_text(number: usize) -> (text: String)
    ensures
        text@ == decimal(number as nat),
    decreases number,
{
    if number < 10 {
        digit_text(number).to_owned()
    } else {
        let mut text = decimal_text(number / 10);
        text.append(digit_text(number % 10));
        assert(text@ =~= decimal(number as nat));
        text
    }
}

/// Whether all characters are decimal digits.
pub open spec fn all_digits(text: Seq<char>) -> bool {
    forall|i: int| 0 <= i < text.len() ==> '0' <= #[trigger] text[i] <= '9'
}

/// The number that some digits denote.
pub open spec fn digits_value(digits: Seq<char>) -> int
    decreases digits.len(),
{
    if digits.len() == 0 {
        0
    } else {
        10 * digits_value(digits.drop_last()) + (digits.last() as int - 48)
    }
}

/// The characters after an optional plus sign.
pub open spec fn without_plus(text: Seq<char>) -> Seq<char> {
    if text.len() > 0 && text[0] == '+' {
        text.drop_first()
    } else {
        text
    }
}

/// Number of digits before the first character that is none.
pub open spec fn digit_count(text: Seq<char>) -> nat
    decreases text.len(),
{
    if text.len() == 0 || text[0] < '0' || text[0] > '9' {
        0
    } else {
        1 + digit_count(text.drop_first())
    }
}

/// Why a text is no number.
#[derive(Clone, Copy, Debug, PartialEq, Eq, Structural)]
pub enum NumberError {
    /// The text is empty.
    Empty,
    /// A character is no digit, or a sign stands alone.
    InvalidDigit,
    /// The digits, up to the first character that is none, denote a number that is
    /// too large.
    TooLarge,
}

impl NumberError {
    /// The error in words.
    pub fn message(self) -> (text: &'static str)
        ensures
            text@ == match self {
                NumberError::Empty => "cannot parse integer from empty string"@,
                NumberError::InvalidDigit => "invalid digit found in string"@,
                NumberError::TooLarge => "number too large to fit in target type"@,
            },
    {
        match self {
            NumberError::Empty => "cannot parse integer from empty string",
            NumberError::InvalidDigit => "invalid digit found in string",
            NumberError::TooLarge => "number too large to fit in target type",
        }
    }
}

/// The number written in the text: an optional plus sign and at least one digit,
/// and a value that is not too large.
pub open spec fn number_in(text: Seq<char>) -> Result<usize, NumberError> {
    let digits = without_plus(text);
    if text.len() == 0 {
        Err(NumberError::Empty)
    } else if digits_value(digits.take(digit_count(digits) as int)) > usize::MAX {
        Err(NumberError::TooLarge)
    } else if digits.len() == 0 || digit_count(digits) < digits.len() {
        Err(NumberError::InvalidDigit)
    } else {
        Ok(digits_value(digits) as usize)
    }
}

/// The leading digits are digits, and what follows them is none.
proof fn lemma_digit_count(text: Seq<char>)
    ensures
        digit_count(text) <= text.len(),
        all_digits(text.take(digit_count(text) as int)),
        digit_count(text) < text.len() ==> !('0' <= text[digit_count(text) as int] <= '9'),
    decreases text.len(),
{
    if text.len() > 0 && '0' <= text[0] <= '9' {
        let rest = text.drop_first();
        lemma_digit_count(rest);
        let leading = text.take(digit_count(text) as int);
        assert forall|i: int| 0 <= i < leading.len() implies '0' <= #[trigger] leading[i]
            <= '9' by {
            if i > 0 {
                assert(leading[i] == rest.take(digit_count(rest) as int)[i - 1]);
            }
        }
    }
}

proof fn lemma_digits_value_grows(digits: Seq<char>, count: int)
    requires
        all_digits(digits),
        0 <= count <= digits.len(),
    ensures
        0 <= digits_value(digits.take(count)) <= digits_value(digits),
    decreases digits.len(),
{
    if count < digits.len() {
        lemma_digits_value_grows(digits.drop_last(), count);
        assert(digits.drop_last().take(count) =~= digits.take(count));
    } else {
        assert(digits.take(count) =~= digits);
        if digits.len() > 0 {
            lemma_digits_value_grows(digits.drop_last(), count - 1);
        }
    }
}

/// Reads a non-negative number.
pub fn parse_number(text: &str) -> (result: Result<usize, NumberError>)
    ensures
        result == number_in(text@),
{
    let chars: Vec<char> = characters(text);
    if chars.len() == 0 {
        return Err(NumberError::Empty);
    }
    let start: usize = if chars[0] == '+' {
        1
    } else {
        0
    };
    let ghost digits = without_plus(text@);
    let ghost leading = digits.take(digit_count(digits) as int);
    proof {
        assert(digits =~= chars@.skip(start as int));
        lemma_digit_count(digits);
        lemma_digits_value_grows(leading, 0);
        assert(leading.take(0) =~= Seq::<char>::empty());
    }
    if start == chars.len() {
        return Err(NumberError::InvalidDigit);
    }
    let mut value: usize = 0;
    for idx in start..chars.len()
        invariant
            chars@ == text@,
            chars.len() > 0,
            start <= idx <= chars.len(),
            digits == without_plus(text@),
            digits == chars@.skip(start as int),
            leading == digits.take(digit_count(digits) as int),
            all_digits(leading),
            digit_count(digits) <= digits.len(),
            digit_count(digits) < digits.len() ==> !('0' <= digits[digit_count(digits) as int]
                <= '9'),
            idx - start <= digit_count(digits),
            value == digits_value(digits.take(idx - start)),
    {
        let c: char = chars[idx];
        let ghost so_far = digits.take(idx - start);
        let ghost next = digits.take(idx - start + 1);
        assert(digits[idx - start] == c);
        if c < '0' || c > '9' {
            proof {
                if idx - start < leading.len() {
                    assert(leading[idx - start] == c);
                }
                assert(leading =~= so_far);
            }
            return Err(NumberError::InvalidDigit);
        }
        proof {
            assert(next.drop_last() =~= so_far);
            assert(leading.take(idx - start + 1) =~= next);
            lemma_digits_value_grows(leading, idx - start + 1);
        }
        let digit: usize = (c as u32 - 48) as usize;
        if value > usize::MAX / 10 || value * 10 > usize::MAX - digit {
            return Err(NumberError::TooLarge);
        }
        value = value * 10 + digit;
    }
    assert(digits.take(digits.len() as int) =~= digits);
    Ok(value)
}

/// A number is read back from its decimal notation.
pub proof fn law_decimal_is_read_back(number: usize)
    ensures
        number_in(decimal(number as nat)) == Ok::<usize, NumberError>(number),
{
    let text = decimal(number as nat);
    lemma_decimal_digits(number as nat);
    lemma_digit_count(text);
    assert(text.take(text.len() as int) =~= text);
}

proof fn lemma_decimal_digits(number: nat)
    ensures
        decimal(number).len() > 0,
        all_digits(decimal(number)),
        digits_value(decimal(number)) == number,
    decreases number,
{
    if number < 10 {
        assert(decimal(number).drop_last() =~= Seq::<char>::empty());
        assert(digits_value(Seq::<char>::empty()) == 0);
    } else {
        lemma_decimal_digits(number / 10);
        let front = decimal(number / 10);
        assert(decimal(number).drop_last() =~= front);
        assert forall|i: int| 0 <= i < decimal(number).len() implies '0' <= #[trigger] decimal(
            number,
        )[i] <= '9' by {
            if i < front.len() {
                assert(decimal(number)[i] == front[i]);
            }
        }
    }
}

/// The character in lower case, if it is an ASCII letter in upper case.
pub open spec fn ascii_lower(c: char) -> char {
    if 'A' <= c <= 'Z' {
        (c as int + 32) as char
    } else {
        c
    }
}

/// The text with its ASCII letters in lower case.
pub open spec fn lowered(text: Seq<char>) -> Seq<char> {
    text.map_values(|c: char| ascii_lower(c))
}

/// Whether a text reads as `word` once its ASCII letters are in lower case.
pub fn equals_lowered(text: &str, word: &str) -> (result: bool)
    ensures
        result == (lowered(text@) == word@),
{
    let chars: Vec<char> = characters(text);
    let expected: Vec<char> = characters(word);
    if chars.len() != expected.len() {
        assert(lowered(text@).len() == text@.len());
        return false;
    }
    for idx in 0..chars.len()
        invariant
            chars@ == text@,
            expected@ == word@,
            chars.len() == expected.len(),
            forall|i: int| 0 <= i < idx ==> ascii_lower(#[trigger] chars@[i]) == expected@[i],
    {
        let c: char = chars[idx];
        let w: char = expected[idx];
        let same: bool = if 'A' <= c && c <= 'Z' {
            'a' <= w && w <= 'z' && c as u32 + 32 == w as u32
        } else {
            c == w
        };
        if !same {
            assert(lowered(text@)[idx as int] != word@[idx as int]);
            return false;
        }
    }
    assert(lowered(text@) =~= word@);
    true
}

/// Whether a character has the Unicode property `White_Space`.
pub open spec fn is_white_space(c: char) -> bool {
    let code = c as u32;
    ||| 0x9 <= code <= 0xd
    ||| code == 0x20
    ||| code == 0x85
    ||| code == 0xa0
    ||| code == 0x1680
    ||| 0x2000 <= code <= 0x200a
    ||| code == 0x2028
    ||| code == 0x2029
    ||| code == 0x202f
    ||| code == 0x205f
    ||| code == 0x3000
}

fn has_white_space(c: char) -> (result: bool)
    ensures
        result == is_white_space(c),
{
    let code: u32 = c as u32;
    (0x9 <= code && code <= 0xd) || code == 0x20 || code == 0x85 || code == 0xa0 || code == 0x1680
        || (0x2000 <= code && code <= 0x200a) || code == 0x2028 || code == 0x2029 || code == 0x202f
        || code == 0x205f || code == 0x3000
}

/// The text without white space at its ends.
pub open spec fn trimmed(text: Seq<char>) -> Seq<char>
    decreases text.len(),
{
    if text.len() == 0 {
        text
    } else if is_white_space(text.first()) {
        trimmed(text.drop_first())
    } else if is_white_space(text.last()) {
        trimmed(text.drop_last())
    } else {
        text
    }
}

/// Takes white space off both ends.
pub fn trim(text: &str) -> (result: &str)
    ensures
        result@ == trimmed(text@),
{
    let chars: Vec<char> = characters(text);
    let mut from: usize = 0;
    let mut to: usize = chars.len();
    assert(chars@.subrange(0, to as int) =~= text@);
    while from < to && has_white_space(chars[from])
        invariant
            chars@ == text@,
            from <= to,
            to == chars.len(),
            trimmed(text@) == trimmed(text@.subrange(from as int, to as int)),
        decreases to - from,
    {
        assert(text@.subrange(from as int, to as int).drop_first() =~= text@.subrange(
            from + 1,
            to as int,
        ));
        from += 1;
    }
    while from < to && has_white_space(chars[to - 1])
        invariant
            chars@ == text@,
            from <= to <= chars.len(),
            from < to ==> !is_white_space(text@[from as int]),
            trimmed(text@) == trimmed(text@.subrange(from as int, to as int)),
        decreases to - from,
    {
        assert(text@.subrange(from as int, to as int).drop_last() =~= text@.subrange(
            from as int,
            to - 1,
        ));
        to -= 1;
    }
    text.substring_char(from, to)
}

/// The line without the carriage return that may end it.
pub open spec fn without_carriage_return(line: Seq<char>) -> Seq<char> {
    if line.len() > 0 && line.last() == '\r' {
        line.drop_last()
    } else {
        line
    }
}

/// Number of characters before the first line feed, or of all if there is none.
pub open spec fn line_len(text: Seq<char>) -> nat
    decreases text.len(),
{
    if text.len() == 0 || text[0] == '\n' {
        0
    } else {
        1 + line_len(text.drop_first())
    }
}

/// The lines of a text: each ends in a line feed, with or without a carriage
/// return before it, and the last may lack this ending.
pub open spec fn lines_of(text: Seq<char>) -> Seq<Seq<char>>
    decreases text.len(),
{
    let end = line_len(text);
    if text.len() == 0 {
        Seq::empty()
    } else if end >= text.len() {
        seq![text]
    } else {
        seq![without_carriage_return(text.take(end as int))] + lines_of(text.skip(end as int + 1))
    }
}

/// Splits a text into lines with `str::lines`. What is claimed of it: it yields
/// the lines of the text in order, without their line feeds and without a
/// carriage return right before a line feed; an ending of the last line makes no
/// further line.
#[verifier::external_body]
pub(crate) fn split_lines(text: &str) -> (lines: Vec<&str>)
    ensures
        lines@.len() == lines_of(text@).len(),
        forall|i: int| 0 <= i < lines@.len() ==> #[trigger] lines@[i]@ == lines_of(text@)[i],
{
    text.lines().collect()
}

/// White space are these characters and no others: tab to carriage return, space, next
/// line, no-break space, and the spaces and separators of Unicode.
pub proof fn law_white_space(c: char)
    ensures
        is_white_space(c) <==> set![
            9u32, 10, 11, 12, 13, 32, 133, 160, 5760, 8192, 8193, 8194, 8195, 8196, 8197, 8198,
            8199, 8200, 8201, 8202, 8232, 8233, 8239, 8287, 12288
        ].contains(c as u32),
{
}

/// What trimming leaves is one piece of the text: it neither starts nor ends with white
/// space, and everything before and behind it is white space. The piece is the one
/// between the positions found.
pub proof fn law_trimming_takes_white_space_off(text: Seq<char>) -> (ends: (int, int))
    ensures
        0 <= ends.0 <= ends.1 <= text.len(),
        trimmed(text) == text.subrange(ends.0, ends.1),
        ends.0 < ends.1 ==> !is_white_space(text[ends.0]) && !is_white_space(text[ends.1 - 1]),
        forall|i: int|
            0 <= i < text.len() && !(ends.0 <= i < ends.1) ==> is_white_space(#[trigger] text[i]),
    decreases text.len(),
{
    if text.len() == 0 {
        assert(text.subrange(0, 0) =~= text);
        (0, 0)
    } else if is_white_space(text.first()) {
        let rest = text.drop_first();
        let (from, to) = law_trimming_takes_white_space_off(rest);
        assert(rest.subrange(from, to) =~= text.subrange(from + 1, to + 1));
        assert forall|i: int|
            0 <= i < text.len() && !(from + 1 <= i < to + 1) implies is_white_space(
            #[trigger] text[i],
        ) by {
            if i > 0 {
                assert(rest[i - 1] == text[i]);
            }
        }
        (from + 1, to + 1)
    } else if is_white_space(text.last()) {
        let rest = text.drop_last();
        let (from, to) = law_trimming_takes_white_space_off(rest);
        assert(rest.subrange(from, to) =~= text.subrange(from, to));
        assert forall|i: int| 0 <= i < text.len() && !(from <= i < to) implies is_white_space(
            #[trigger] text[i],
        ) by {
            if i < rest.len() {
                assert(rest[i] == text[i]);
            }
        }
        (from, to)
    } else {
        assert(text.subrange(0, text.len() as int) =~= text);
        (0, text.len() as int)
    }
}

/// A line ends at its line feed, and a carriage return right before that is no part of
/// it. What follows is split in turn, a last line needs no ending, and an empty text has
/// no line.
pub proof fn law_lines_end_at_line_feeds(line: Seq<char>, rest: Seq<char>)
    requires
        !line.contains('\n'),
    ensures
        lines_of(Seq::empty()) == Seq::<Seq<char>>::empty(),
        line.len() > 0 ==> lines_of(line) == seq![line],
        line.len() > 0 && line.last() == '\r' ==> lines_of(line.push('\n') + rest) == seq![
            line.drop_last(),
        ] + lines_of(rest),
        line.len() == 0 || line.last() != '\r' ==> lines_of(line.push('\n') + rest) == seq![line]
            + lines_of(rest),
{
    let text = line.push('\n') + rest;
    lemma_line_len(line, Seq::empty());
    assert(line + Seq::<char>::empty() =~= line);
    lemma_line_len(line, seq!['\n'] + rest);
    assert(line + (seq!['\n'] + rest) =~= text);
    assert(text.take(line.len() as int) =~= line);
    assert(text.skip(line.len() as int + 1) =~= rest);
}

proof fn lemma_line_len(line: Seq<char>, rest: Seq<char>)
    requires
        !line.contains('\n'),
        rest.len() == 0 || rest[0] == '\n',
    ensures
        line_len(line + rest) == line.len(),
    decreases line.len(),
{
    if line.len() == 0 {
        assert(line + rest =~= rest);
    } else {
        let text = line + rest;
        assert(line.contains(line[0]));
        assert(!line.drop_first().contains('\n')) by {
            if line.drop_first().contains('\n') {
                let i = choose|i: int|
                    0 <= i < line.drop_first().len() && line.drop_first()[i] == '\n';
                assert(line[i + 1] == '\n');
            }
        }
        lemma_line_len(line.drop_first(), rest);
        assert(text.drop_first() =~= line.drop_first() + rest);
    }
}

/// Lowering turns the letters from `A` to `Z` into those from `a` to `z` and leaves every
/// other character, and their number, as it is.
pub proof fn law_lowering_changes_capitals_alone(text: Seq<char>, i: int)
    requires
        0 <= i < text.len(),
    ensures
        lowered(text).len() == text.len(),
        65 <= text[i] as u32 <= 90 ==> lowered(text)[i] as u32 == text[i] as u32 + 32,
        !(65 <= text[i] as u32 <= 90) ==> lowered(text)[i] == text[i],
{
}

/// Joined texts follow each other in order, with the separator between any two.
pub proof fn law_joining_puts_separators_between(
    parts: Seq<Seq<char>>,
    separator: Seq<char>,
    next: Seq<char>,
)
    ensures
        joined(Seq::empty(), separator) == Seq::<char>::empty(),
        joined(seq![next], separator) == next,
        parts.len() > 0 ==> joined(parts.push(next), separator) == joined(parts, separator)
            + separator + next,
{
    assert(parts.push(next).drop_last() =~= parts);
}

/// A further digit makes ten times the number, plus the digit, and no digits are zero.
pub proof fn law_digits_are_decimal(digits: Seq<char>, digit: int)
    requires
        0 <= digit < 10,
    ensures
        digits_value(Seq::empty()) == 0,
        digits_value(digits.push((48 + digit) as char)) == 10 * digits_value(digits) + digit,
{
    assert(digits.push((48 + digit) as char).drop_last() =~= digits);
}

/// A text is the number that its digits denote, with or without a plus sign before them.
/// It is too large if its leading digits are; otherwise a character that is no digit, or
/// the lack of any digit, makes it invalid.
pub proof fn law_numbers_are_read(digits: Seq<char>, rest: Seq<char>)
    requires
        forall|i: int| 0 <= i < digits.len() ==> '0' <= #[trigger] digits[i] <= '9',
        rest.len() > 0 ==> !('0' <= rest[0] <= '9'),
    ensures
        ({
            let signed = number_in(seq!['+'] + (digits + rest));
            let plain = number_in(digits + rest);
            let value = digits_value(digits);
            &&& number_in(Seq::empty()) == Err::<usize, NumberError>(NumberError::Empty)
            &&& digits.len() > 0 ==> plain == signed
            &&& value > usize::MAX ==> signed == Err::<usize, NumberError>(NumberError::TooLarge)
            &&& value <= usize::MAX && (rest.len() > 0 || digits.len() == 0) ==> signed == Err::<
                usize,
                NumberError,
            >(NumberError::InvalidDigit)
            &&& digits.len() > 0 && rest.len() == 0 && value <= usize::MAX ==> signed == Ok::<
                usize,
                NumberError,
            >(value as usize)
            &&& digits.len() == 0 && rest.len() > 0 && rest[0] != '+' ==> plain == Err::<
                usize,
                NumberError,
            >(NumberError::InvalidDigit)
        }),
{
    let text = digits + rest;
    let with_sign = seq!['+'] + text;
    lemma_digit_count(text);
    let count = digit_count(text) as int;
    assert(count == digits.len()) by {
        if count < digits.len() {
            assert(text[count] == digits[count]);
        } else if count > digits.len() {
            assert(text.take(count)[digits.len() as int] == rest[0]);
        }
    }
    assert(text.take(count) =~= digits);
    assert(without_plus(with_sign) =~= text);
    if digits.len() > 0 {
        assert(text[0] == digits[0]);
        assert(without_plus(text) == text);
    }
    if rest.len() == 0 {
        assert(text =~= digits);
    }
    assert(digits_value(Seq::<char>::empty()) == 0);
    if digits.len() == 0 {
        assert(digits =~= Seq::<char>::empty());
        assert(text =~= rest);
    }
}

/// Decimal notation has no leading zero, and one digit for a number below ten.
pub proof fn law_decimal_is_shortest(number: nat)
    ensures
        decimal(number)[0] == '0' <==> number == 0,
        decimal(number).len() == 1 <==> number < 10,
        forall|i: int|
            0 <= i < decimal(number).len() ==> '0' <= #[trigger] decimal(number)[i] <= '9',
    decreases number,
{
    lemma_decimal_digits(number);
    if number >= 10 {
        law_decimal_is_shortest(number / 10);
        lemma_decimal_digits(number / 10);
        assert(decimal(number)[0] == decimal(number / 10)[0]);
    }
}

/// The views of texts are the texts, one by one.
pub proof fn law_views_of_texts(texts: Seq<String>, i: int)
    ensures
        views(texts).len() == texts.len(),
        0 <= i < texts.len() ==> views(texts)[i] == texts[i]@,
{
}

} // verus!
