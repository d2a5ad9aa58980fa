//! Text operations that the configuration rules are written with.
//!
//! Each works on the characters of a string. The functions on sequences of
//! characters say what is computed.

use vstd::prelude::*;
use vstd::string::StringExecFns;

verus! {

/// `String::push` appends one character.
pub assume_specification[ String::push ](s: &mut String, c: char)
    ensures
        final(s)@ == old(s)@.push(c),
;

/// Characters with the Unicode property `White_Space`.
pub open spec fn white_space(c: char) -> bool {
    let code = c as u32;
    ||| 0x09 <= code <= 0x0d
    ||| code == 0x20
    ||| code == 0x85
    ||| code == 0xa0
    ||| code == 0x1680
    ||| 0x2000 <= code <= 0x200a
    ||| code == 0x2028
    ||| code == 0x2029
    ||| code == 0x202f
    ||| code == 0x205f
    ||| code == 0x3000
}

pub fn is_white_space(c: char) -> (result: bool)
    ensures
        result == white_space(c),
{
    let code: u32 = c as u32;
    (0x09 <= code && code <= 0x0d) || code == 0x20 || code == 0x85 || code == 0xa0 || code == 0x1680
        || (0x2000 <= code && code <= 0x200a) || code == 0x2028 || code == 0x2029 || code == 0x202f
        || code == 0x205f || code == 0x3000
}

/// The lower-case form of an ASCII capital; any other character as it is.
pub open spec fn ascii_lower(c: char) -> char {
    if 'A' <= c && c <= 'Z' {
        ((c as u32) + 32) as char
    } else {
        c
    }
}

/// The text with every character replaced by its [`ascii_lower`] form.
pub open spec fn lowered(s: Seq<char>) -> Seq<char> {
    s.map_values(|c: char| ascii_lower(c))
}

/// The text without the white space that it starts with.
pub open spec fn without_leading_space(s: Seq<char>) -> Seq<char>
    decreases s.len(),
{
    if s.len() > 0 && white_space(s[0]) {
        without_leading_space(s.drop_first())
    } else {
        s
    }
}

/// The text without the white space that it ends with.
pub open spec fn without_trailing_space(s: Seq<char>) -> Seq<char>
    decreases s.len(),
{
    if s.len() > 0 && white_space(s.last()) {
        without_trailing_space(s.drop_last())
    } else {
        s
    }
}

/// The text without white space at either end.
pub open spec fn trimmed(s: Seq<char>) -> Seq<char> {
    without_trailing_space(without_leading_space(s))
}

/// The pieces between the occurrences of `separator`; one more than there are
/// occurrences.
pub open spec fn pieces_between(s: Seq<char>, separator: char) -> Seq<Seq<char>>
    decreases s.len(),
{
    if s.len() == 0 {
        seq![Seq::<char>::empty()]
    } else {
        let before = pieces_between(s.drop_last(), separator);
        if s.last() == separator {
            before.push(Seq::<char>::empty())
        } else {
            before.drop_last().push(before.last().push(s.last()))
        }
    }
}

/// The decimal digits of `n`, most significant first, without leading zeros.
pub open spec fn decimal_digits(n: nat) -> Seq<char>
    decreases n,
{
    if n < 10 {
        seq![digit_char(n)]
    } else {
        decimal_digits(n / 10).push(digit_char(n % 10))
    }
}

/// The character of a digit below ten.
pub open spec fn digit_char(d: nat) -> char {
    ((48 + d) as u32) as char
}

/// The digit that a character stands for, where it is one.
pub open spec fn digit_value(c: char) -> int {
    (c as u32) - 48
}

pub open spec fn is_digit(c: char) -> bool {
    '0' <= c && c <= '9'
}

/// What a run of digits stands for in base ten.
pub open spec fn decimal_value(s: Seq<char>) -> int
    decreases s.len(),
{
    if s.len() == 0 {
        0
    } else {
        decimal_value(s.drop_last()) * 10 + digit_value(s.last())
    }
}

/// An unsigned decimal numeral: an optional plus sign, then one or more digits.
pub open spec fn is_numeral(s: Seq<char>) -> bool {
    let digits = numeral_digits(s);
    digits.len() > 0 && (forall|i: int| 0 <= i < digits.len() ==> is_digit(#[trigger] digits[i]))
}

/// A numeral without its plus sign.
pub open spec fn numeral_digits(s: Seq<char>) -> Seq<char> {
    if s.len() > 0 && s[0] == '+' {
        s.drop_first()
    } else {
        s
    }
}

/// The characters of `s`.
pub fn chars_of(s: &str) -> (result: Vec<char>)
    ensures
        result@ == s@,
{
    let mut result: Vec<char> = Vec::new();
    for c in it: s.chars()
        invariant
            result@ == it.seq().take(it.index()),
            it.seq() == s@,
    {
        result.push(c);
        proof {
            assert(it.seq().take(it.index() + 1) == it.seq().take(it.index()).push(c));
        }
    }
    proof {
        assert(s@.take(s@.len() as int) == s@);
    }
    result
}

/// The text made of `chars[from..to]`.
pub fn text_of(chars: &Vec<char>, from: usize, to: usize) -> (result: String)
    requires
        from <= to <= chars@.len(),
    ensures
        result@ == chars@.subrange(from as int, to as int),
{
    let mut result = String::new();
    let mut i: usize = from;
    while i < to
        invariant
            from <= i <= to <= chars@.len(),
            result@ == chars@.subrange(from as int, i as int),
        decreases to - i,
    {
        result.push(chars[i]);
        proof {
            assert(chars@.subrange(from as int, i + 1) == chars@.subrange(from as int, i as int).push(
                chars@[i as int],
            ));
        }
        i += 1;
    }
    result
}

/// An owned copy.
pub fn copy_of(s: &str) -> (result: String)
    ensures
        result@ == s@,
{
    s.to_owned()
}

/// `a` followed by `b`.
pub fn concat2(a: &str, b: &str) -> (result: String)
    ensures
        result@ == a@ + b@,
{
    a.to_owned().concat(b)
}

/// `a`, `b` and `c` in a row.
pub fn concat3(a: &str, b: &str, c: &str) -> (result: String)
    ensures
        result@ == a@ + b@ + c@,
{
    concat2(a, b).concat(c)
}

/// Whether two texts hold the same characters.
pub fn same_text(a: &str, b: &str) -> (result: bool)
    ensures
        result == (a@ == b@),
{
    a.to_owned() == b.to_owned()
}

/// The text with ASCII capitals in lower case.
pub fn to_ascii_lowercase(s: &str) -> (result: String)
    ensures
        result@ == lowered(s@),
{
    let chars = chars_of(s);
    let mut result = String::new();
    let mut i: usize = 0;
    while i < chars.len()
        invariant
            i <= chars@.len(),
            chars@ == s@,
            result@ == lowered(s@.take(i as int)),
        decreases chars@.len() - i,
    {
        let c = chars[i];
        let lower: char = ascii_lower_char(c);
        result.push(lower);
        proof {
            assert(lowered(s@.take(i + 1)) == lowered(s@.take(i as int)).push(ascii_lower(c)));
        }
        i += 1;
    }
    proof {
        assert(s@.take(s@.len() as int) == s@);
    }
    result
}

/// The lower-case form of an ASCII capital.
pub fn ascii_lower_char(c: char) -> (result: char)
    ensures
        result == ascii_lower(c),
{
    if 'A' <= c && c <= 'Z' {
        let code: u8 = (c as u8) + 32;
        code as char
    } else {
        c
    }
}

/// The upper-case form of a lower-case ASCII letter.
pub open spec fn ascii_upper(c: char) -> char {
    if 'a' <= c && c <= 'z' {
        ((c as u8) - 32) as u8 as char
    } else {
        c
    }
}

/// The text with lower-case ASCII letters in upper case.
pub open spec fn uppered(s: Seq<char>) -> Seq<char> {
    s.map_values(|c: char| ascii_upper(c))
}

/// The text with lower-case ASCII letters in upper case.
pub fn to_ascii_uppercase(s: &str) -> (result: String)
    ensures
        result@ == uppered(s@),
{
    let chars = chars_of(s);
    let mut result = String::new();
    let mut i: usize = 0;
    while i < chars.len()
        invariant
            i <= chars@.len(),
            chars@ == s@,
            result@ == uppered(s@.take(i as int)),
        decreases chars@.len() - i,
    {
        let c = chars[i];
        let upper: char = if 'a' <= c && c <= 'z' {
            let code: u8 = (c as u8) - 32;
            code as char
        } else {
            c
        };
        result.push(upper);
        proof {
            assert(uppered(s@.take(i + 1)) == uppered(s@.take(i as int)).push(ascii_upper(c)));
        }
        i += 1;
    }
    proof {
        assert(s@.take(s@.len() as int) == s@);
    }
    result
}

/// What `str::to_uppercase` makes of a text.
pub uninterp spec fn uppercase_form(s: Seq<char>) -> Seq<char>;

/// Only ASCII characters.
pub open spec fn all_ascii(s: Seq<char>) -> bool {
    forall|i: int| 0 <= i < s.len() ==> (#[trigger] s[i]) as u32 <= 0x7f
}

/// `str::to_uppercase`, which goes by the upper-case forms of Unicode and depends on the
/// text alone. ASCII text has its lower-case letters replaced by capitals; what becomes
/// of other characters is not said.
#[verifier::external_body]
fn unicode_uppercase(s: &str) -> (result: String)
    ensures
        result@ == uppercase_form(s@),
        all_ascii(s@) ==> result@ == uppered(s@),
{
    s.to_uppercase()
}

/// The text in upper case.
pub fn to_uppercase(s: &str) -> (result: String)
    ensures
        result@ == uppercase_form(s@),
        all_ascii(s@) ==> result@ == uppered(s@),
{
    unicode_uppercase(s)
}

/// Whether two texts agree but for the case of ASCII letters.
pub fn eq_ignore_ascii_case(a: &str, b: &str) -> (result: bool)
    ensures
        result == (lowered(a@) == lowered(b@)),
{
    let left = to_ascii_lowercase(a);
    let right = to_ascii_lowercase(b);
    left == right
}

proof fn lemma_without_leading_space(s: Seq<char>, k: int)
    requires
        0 <= k <= s.len(),
        forall|i: int| 0 <= i < k ==> white_space(#[trigger] s[i]),
        k < s.len() ==> !white_space(s[k]),
    ensures
        without_leading_space(s) == s.skip(k),
    decreases s.len(),
{
    if k > 0 {
        assert(white_space(s[0]));
        let rest = s.drop_first();
        assert forall|i: int| 0 <= i < k - 1 implies white_space(#[trigger] rest[i]) by {
            assert(white_space(s[i + 1]));
        }
        lemma_without_leading_space(rest, k - 1);
        assert(rest.skip(k - 1) == s.skip(k));
    } else {
        assert(s.skip(0) == s);
    }
}

proof fn lemma_without_trailing_space(s: Seq<char>, k: int)
    requires
        0 <= k <= s.len(),
        forall|i: int| k <= i < s.len() ==> white_space(#[trigger] s[i]),
        k > 0 ==> !white_space(s[k - 1]),
    ensures
        without_trailing_space(s) == s.take(k),
    decreases s.len(),
{
    if k < s.len() {
        assert(white_space(s[s.len() - 1]));
        lemma_without_trailing_space(s.drop_last(), k);
        assert(s.drop_last().take(k) == s.take(k));
    } else {
        assert(s.take(k) == s);
    }
}

/// The text without white space at either end.
pub fn trim(s: &str) -> (result: String)
    ensures
        result@ == trimmed(s@),
{
    let chars = chars_of(s);
    let mut from: usize = 0;
    while from < chars.len() && is_white_space(chars[from])
        invariant
            from <= chars@.len(),
            forall|i: int| 0 <= i < from ==> white_space(#[trigger] chars@[i]),
        decreases chars@.len() - from,
    {
        from += 1;
    }
    let mut to: usize = chars.len();
    while from < to && is_white_space(chars[to - 1])
        invariant
            from <= to <= chars@.len(),
            forall|i: int| to <= i < chars@.len() ==> white_space(#[trigger] chars@[i]),
        decreases to - from,
    {
        to -= 1;
    }
    proof {
        lemma_without_leading_space(s@, from as int);
        let rest = s@.skip(from as int);
        assert forall|i: int| to - from <= i < rest.len() implies white_space(#[trigger] rest[i]) by {
            assert(white_space(chars@[i + from]));
        }
        lemma_without_trailing_space(rest, to - from);
        assert(rest.take(to - from) == s@.subrange(from as int, to as int));
    }
    text_of(&chars, from, to)
}

/// The views of a list of texts.
pub open spec fn views(list: Seq<String>) -> Seq<Seq<char>> {
    list.map_values(|s: String| s@)
}

/// The pieces of `s` between the occurrences of `separator`.
pub fn split(s: &str, separator: char) -> (result: Vec<String>)
    ensures
        views(result@) == pieces_between(s@, separator),
{
    let chars = chars_of(s);
    let mut done: Vec<String> = Vec::new();
    let mut current = String::new();
    let mut i: usize = 0;
    proof {
        assert(s@.take(0) == Seq::<char>::empty());
        assert(views(done@).push(current@) == pieces_between(s@.take(0), separator));
    }
    while i < chars.len()
        invariant
            i <= chars@.len(),
            chars@ == s@,
            views(done@).push(current@) == pieces_between(s@.take(i as int), separator),
        decreases chars@.len() - i,
    {
        let c = chars[i];
        proof {
            assert(s@.take(i + 1).drop_last() == s@.take(i as int));
            assert(s@.take(i + 1).last() == c);
        }
        let ghost before = views(done@);
        if c == separator {
            let ghost piece = current@;
            done.push(current);
            current = String::new();
            proof {
                assert(views(done@) == before.push(piece));
            }
        } else {
            let ghost piece = current@;
            current.push(c);
            proof {
                assert(before.push(piece).drop_last() == before);
                assert(before.push(piece).last() == piece);
            }
        }
        i += 1;
    }
    proof {
        assert(s@.take(s@.len() as int) == s@);
    }
    let ghost before = views(done@);
    let ghost piece = current@;
    done.push(current);
    proof {
        assert(views(done@) == before.push(piece));
    }
    done
}

/// The character of a hexadecimal digit below sixteen.
pub open spec fn hex_char(d: nat) -> char {
    if d < 10 {
        ((48 + d) as u32) as char
    } else {
        ((87 + d) as u32) as char
    }
}

/// The last `width` hexadecimal digits of `n`, most significant first.
pub open spec fn hex_digits(n: nat, width: nat) -> Seq<char>
    decreases width,
{
    if width == 0 {
        Seq::<char>::empty()
    } else {
        hex_digits(n / 16, (width - 1) as nat).push(hex_char(n % 16))
    }
}

/// The last `width` hexadecimal digits of `n`.
pub fn hexadecimal(n: u64, width: u32) -> (result: String)
    ensures
        result@ == hex_digits(n as nat, width as nat),
    decreases width,
{
    if width == 0 {
        String::new()
    } else {
        let mut s = hexadecimal(n / 16, width - 1);
        let d: u64 = n % 16;
        if d < 10 {
            s.push(((48 + d) as u8) as char);
        } else {
            s.push(((87 + d) as u8) as char);
        }
        s
    }
}

/// The decimal numeral of a count that may exceed 64 bits.
pub fn decimal_wide(n: u128) -> (result: String)
    ensures
        result@ == decimal_digits(n as nat),
    decreases n,
{
    if n < 10 {
        let mut s = String::new();
        s.push(((48 + n) as u8) as char);
        proof {
            assert(s@ == seq![digit_char(n as nat)]);
        }
        s
    } else {
        let mut s = decimal_wide(n / 10);
        s.push(((48 + n % 10) as u8) as char);
        s
    }
}

/// The decimal numeral of `n`.
pub fn decimal(n: u64) -> (result: String)
    ensures
        result@ == decimal_digits(n as nat),
    decreases n,
{
    if n < 10 {
        let mut s = String::new();
        s.push(((48 + n) as u8) as char);
        proof {
            assert(s@ == seq![digit_char(n as nat)]);
        }
        s
    } else {
        let mut s = decimal(n / 10);
        s.push(((48 + n % 10) as u8) as char);
        s
    }
}

proof fn lemma_decimal_value_bound(s: Seq<char>)
    requires
        forall|i: int| 0 <= i < s.len() ==> is_digit(#[trigger] s[i]),
    ensures
        decimal_value(s) >= 0,
    decreases s.len(),
{
    if s.len() > 0 {
        lemma_decimal_value_bound(s.drop_last());
    }
}

proof fn lemma_decimal_value_prefix(s: Seq<char>, k: int)
    requires
        0 <= k <= s.len(),
        forall|i: int| 0 <= i < s.len() ==> is_digit(#[trigger] s[i]),
    ensures
        decimal_value(s.take(k)) <= decimal_value(s),
    decreases s.len(),
{
    if k < s.len() {
        lemma_decimal_value_prefix(s.drop_last(), k);
        lemma_decimal_value_bound(s.drop_last());
        assert(s.drop_last().take(k) == s.take(k));
    } else {
        assert(s.take(k) == s);
    }
}

/// Reads an unsigned decimal numeral; `None` where the text is not one or its
/// value does not fit.
pub fn parse_usize(s: &str) -> (result: Option<usize>)
    ensures
        result matches Some(n) ==> is_numeral(s@) && n == decimal_value(numeral_digits(s@)),
        result is None ==> !is_numeral(s@) || decimal_value(numeral_digits(s@)) > usize::MAX,
{
    let chars = chars_of(s);
    let ghost digits = numeral_digits(s@);
    let start: usize = if chars.len() > 0 && chars[0] == '+' {
        1
    } else {
        0
    };
    proof {
        assert(digits == s@.skip(start as int));
    }
    if start == chars.len() {
        return None;
    }
    let mut value: usize = 0;
    let mut i: usize = start;
    proof {
        assert(digits.take(0) == Seq::<char>::empty());
    }
    while i < chars.len()
        invariant
            start <= i <= chars@.len(),
            start < chars@.len(),
            chars@ == s@,
            digits == numeral_digits(s@),
            digits == s@.skip(start as int),
            forall|k: int| 0 <= k < i - start ==> is_digit(#[trigger] digits[k]),
            value == decimal_value(digits.take(i - start)),
        decreases chars@.len() - i,
    {
        let c = chars[i];
        proof {
            assert(c == digits[i - start]);
            assert(digits.take(i - start + 1).drop_last() == digits.take(i - start));
            assert(digits.take(i - start + 1).last() == c);
        }
        if c < '0' || '9' < c {
            proof {
                assert(!is_digit(digits[i - start]));
            }
            return None;
        }
        let d: usize = (c as u8 - 48) as usize;
        let shifted: Option<usize> = value.checked_mul(10);
        let next: Option<usize> = match shifted {
            Some(v) => v.checked_add(d),
            None => None,
        };
        match next {
            Some(v) => {
                value = v;
            },
            None => {
                proof {
                    if is_numeral(s@) {
                        lemma_decimal_value_prefix(digits, i - start + 1);
                        assert(decimal_value(digits.take(i - start + 1)) == value * 10 + d);
                    }
                }
                return None;
            },
        }
        i += 1;
    }
    proof {
        assert(digits.take(digits.len() as int) == digits);
    }
    Some(value)
}

/// A text that is read as an unsigned integer of the machine's size.
pub open spec fn is_machine_numeral(s: Seq<char>) -> bool {
    is_numeral(s) && decimal_value(numeral_digits(s)) <= usize::MAX
}

/// What `str::parse::<usize>` says of a text that it refuses; `None` where it reads
/// a number.
pub uninterp spec fn usize_complaint(s: Seq<char>) -> Option<Seq<char>>;

/// The characters of a text that may be missing.
pub open spec fn optional_view(text: Option<String>) -> Option<Seq<char>> {
    match text {
        Some(text) => Some(text@),
        None => None,
    }
}

/// `str::parse::<usize>`: the error's message, which depends on the text alone.
/// There is none exactly where the text is a decimal numeral, perhaps with a plus
/// sign, whose value fits. Of the words of the message nothing is said.
#[verifier::external_body]
fn usize_parse_message(s: &str) -> (result: Option<String>)
    ensures
        optional_view(result) == usize_complaint(s@),
        result is None <==> is_machine_numeral(s@),
{
    s.parse::<usize>().err().map(|e| e.to_string())
}

/// Reads an unsigned decimal numeral, or says why the text is none.
pub fn read_usize(s: &str) -> (result: Result<usize, String>)
    ensures
        result is Ok <==> is_machine_numeral(s@),
        result matches Ok(n) ==> n == decimal_value(numeral_digits(s@)),
        result matches Err(message) ==> usize_complaint(s@) == Some(message@),
{
    match parse_usize(s) {
        Some(n) => Ok(n),
        None => match usize_parse_message(s) {
            Some(message) => Err(message),
            None => Err(String::new()),
        },
    }
}

/// Lines with a line break between each two.
pub open spec fn lines_text(lines: Seq<Seq<char>>) -> Seq<char>
    decreases lines.len(),
{
    if lines.len() == 0 {
        Seq::<char>::empty()
    } else if lines.len() == 1 {
        lines[0]
    } else {
        lines_text(lines.drop_last()) + "\n"@ + lines.last()
    }
}

/// Lines with a line break between each two.
pub fn join_lines(lines: &Vec<String>) -> (result: String)
    ensures
        result@ == lines_text(views(lines@)),
{
    let mut result = String::new();
    let mut i: usize = 0;
    proof {
        assert(views(lines@).take(0) == Seq::<Seq<char>>::empty());
    }
    while i < lines.len()
        invariant
            i <= lines@.len(),
            result@ == lines_text(views(lines@).take(i as int)),
        decreases lines@.len() - i,
    {
        proof {
            let next = views(lines@).take(i + 1);
            assert(next.drop_last() == views(lines@).take(i as int));
            assert(next.last() == lines@[i as int]@);
        }
        if i > 0 {
            result.append("\n");
        }
        let ghost before = result@;
        result.append(lines[i].as_str());
        proof {
            if i == 0 {
                assert(before + lines@[0]@ =~= lines@[0]@);
            }
        }
        i += 1;
    }
    proof {
        assert(views(lines@).take(lines@.len() as int) == views(lines@));
    }
    result
}

/// So many spaces.
pub open spec fn spaces(count: int) -> Seq<char> {
    Seq::new(
        if count > 0 {
            count as nat
        } else {
            0
        },
        |i: int| ' ',
    )
}

/// A text filled up with spaces behind it to a width.
pub open spec fn left_aligned(s: Seq<char>, width: nat) -> Seq<char> {
    s + spaces(width - s.len())
}

/// A text filled up with spaces before it to a width.
pub open spec fn right_aligned(s: Seq<char>, width: nat) -> Seq<char> {
    spaces(width - s.len()) + s
}

fn blanks(used: usize, width: usize) -> (result: String)
    ensures
        result@ == spaces(width - used),
{
    let mut result = String::new();
    let mut i: usize = used;
    while i < width
        invariant
            used <= i,
            i <= width || i == used,
            result@ == spaces(i - used),
        decreases width - i,
    {
        result.push(' ');
        i += 1;
        proof {
            assert(result@ =~= spaces(i - used));
        }
    }
    proof {
        assert(result@ =~= spaces(width - used));
    }
    result
}

/// A text filled up with spaces behind it to a width.
pub fn align_left(s: &str, width: usize) -> (result: String)
    ensures
        result@ == left_aligned(s@, width as nat),
{
    let fill = blanks(s.unicode_len(), width);
    concat2(s, fill.as_str())
}

/// A text filled up with spaces before it to a width.
pub fn align_right(s: &str, width: usize) -> (result: String)
    ensures
        result@ == right_aligned(s@, width as nat),
{
    let fill = blanks(s.unicode_len(), width);
    concat2(fill.as_str(), s)
}

/// A share of samples: percent, and the two counts.
pub open spec fn share(percent: Seq<char>, count: usize, total: usize) -> Seq<char> {
    percent + "% ("@ + decimal_digits(count as nat) + "/"@ + decimal_digits(total as nat) + ")"@
}

/// A share of samples.
pub fn share_text(percent: &str, count: usize, total: usize) -> (result: String)
    ensures
        result@ == share(percent@, count, total),
{
    let c = decimal(count as u64);
    let t = decimal(total as u64);
    let mut text = concat3(percent, "% (", c.as_str());
    text.append("/");
    text.append(t.as_str());
    text.append(")");
    text
}

/// Trimming takes away white space at the ends and nothing else: what is left begins and
/// ends with something else, and a text that does so is left alone.
pub proof fn trimming_takes_the_ends(s: Seq<char>)
    ensures
        trimmed(s).len() > 0 ==> !white_space(trimmed(s)[0]) && !white_space(trimmed(s).last()),
        s.len() > 0 && !white_space(s[0]) && !white_space(s.last()) ==> trimmed(s) == s,
        exists|from: int, to: int|
            0 <= from <= to <= s.len() && trimmed(s) == #[trigger] s.subrange(from, to) && (
            forall|i: int|
                0 <= i < s.len() && !(from <= i < to) ==> white_space(#[trigger] s[i])),
{
    lemma_without_leading(s);
    let rest = without_leading_space(s);
    lemma_without_trailing(rest);
    let from = s.len() - rest.len();
    let to = from + trimmed(s).len();
    assert(trimmed(s) =~= s.subrange(from, to));
    assert forall|i: int| 0 <= i < s.len() && !(from <= i < to) implies white_space(
        #[trigger] s[i],
    ) by {
        if i >= to {
            assert(rest[i - from] == s[i]);
        }
    }
    if trimmed(s).len() > 0 {
        assert(trimmed(s)[0] == rest[0]);
    }
}

proof fn lemma_without_leading(s: Seq<char>)
    ensures
        ({
            let rest = without_leading_space(s);
            let cut = s.len() - rest.len();
            &&& 0 <= cut
            &&& rest == s.skip(cut)
            &&& rest.len() > 0 ==> !white_space(rest[0])
            &&& forall|i: int| 0 <= i < cut ==> white_space(#[trigger] s[i])
        }),
    decreases s.len(),
{
    if s.len() > 0 && white_space(s[0]) {
        let tail = s.drop_first();
        lemma_without_leading(tail);
        let rest = without_leading_space(s);
        let cut = s.len() - rest.len();
        assert(rest =~= s.skip(cut));
        assert forall|i: int| 0 <= i < cut implies white_space(#[trigger] s[i]) by {
            if i > 0 {
                assert(tail[i - 1] == s[i]);
            }
        }
    } else {
        assert(s.skip(0) =~= s);
    }
}

proof fn lemma_without_trailing(s: Seq<char>)
    ensures
        ({
            let rest = without_trailing_space(s);
            &&& rest.len() <= s.len()
            &&& rest == s.take(rest.len() as int)
            &&& rest.len() > 0 ==> !white_space(rest.last())
            &&& forall|i: int| rest.len() <= i < s.len() ==> white_space(#[trigger] s[i])
        }),
    decreases s.len(),
{
    if s.len() > 0 && white_space(s.last()) {
        let head = s.drop_last();
        lemma_without_trailing(head);
        let rest = without_trailing_space(s);
        assert(rest =~= s.take(rest.len() as int));
        assert forall|i: int| rest.len() <= i < s.len() implies white_space(#[trigger] s[i]) by {
            if i < head.len() {
                assert(head[i] == s[i]);
            }
        }
    } else {
        assert(s.take(s.len() as int) =~= s);
    }
}

/// The case of letters does not outlast a change to the other case and back, and no other
/// character changes.
pub proof fn cases_are_inverse(s: Seq<char>, i: int)
    requires
        0 <= i < s.len(),
    ensures
        lowered(s).len() == s.len() && uppered(s).len() == s.len(),
        lowered(uppered(s)) == lowered(s),
        uppered(lowered(s)) == uppered(s),
        !('A' <= s[i] && s[i] <= 'Z') ==> lowered(s)[i] == s[i],
        !('a' <= s[i] && s[i] <= 'z') ==> uppered(s)[i] == s[i],
        !('A' <= lowered(s)[i] && lowered(s)[i] <= 'Z'),
        !('a' <= uppered(s)[i] && uppered(s)[i] <= 'z'),
{
    assert(lowered(uppered(s)) =~= lowered(s));
    assert(uppered(lowered(s)) =~= uppered(s));
}

/// A number that is written in digits is read back.
pub proof fn written_numbers_are_read_back(n: nat)
    ensures
        decimal_value(decimal_digits(n)) == n,
        decimal_digits(n).len() > 0,
        forall|i: int|
            0 <= i < decimal_digits(n).len() ==> is_digit(#[trigger] decimal_digits(n)[i]),
        n >= 10 ==> decimal_digits(n)[0] != '0',
        is_numeral(decimal_digits(n)),
        numeral_digits(decimal_digits(n)) == decimal_digits(n),
    decreases n,
{
    if n < 10 {
        let digits = decimal_digits(n);
        assert(digits.drop_last() =~= Seq::<char>::empty());
        assert(decimal_value(digits.drop_last()) == 0);
        assert(is_digit(digits[0]));
    } else {
        written_numbers_are_read_back(n / 10);
        let head = decimal_digits(n / 10);
        let digits = decimal_digits(n);
        assert(digits.drop_last() =~= head);
        assert forall|i: int| 0 <= i < digits.len() implies is_digit(#[trigger] digits[i]) by {
            if i < head.len() {
                assert(is_digit(head[i]));
            }
        }
        assert(digits[0] == head[0]);
        if n / 10 < 10 {
            assert(head[0] != '0');
        }
    }
    assert(is_digit(decimal_digits(n)[0]));
}

/// Different numbers are written differently.
pub proof fn numbers_have_texts_of_their_own(a: nat, b: nat)
    requires
        decimal_digits(a) == decimal_digits(b),
    ensures
        a == b,
{
    written_numbers_are_read_back(a);
    written_numbers_are_read_back(b);
}

/// A text is split at every separator and nowhere else: no piece holds one, there is one
/// piece more than separators, and the pieces with separators between them are the text.
pub proof fn pieces_lie_between_separators(s: Seq<char>, separator: char)
    ensures
        pieces_between(s, separator).len() == 1 + s.filter(|c: char| c == separator).len(),
        forall|i: int|
            0 <= i < pieces_between(s, separator).len() ==> !(#[trigger] pieces_between(
                s,
                separator,
            )[i]).contains(separator),
        rejoined(pieces_between(s, separator), separator) == s,
    decreases s.len(),
{
    reveal(Seq::filter);
    let all = pieces_between(s, separator);
    if s.len() > 0 {
        let head = s.drop_last();
        pieces_lie_between_separators(head, separator);
        let before = pieces_between(head, separator);
        assert forall|i: int| 0 <= i < all.len() implies !(#[trigger] all[i]).contains(
            separator,
        ) by {
            if s.last() == separator {
                if i < before.len() {
                    assert(all[i] == before[i]);
                }
            } else if i < before.len() - 1 {
                assert(all[i] == before[i]);
            } else {
                assert(!before[i].contains(separator));
                if all[i].contains(separator) {
                    let k = choose|k: int| 0 <= k < all[i].len() && all[i][k] == separator;
                    assert(before[i][k] == separator);
                }
            }
        }
        if s.last() == separator {
            assert(all.drop_last() =~= before);
            assert(rejoined(all, separator) =~= s);
        } else {
            assert(all.drop_last() =~= before.drop_last());
            assert(all.last() =~= before.last().push(s.last()));
            assert(rejoined(before, separator) =~= head);
            assert(rejoined(all, separator) =~= rejoined(before, separator).push(s.last()));
            assert(head.push(s.last()) =~= s);
        }
    } else {
        assert(rejoined(all, separator) =~= s);
    }
}

/// Pieces with a separator between each and the next.
pub open spec fn rejoined(pieces: Seq<Seq<char>>, separator: char) -> Seq<char>
    decreases pieces.len(),
{
    if pieces.len() == 0 {
        Seq::<char>::empty()
    } else if pieces.len() == 1 {
        pieces[0]
    } else {
        rejoined(pieces.drop_last(), separator).push(separator) + pieces.last()
    }
}

/// Aligned texts are as wide as asked, or as the text where that is wider, and hold the
/// text at the end that they are named after.
pub proof fn aligned_texts_fill_their_width(s: Seq<char>, width: nat)
    ensures
        left_aligned(s, width).take(s.len() as int) == s,
        right_aligned(s, width).skip(right_aligned(s, width).len() - s.len()) == s,
        s.len() <= width ==> left_aligned(s, width).len() == width && right_aligned(
            s,
            width,
        ).len() == width,
        s.len() > width ==> left_aligned(s, width) == s && right_aligned(s, width) == s,
{
    assert(left_aligned(s, width).take(s.len() as int) =~= s);
    assert(right_aligned(s, width).skip(right_aligned(s, width).len() - s.len()) =~= s);
    if s.len() > width {
        assert(left_aligned(s, width) =~= s);
        assert(right_aligned(s, width) =~= s);
    }
}

/// The value of a row of hexadecimal digits.
pub open spec fn hex_value(s: Seq<char>) -> nat
    decreases s.len(),
{
    if s.len() == 0 {
        0
    } else {
        16 * hex_value(s.drop_last()) + if s.last() <= '9' {
            (s.last() as u32 - '0' as u32) as nat
        } else {
            (s.last() as u32 - 'a' as u32 + 10) as nat
        }
    }
}

spec fn high_part(n: nat, width: nat) -> nat
    decreases width,
{
    if width == 0 {
        n
    } else {
        high_part(n / 16, (width - 1) as nat)
    }
}

proof fn lemma_hex_value(n: nat, width: nat)
    requires
        high_part(n, width) == 0,
    ensures
        hex_value(hex_digits(n, width)) == n,
        hex_digits(n, width).len() == width,
        forall|i: int|
            0 <= i < width ==> '0' <= #[trigger] hex_digits(n, width)[i] <= '9' || 'a'
                <= hex_digits(n, width)[i] <= 'f',
    decreases width,
{
    if width > 0 {
        let fewer = (width - 1) as nat;
        lemma_hex_value(n / 16, fewer);
        let digits = hex_digits(n, width);
        assert(digits.drop_last() =~= hex_digits(n / 16, fewer));
        assert forall|i: int| 0 <= i < width implies '0' <= #[trigger] digits[i] <= '9' || 'a'
            <= digits[i] <= 'f' by {
            if i < fewer {
                assert(digits[i] == hex_digits(n / 16, fewer)[i]);
            }
        }
    }
}

/// A pattern of 64 bits is written in sixteen lower-case hexadecimal digits, from which it
/// can be read back.
pub proof fn patterns_are_written_in_full(n: u64)
    ensures
        hex_digits(n as nat, 16).len() == 16,
        hex_value(hex_digits(n as nat, 16)) == n,
        forall|i: int|
            0 <= i < 16 ==> '0' <= #[trigger] hex_digits(n as nat, 16)[i] <= '9' || 'a'
                <= hex_digits(n as nat, 16)[i] <= 'f',
{
    reveal_with_fuel(high_part, 17);
    lemma_hex_value(n as nat, 16);
}

/// Lines are put one below the other, with a line break between each and the next and none
/// at the end.
pub proof fn lines_stand_below_each_other(above: Seq<Seq<char>>, line: Seq<char>)
    ensures
        lines_text(seq![line]) == line,
        above.len() > 0 ==> lines_text(above.push(line)) == lines_text(above).push('\n') + line,
{
    reveal_strlit("\n");
    assert("\n"@ =~= seq!['\n']);
    assert(above.push(line).drop_last() =~= above);
    if above.len() > 0 {
        assert(lines_text(above.push(line)) =~= lines_text(above).push('\n') + line);
    }
}

/// Blanks, tabs and line ends are white space; nothing else in ASCII is, and no letter, digit
/// or sign.
pub proof fn blanks_and_line_ends_are_white(c: char)
    ensures
        white_space(' ') && white_space('\t') && white_space('\n') && white_space('\r'),
        c as u32 <= 0x7f && white_space(c) ==> c == ' ' || 0x09 <= c as u32 <= 0x0d,
        0x21 <= c as u32 <= 0x7e ==> !white_space(c),
{
}

/// A plus sign before a number changes nothing, and is no number by itself. A number that
/// is written in digits is one for the machine exactly where it fits.
pub proof fn numbers_may_have_a_plus_sign(n: nat)
    ensures
        numeral_digits(seq!['+'] + decimal_digits(n)) == decimal_digits(n),
        is_machine_numeral(decimal_digits(n)) <==> n <= usize::MAX,
        is_machine_numeral(seq!['+'] + decimal_digits(n)) <==> n <= usize::MAX,
        !is_numeral(Seq::<char>::empty()),
        !is_numeral(seq!['+']),
        !is_numeral(seq!['-'] + decimal_digits(n)),
{
    written_numbers_are_read_back(n);
    let signed = seq!['+'] + decimal_digits(n);
    assert(signed.drop_first() =~= decimal_digits(n));
    assert(numeral_digits(seq!['+']) =~= Seq::<char>::empty());
    let negative = seq!['-'] + decimal_digits(n);
    assert(numeral_digits(negative)[0] == '-');
}

} // verus!
