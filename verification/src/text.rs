//! Building, trimming and reading text.
use vstd::prelude::*;

verus! {

/// `String::push` puts one character at the end.
pub assume_specification[ String::push ](s: &mut String, c: char)
    ensures
        final(s)@ == old(s)@.push(c),
;

/// The uppercase mapping of a character, one character or more.
pub uninterp spec fn upper_of_char(c: char) -> Seq<char>;

/// The uppercase equivalent of a whole text.
pub uninterp spec fn upper_of_text(s: Seq<char>) -> Seq<char>;

/// Whether a character is a letter in any script.
pub uninterp spec fn is_letter(c: char) -> bool;

/// What an ASCII character becomes in upper case; any other stays.
pub open spec fn ascii_upper(c: char) -> char {
    if 'a' <= c <= 'z' {
        (c as u32 - 32) as char
    } else {
        c
    }
}

/// What an ASCII character becomes in lower case; any other stays.
pub open spec fn ascii_lower(c: char) -> char {
    if 'A' <= c <= 'Z' {
        (c as u32 + 32) as char
    } else {
        c
    }
}

/// A text with its ASCII capitals in lower case.
pub open spec fn ascii_lower_text(s: Seq<char>) -> Seq<char> {
    s.map_values(|c: char| ascii_lower(c))
}

/// `char::to_uppercase`, collected. The mapping itself is Unicode's and is only
/// named; what is said of it is that it is never empty and that an ASCII
/// character maps to itself or to its ASCII capital.
#[verifier::external_body]
pub(crate) fn uppercase_char(c: char) -> (upper: String)
    ensures
        upper@ == upper_of_char(c),
        upper@.len() >= 1,
        (c as u32) < 128 ==> upper@ == seq![ascii_upper(c)],
{
    c.to_uppercase().collect()
}

/// `str::to_uppercase`. The mapping is Unicode's and is only named; what is said
/// of it is that ASCII text is mapped character by character.
#[verifier::external_body]
pub(crate) fn uppercase_text(s: &str) -> (upper: String)
    ensures
        upper@ == upper_of_text(s@),
        (forall|i: int| 0 <= i < s@.len() ==> (#[trigger] s@[i] as u32) < 128) ==> upper@
            == s@.map_values(|c: char| ascii_upper(c)),
{
    s.to_uppercase()
}

/// `char::is_alphabetic`. Which characters are letters is Unicode's and is only
/// named; of ASCII, it is the two alphabets of capitals and small letters.
#[verifier::external_body]
pub(crate) fn letter(c: char) -> (is: bool)
    ensures
        is == is_letter(c),
        (c as u32) < 128 ==> is == ('a' <= c <= 'z' || 'A' <= c <= 'Z'),
{
    c.is_alphabetic()
}

// ---------------------------------------------------------------------------
// Characters and comparison
// ---------------------------------------------------------------------------

/// The characters of a text, in order.
pub fn chars_of(s: &str) -> (chars: Vec<char>)
    ensures
        chars@ == s@,
{
    let mut chars: Vec<char> = Vec::new();
    for c in it: s.chars()
        invariant
            it.seq() == s@,
            chars@ == s@.take(it.index()),
    {
        chars.push(c);
        assert(s@.take(it.index() + 1) == s@.take(it.index()).push(c));
    }
    assert(s@.take(s@.len() as int) == s@);
    chars
}

/// Whether two texts are the same.
pub fn same(a: &str, b: &str) -> (r: bool)
    ensures
        r == (a@ == b@),
{
    a.to_owned() == b.to_owned()
}

pub fn lower_char(c: char) -> (r: char)
    ensures
        r == ascii_lower(c),
{
    if 'A' <= c && c <= 'Z' {
        (c as u8 + 32) as char
    } else {
        c
    }
}

/// A text with its ASCII capitals made small.
pub fn to_ascii_lowercase(s: &str) -> (lower: String)
    ensures
        lower@ == ascii_lower_text(s@),
{
    let chars = chars_of(s);
    let mut lower = String::new();
    for i in 0..chars.len()
        invariant
            chars@ == s@,
            lower@ == ascii_lower_text(s@.take(i as int)),
    {
        lower.push(lower_char(chars[i]));
        assert(ascii_lower_text(s@.take(i + 1)) == ascii_lower_text(s@.take(i as int)).push(
            ascii_lower(s@[i as int]),
        ));
    }
    assert(s@.take(s@.len() as int) == s@);
    lower
}

// ---------------------------------------------------------------------------
// Numbers
// ---------------------------------------------------------------------------

/// The character of a decimal digit.
pub open spec fn digit_char(d: nat) -> char {
    (48 + d) as char
}

/// A number written in decimal, with no leading zeros.
pub open spec fn decimal(n: nat) -> Seq<char>
    decreases n,
{
    if n < 10 {
        seq![digit_char(n)]
    } else {
        decimal(n / 10).push(digit_char(n % 10))
    }
}

/// A number below a hundred written with two digits, any other as it is.
pub open spec fn two_digits(n: nat) -> Seq<char> {
    if n < 10 {
        seq!['0'] + decimal(n)
    } else {
        decimal(n)
    }
}

/// Appends a number in decimal.
pub fn push_decimal(s: &mut String, n: u64)
    ensures
        final(s)@ == old(s)@ + decimal(n as nat),
    decreases n,
{
    if n < 10 {
        s.push((48u8 + n as u8) as char);
        assert(s@ == old(s)@ + decimal(n as nat));
    } else {
        push_decimal(s, n / 10);
        s.push((48u8 + (n % 10) as u8) as char);
        assert(s@ == old(s)@ + decimal(n as nat));
    }
}

/// Appends a number with a leading zero when it has one digit.
pub fn push_two_digits(s: &mut String, n: u64)
    ensures
        final(s)@ == old(s)@ + two_digits(n as nat),
{
    if n < 10 {
        s.push('0');
    }
    push_decimal(s, n);
    assert(s@ == old(s)@ + two_digits(n as nat));
}

pub open spec fn is_digit(c: char) -> bool {
    '0' <= c <= '9'
}

pub open spec fn all_digits(s: Seq<char>) -> bool {
    forall|i: int| 0 <= i < s.len() ==> is_digit(#[trigger] s[i])
}

/// The number that decimal digits stand for.
pub open spec fn number(s: Seq<char>) -> nat
    decreases s.len(),
{
    if s.len() == 0 {
        0
    } else {
        (number(s.drop_last()) * 10 + (s.last() as u32 - 48)) as nat
    }
}

/// What a number text holds behind an optional plus sign.
pub open spec fn unsigned_digits(s: Seq<char>) -> Seq<char> {
    if s.len() > 0 && s[0] == '+' {
        s.skip(1)
    } else {
        s
    }
}

/// The 32-bit number a text stands for: an optional plus sign, then one digit
/// or more and nothing else.
pub open spec fn parsed_u32(s: Seq<char>) -> Option<u32> {
    let digits = unsigned_digits(s);
    if digits.len() > 0 && all_digits(digits) && number(digits) <= u32::MAX {
        Some(number(digits) as u32)
    } else {
        None
    }
}

/// The digits so far never stand for more than all of them.
proof fn lemma_number_prefix(s: Seq<char>, i: int)
    requires
        all_digits(s),
        0 <= i <= s.len(),
    ensures
        number(s.take(i)) <= number(s),
    decreases s.len() - i,
{
    if i < s.len() {
        lemma_number_prefix(s, i + 1);
        assert(s.take(i + 1).drop_last() == s.take(i));
        assert(is_digit(s[i]));
    } else {
        assert(s.take(i) == s);
    }
}

/// Reads a 32-bit number.
pub fn parse_u32(s: &str) -> (parsed: Option<u32>)
    ensures
        parsed == parsed_u32(s@),
{
    let chars = chars_of(s);
    let start: usize = if chars.len() > 0 && chars[0] == '+' { 1 } else { 0 };
    let ghost digits = unsigned_digits(s@);
    assert(digits == s@.skip(start as int));
    if chars.len() == start {
        return None;
    }
    let mut value: u64 = 0;
    let mut i: usize = start;
    while i < chars.len()
        invariant
            chars@ == s@,
            start <= i <= chars.len(),
            digits == s@.skip(start as int),
            digits == unsigned_digits(s@),
            value <= u32::MAX,
            value == number(digits.take(i - start)),
            all_digits(digits.take(i - start)),
        decreases chars.len() - i,
    {
        let c = chars[i];
        let ghost at = i - start;
        assert(digits[at] == c);
        if !('0' <= c && c <= '9') {
            assert(!is_digit(digits[at]));
            return None;
        }
        assert(digits.take(at + 1).drop_last() == digits.take(at));
        let next: u64 = value * 10 + (c as u8 - 48) as u64;
        assert(next == number(digits.take(at + 1)));
        if next > u32::MAX as u64 {
            proof {
                if all_digits(digits) {
                    lemma_number_prefix(digits, at + 1);
                }
            }
            return None;
        }
        assert(all_digits(digits.take(at + 1))) by {
            assert forall|j: int| 0 <= j < at + 1 implies is_digit(
                #[trigger] digits.take(at + 1)[j],
            ) by {
                if j < at {
                    assert(digits.take(at)[j] == digits[j]);
                }
            }
        }
        value = next;
        i = i + 1;
    }
    assert(digits.take(digits.len() as int) == digits);
    Some(value as u32)
}

/// A number written in decimal is made of digits, the first of them no plus
/// sign, and reads back as itself.
pub proof fn decimal_reads_back(n: nat)
    ensures
        decimal(n).len() > 0,
        all_digits(decimal(n)),
        number(decimal(n)) == n,
    decreases n,
{
    if n < 10 {
        let s = decimal(n);
        assert(s.drop_last().len() == 0);
        assert(number(s.drop_last()) == 0);
        assert(s.last() as u32 == 48 + n);
    } else {
        decimal_reads_back(n / 10);
        let s = decimal(n);
        let head = decimal(n / 10);
        assert(s.drop_last() == head);
        assert(s.last() as u32 == 48 + n % 10);
        assert forall|i: int| 0 <= i < s.len() implies is_digit(#[trigger] s[i]) by {
            if i < head.len() {
                assert(s[i] == head[i]);
            }
        }
    }
}

// ---------------------------------------------------------------------------
// White space
// ---------------------------------------------------------------------------

/// The characters with the Unicode property `White_Space`.
pub open spec fn is_space(c: char) -> bool {
    let u = c as u32;
    ||| 0x9 <= u <= 0xd
    ||| u == 0x20 || u == 0x85 || u == 0xa0 || u == 0x1680
    ||| 0x2000 <= u <= 0x200a
    ||| u == 0x2028 || u == 0x2029 || u == 0x202f || u == 0x205f || u == 0x3000
}

pub open spec fn trim_start(s: Seq<char>) -> Seq<char>
    decreases s.len(),
{
    if s.len() > 0 && is_space(s[0]) {
        trim_start(s.skip(1))
    } else {
        s
    }
}

pub open spec fn trim_end(s: Seq<char>) -> Seq<char>
    decreases s.len(),
{
    if s.len() > 0 && is_space(s.last()) {
        trim_end(s.drop_last())
    } else {
        s
    }
}

/// A text without the white space around it.
pub open spec fn trimmed(s: Seq<char>) -> Seq<char> {
    trim_end(trim_start(s))
}

pub fn space(c: char) -> (is: bool)
    ensures
        is == is_space(c),
{
    let u: u32 = c as u32;
    (0x9 <= u && u <= 0xd) || u == 0x20 || u == 0x85 || u == 0xa0 || u == 0x1680 || (0x2000 <= u
        && u <= 0x200a) || u == 0x2028 || u == 0x2029 || u == 0x202f || u == 0x205f || u == 0x3000
}

/// Drops the white space around a text.
pub fn trim(s: &str) -> (t: &str)
    ensures
        t@ == trimmed(s@),
{
    let chars = chars_of(s);
    let mut from: usize = 0;
    assert(s@.skip(0) == s@);
    while from < chars.len() && space(chars[from])
        invariant
            chars@ == s@,
            from <= chars.len(),
            trim_start(s@) == trim_start(s@.skip(from as int)),
        decreases chars.len() - from,
    {
        assert(s@.skip(from as int)[0] == s@[from as int]);
        assert(s@.skip(from as int).skip(1) == s@.skip(from + 1));
        from = from + 1;
    }
    assert(trim_start(s@) == s@.skip(from as int)) by {
        if from < chars.len() {
            assert(s@.skip(from as int)[0] == s@[from as int]);
        }
    }
    let mut to: usize = chars.len();
    assert(s@.subrange(from as int, to as int) == s@.skip(from as int));
    while from < to && space(chars[to - 1])
        invariant
            chars@ == s@,
            from <= to <= chars.len(),
            trimmed(s@) == trim_end(s@.subrange(from as int, to as int)),
        decreases to,
    {
        let ghost rest = s@.subrange(from as int, to as int);
        assert(rest.last() == s@[to - 1]);
        assert(rest.drop_last() == s@.subrange(from as int, to - 1));
        to = to - 1;
    }
    assert(trimmed(s@) == s@.subrange(from as int, to as int)) by {
        if from < to {
            assert(s@.subrange(from as int, to as int).last() == s@[to - 1]);
        }
    }
    s.substring_char(from, to)
}

/// Trimming leaves nothing exactly when a text is white space throughout.
pub proof fn trimmed_is_empty_when_blank(s: Seq<char>)
    ensures
        trimmed(s).len() == 0 <==> (forall|i: int| 0 <= i < s.len() ==> is_space(#[trigger] s[i])),
{
    lemma_trim_start(s);
    let t = trim_start(s);
    if t.len() > 0 {
        lemma_trim_end_keeps(t);
    }
}

proof fn lemma_trim_start(s: Seq<char>)
    ensures
        trim_start(s).len() > 0 ==> !is_space(trim_start(s)[0]) && exists|i: int|
            0 <= i < s.len() && !is_space(#[trigger] s[i]),
        trim_start(s).len() == 0 ==> (forall|i: int|
            0 <= i < s.len() ==> is_space(#[trigger] s[i])),
    decreases s.len(),
{
    if s.len() > 0 && is_space(s[0]) {
        let rest = s.skip(1);
        lemma_trim_start(rest);
        if trim_start(rest).len() > 0 {
            let i = choose|i: int| 0 <= i < rest.len() && !is_space(#[trigger] rest[i]);
            assert(!is_space(s[i + 1]));
        } else {
            assert forall|i: int| 0 <= i < s.len() implies is_space(#[trigger] s[i]) by {
                if i > 0 {
                    assert(rest[i - 1] == s[i]);
                }
            }
        }
    }
}

proof fn lemma_trim_end_keeps(s: Seq<char>)
    requires
        s.len() > 0,
        !is_space(s[0]),
    ensures
        trim_end(s).len() > 0,
    decreases s.len(),
{
    if is_space(s.last()) {
        lemma_trim_end_keeps(s.drop_last());
    }
}

// ---------------------------------------------------------------------------
// Joining and padding
// ---------------------------------------------------------------------------

/// The parts one after another, with `sep` between each two.
pub open spec fn joined(parts: Seq<Seq<char>>, sep: Seq<char>) -> Seq<char>
    decreases parts.len(),
{
    if parts.len() == 0 {
        seq![]
    } else if parts.len() == 1 {
        parts[0]
    } else {
        joined(parts.drop_last(), sep) + sep + parts.last()
    }
}

pub open spec fn views(parts: Seq<String>) -> Seq<Seq<char>> {
    parts.map_values(|s: String| s@)
}

pub open spec fn str_views(parts: Seq<&str>) -> Seq<Seq<char>> {
    parts.map_values(|s: &str| s@)
}

pub fn join_strs(parts: &[&str], sep: &str) -> (s: String)
    ensures
        s@ == joined(str_views(parts@), sep@),
{
    let mut s = String::new();
    let ghost all = str_views(parts@);
    for i in 0..parts.len()
        invariant
            all == str_views(parts@),
            s@ == joined(all.take(i as int), sep@),
    {
        if i > 0 {
            s.append(sep);
        }
        s.append(parts[i]);
        assert(all.take(i + 1).drop_last() == all.take(i as int));
        assert(all.take(i + 1).last() == parts@[i as int]@);
        assert(s@ == joined(all.take(i + 1), sep@));
    }
    assert(all.take(all.len() as int) == all);
    s
}

pub fn join_strings(parts: &Vec<String>, sep: &str) -> (s: String)
    ensures
        s@ == joined(views(parts@), sep@),
{
    let mut s = String::new();
    let ghost all = views(parts@);
    for i in 0..parts.len()
        invariant
            all == views(parts@),
            s@ == joined(all.take(i as int), sep@),
    {
        if i > 0 {
            s.append(sep);
        }
        s.append(parts[i].as_str());
        assert(all.take(i + 1).drop_last() == all.take(i as int));
        assert(all.take(i + 1).last() == parts@[i as int]@);
        assert(s@ == joined(all.take(i + 1), sep@));
    }
    assert(all.take(all.len() as int) == all);
    s
}

/// A text with spaces behind it up to the given width in characters.
pub open spec fn padded(s: Seq<char>, width: nat) -> Seq<char> {
    if s.len() < width {
        s + Seq::new((width - s.len()) as nat, |i: int| ' ')
    } else {
        s
    }
}

pub fn pad(s: &str, width: usize) -> (p: String)
    ensures
        p@ == padded(s@, width as nat),
{
    let mut p = s.to_owned();
    let mut n: usize = s.unicode_len();
    while n < width
        invariant
            s@.len() <= n,
            p@.len() == n,
            n <= width || n == s@.len(),
            p@ == s@ + Seq::new((n - s@.len()) as nat, |i: int| ' '),
        decreases width - n,
    {
        p.push(' ');
        n = n + 1;
        assert(p@ == s@ + Seq::new((n - s@.len()) as nat, |i: int| ' '));
    }
    assert(p@ == padded(s@, width as nat));
    p
}

// ---------------------------------------------------------------------------
// What a text holds
// ---------------------------------------------------------------------------

/// Whether a text stands in another at that place.
pub open spec fn stands_at(part: Seq<char>, s: Seq<char>, i: int) -> bool {
    0 <= i && i + part.len() <= s.len() && s.subrange(i, i + part.len()) == part
}

/// Whether a text holds another, all of it in one place.
pub open spec fn mentions(s: Seq<char>, part: Seq<char>) -> bool {
    exists|i: int| stands_at(part, s, i)
}

/// A text that lacks a character of another does not hold it.
pub proof fn a_missing_character_is_not_mentioned(s: Seq<char>, part: Seq<char>, k: int)
    requires
        0 <= k < part.len(),
        forall|i: int| 0 <= i < s.len() ==> #[trigger] s[i] != part[k],
    ensures
        !mentions(s, part),
{
    if mentions(s, part) {
        let i = choose|i: int| stands_at(part, s, i);
        assert(s.subrange(i, i + part.len())[k] == s[i + k]);
    }
}

/// A text holds what it was put together from.
pub proof fn a_text_mentions_its_parts(before: Seq<char>, part: Seq<char>, behind: Seq<char>)
    ensures
        mentions(before + part + behind, part),
{
    let s = before + part + behind;
    let at = before.len() as int;
    assert(s.subrange(at, at + part.len()) == part);
    assert(stands_at(part, s, at));
}

/// The part is found wherever a text that holds it is put.
pub proof fn what_a_part_mentions_is_mentioned(
    before: Seq<char>,
    s: Seq<char>,
    behind: Seq<char>,
    part: Seq<char>,
)
    requires
        mentions(s, part),
    ensures
        mentions(before + s + behind, part),
{
    let i = choose|i: int| stands_at(part, s, i);
    let longer = before + s + behind;
    let at = before.len() + i;
    assert(longer.subrange(at, at + part.len()) == s.subrange(i, i + part.len()));
    assert(stands_at(part, longer, at));
}

/// A number has one way to be written, with a zero in front only for nothing at
/// all; so two numbers that are written alike are the same.
pub proof fn a_number_is_written_one_way(n: nat, m: nat)
    ensures
        n > 0 ==> decimal(n)[0] != '0',
        decimal(n) == decimal(m) ==> n == m,
        n < m ==> decimal(n).len() <= decimal(m).len(),
{
    decimal_reads_back(n);
    decimal_reads_back(m);
    lemma_no_leading_zero(n);
    if n < m {
        lemma_longer_number(n, m);
    }
}

proof fn lemma_no_leading_zero(n: nat)
    ensures
        n > 0 ==> decimal(n)[0] != '0',
        decimal(n).len() > 0,
    decreases n,
{
    if n >= 10 {
        lemma_no_leading_zero(n / 10);
    }
}

proof fn lemma_longer_number(n: nat, m: nat)
    requires
        n <= m,
    ensures
        decimal(n).len() <= decimal(m).len(),
    decreases m,
{
    decimal_reads_back(n);
    decimal_reads_back(m);
    if n >= 10 {
        lemma_longer_number(n / 10, m / 10);
    }
}

/// Parts joined are as long as the parts and what stands between them, and what is
/// joined in two pieces is what is joined in one.
pub proof fn joining_leaves_nothing_out(a: Seq<Seq<char>>, b: Seq<Seq<char>>, sep: Seq<char>)
    ensures
        a.len() > 0 && b.len() > 0 ==> joined(a + b, sep) == joined(a, sep) + sep + joined(b, sep),
        a.len() == 0 ==> joined(a, sep).len() == 0,
        a.len() == 1 ==> joined(a, sep) == a[0],
    decreases b.len(),
{
    if a.len() > 0 && b.len() > 0 {
        assert((a + b).drop_last() == a + b.drop_last());
        assert((a + b).last() == b.last());
        if b.len() > 1 {
            joining_leaves_nothing_out(a, b.drop_last(), sep);
            assert(joined(a + b, sep) =~= joined(a, sep) + sep + joined(b, sep));
        } else {
            assert(a + b.drop_last() == a);
        }
    }
}

/// A text is padded with spaces alone, behind it, and to the width exactly unless
/// it is wider.
pub proof fn padding_only_adds_spaces(s: Seq<char>, width: nat)
    ensures
        padded(s, width).len() == (if s.len() < width {
            width
        } else {
            s.len()
        }),
        padded(s, width).take(s.len() as int) == s,
        forall|i: int| s.len() <= i < padded(s, width).len() ==> padded(s, width)[i] == ' ',
{
}

/// White space around a text is all that trimming takes off, and it takes off all
/// of it.
pub proof fn trimming_takes_only_the_ends(s: Seq<char>, before: Seq<char>, behind: Seq<char>)
    requires
        forall|i: int| 0 <= i < before.len() ==> is_space(#[trigger] before[i]),
        forall|i: int| 0 <= i < behind.len() ==> is_space(#[trigger] behind[i]),
    ensures
        trimmed(before + s + behind) == trimmed(s),
        trimmed(s).len() > 0 ==> !is_space(trimmed(s)[0]) && !is_space(trimmed(s).last()),
        s.len() > 0 && !is_space(s[0]) && !is_space(s.last()) ==> trimmed(s) == s,
    decreases before.len(), behind.len(),
{
    let all = before + s + behind;
    if before.len() > 0 {
        assert(all[0] == before[0]);
        assert(all.skip(1) == before.skip(1) + s + behind);
        assert forall|i: int| 0 <= i < before.skip(1).len() implies is_space(
            #[trigger] before.skip(1)[i],
        ) by {
            assert(is_space(before[i + 1]));
        }
        trimming_takes_only_the_ends(s, before.skip(1), behind);
    } else if behind.len() > 0 {
        let less = behind.drop_last();
        assert forall|i: int| 0 <= i < less.len() implies is_space(#[trigger] less[i]) by {
            assert(is_space(behind[i]));
        }
        trimming_takes_only_the_ends(s, before, less);
        assert(all.drop_last() == before + s + less);
        assert(is_space(all.last())) by {
            assert(all.last() == behind.last());
            assert(is_space(behind[behind.len() - 1]));
        }
        lemma_trim_drops_last(all);
    } else {
        assert(all == s);
        lemma_trim_start(s);
        lemma_trim_end(trim_start(s));
    }
}

proof fn lemma_trim_end(s: Seq<char>)
    ensures
        trim_end(s).len() > 0 ==> !is_space(trim_end(s).last()) && trim_end(s)[0] == s[0],
    decreases s.len(),
{
    if s.len() > 0 && is_space(s.last()) {
        lemma_trim_end(s.drop_last());
    }
}

proof fn lemma_trim_drops_last(s: Seq<char>)
    requires
        s.len() > 0,
        is_space(s.last()),
    ensures
        trimmed(s) == trimmed(s.drop_last()),
    decreases s.len(),
{
    if is_space(s[0]) {
        if s.len() > 1 {
            assert(s.skip(1).last() == s.last());
            lemma_trim_drops_last(s.skip(1));
            assert(s.skip(1).drop_last() == s.drop_last().skip(1));
            assert(s.drop_last()[0] == s[0]);
        } else {
            assert(s.skip(1) == s.drop_last());
        }
    } else {
        assert(trim_start(s) == s);
        assert(trim_start(s.drop_last()) == s.drop_last());
    }
}

/// Capitals and small letters of ASCII are made of each other, and no other
/// character is touched.
pub proof fn cases_undo_each_other(c: char)
    ensures
        !('A' <= ascii_lower(c) <= 'Z'),
        !('a' <= ascii_upper(c) <= 'z'),
        'A' <= c <= 'Z' ==> ascii_upper(ascii_lower(c)) == c && ascii_lower(c) != c,
        'a' <= c <= 'z' ==> ascii_lower(ascii_upper(c)) == c && ascii_upper(c) != c,
        !('A' <= c <= 'Z') ==> ascii_lower(c) == c,
        !('a' <= c <= 'z') ==> ascii_upper(c) == c,
{
}

/// A text in small letters is as long, and small in every place.
pub proof fn lowering_goes_letter_by_letter(s: Seq<char>)
    ensures
        ascii_lower_text(s).len() == s.len(),
        forall|i: int|
            0 <= i < s.len() ==> #[trigger] ascii_lower_text(s)[i] == ascii_lower(s[i]),
{
}

/// A number of one digit gets a zero in front, and reads as itself all the same.
pub proof fn two_digits_are_written(n: nat)
    ensures
        n < 100 ==> two_digits(n).len() == 2,
        n >= 10 ==> two_digits(n) == decimal(n),
        all_digits(two_digits(n)),
        number(two_digits(n)) == n,
{
    decimal_reads_back(n);
    if n < 10 {
        let s = two_digits(n);
        assert(s.drop_last() =~= seq!['0']);
        assert(seq!['0'].drop_last().len() == 0);
        assert(number(seq!['0'].drop_last()) == 0);
        assert(number(seq!['0']) == 0);
        assert(s.last() as u32 == 48 + n);
    } else if n < 100 {
        assert(decimal(n / 10).len() == 1);
    }
}

/// What is read is any number that fits, however it is written: with zeros in front
/// of it or a plus sign, it stays the same number. Nothing else is one.
pub proof fn a_number_is_read_however_it_is_written(n: u32, s: Seq<char>)
    ensures
        parsed_u32(decimal(n as nat)) == Some(n),
        s.len() > 0 && all_digits(s) ==> parsed_u32(seq!['0'] + s) == parsed_u32(s),
        s.len() > 0 && all_digits(s) ==> parsed_u32(seq!['+'] + s) == parsed_u32(s),
        s.len() > 0 && all_digits(s) ==> (parsed_u32(s) is Some <==> number(s) <= u32::MAX),
        s.len() > 0 && s[0] != '+' && !all_digits(s) ==> parsed_u32(s) is None,
        s.len() == 0 ==> parsed_u32(s) is None,
        parsed_u32(s) matches Some(m) ==> m == number(unsigned_digits(s)),
{
    decimal_reads_back(n as nat);
    let written = decimal(n as nat);
    assert(is_digit(written[0]));
    if s.len() > 0 && all_digits(s) {
        assert(is_digit(s[0]));
        let padded_s = seq!['0'] + s;
        lemma_zero_in_front(s);
        assert forall|i: int| 0 <= i < padded_s.len() implies is_digit(#[trigger] padded_s[i]) by {
            if i > 0 {
                assert(padded_s[i] == s[i - 1]);
            }
        }
        assert((seq!['+'] + s).skip(1) =~= s);
    }
}

proof fn lemma_zero_in_front(s: Seq<char>)
    ensures
        number(seq!['0'] + s) == number(s),
    decreases s.len(),
{
    let longer = seq!['0'] + s;
    if s.len() == 0 {
        assert(longer.drop_last().len() == 0);
        assert(number(longer.drop_last()) == 0);
    } else {
        assert(longer.drop_last() =~= seq!['0'] + s.drop_last());
        assert(longer.last() == s.last());
        lemma_zero_in_front(s.drop_last());
    }
}

} // verus!
