//! Numbers and separators in file names.

use vstd::prelude::*;

verus! {

/// The character that stands for a decimal digit.
pub open spec fn digit_char(digit: nat) -> char {
    (48 + digit) as char
}

pub open spec fn is_digit(c: char) -> bool {
    48 <= c as u32 <= 57
}

/// The number in decimal, without leading zeros.
pub open spec fn decimal(n: nat) -> Seq<char>
    decreases n,
{
    if n < 10 {
        seq![digit_char(n)]
    } else {
        decimal(n / 10).push(digit_char(n % 10))
    }
}

/// The number that a row of digits stands for.
pub open spec fn number(digits: Seq<char>) -> nat
    decreases digits.len(),
{
    if digits.len() == 0 {
        0
    } else {
        number(digits.drop_last()) * 10 + (digits.last() as u32 - 48) as nat
    }
}

/// Whether these are one or more digits.
pub open spec fn is_number(digits: Seq<char>) -> bool {
    digits.len() > 0 && forall|i: int| 0 <= i < digits.len() ==> is_digit(#[trigger] digits[i])
}

/// The text without a plus sign at its start.
pub open spec fn unsigned(text: Seq<char>) -> Seq<char> {
    if text.len() > 0 && text[0] == '+' {
        text.skip(1)
    } else {
        text
    }
}

/// The number that the text is: one or more digits, perhaps after a plus sign,
/// that stand for no more than 64 bits can hold.
pub open spec fn parsed(text: Seq<char>) -> Option<u64> {
    let digits = unsigned(text);
    if is_number(digits) && number(digits) <= u64::MAX {
        Some(number(digits) as u64)
    } else {
        None
    }
}

proof fn lemma_number_grows(digits: Seq<char>, n: int)
    requires
        0 <= n <= digits.len(),
        is_number(digits),
    ensures
        number(digits.take(n)) <= number(digits),
    decreases digits.len(),
{
    if n < digits.len() {
        let shorter = digits.drop_last();
        if shorter.len() > 0 {
            assert forall|i: int| 0 <= i < shorter.len() implies is_digit(
                #[trigger] shorter[i],
            ) by {
                assert(shorter[i] == digits[i]);
            }
            lemma_number_grows(shorter, n);
            assert(shorter.take(n) =~= digits.take(n));
        } else {
            assert(digits.take(n) =~= shorter);
        }
        assert(is_digit(digits[digits.len() - 1]));
    } else {
        assert(digits.take(n) =~= digits);
    }
}

/// Reads a number as `parsed` says.
pub fn parse_u64(text: &Vec<char>) -> (res: Option<u64>)
    ensures
        res == parsed(text@),
{
    let start: usize = if text.len() > 0 && text[0] == '+' {
        1
    } else {
        0
    };
    let ghost digits = unsigned(text@);
    assert(digits =~= text@.skip(start as int));
    if start == text.len() {
        return None;
    }
    let mut value: u64 = 0;
    let mut i: usize = start;
    assert(digits.take(0) =~= Seq::<char>::empty());
    while i < text.len()
        invariant
            start <= i <= text@.len(),
            start < text@.len(),
            digits == unsigned(text@),
            digits == text@.skip(start as int),
            forall|j: int| 0 <= j < i - start ==> is_digit(#[trigger] digits[j]),
            value == number(digits.take(i - start)),
        decreases text.len() - i,
    {
        let c: char = text[i];
        let code: u32 = c as u32;
        assert(digits[i - start] == c);
        if code < 48 || code > 57 {
            assert(!is_digit(digits[i - start]));
            return None;
        }
        let ghost longer = digits.take(i - start + 1);
        proof {
            assert(longer.drop_last() =~= digits.take(i - start));
            assert(longer.last() == c);
            if is_number(digits) {
                lemma_number_grows(digits, i - start + 1);
            }
        }
        match value.checked_mul(10) {
            Some(shifted) => match shifted.checked_add((code - 48) as u64) {
                Some(sum) => {
                    value = sum;
                },
                None => {
                    return None;
                },
            },
            None => {
                return None;
            },
        }
        i += 1;
    }
    assert(digits.take(i - start) =~= digits);
    Some(value)
}

fn digit_text(digit: u64) -> (text: &'static str)
    requires
        digit < 10,
    ensures
        text@ == seq![digit_char(digit as nat)],
{
    proof {
        reveal_strlit("0");
        reveal_strlit("1");
        reveal_strlit("2");
        reveal_strlit("3");
        reveal_strlit("4");
        reveal_strlit("5");
        reveal_strlit("6");
        reveal_strlit("7");
        reveal_strlit("8");
        reveal_strlit("9");
    }
    let text = match digit {
        0 => "0",
        1 => "1",
        2 => "2",
        3 => "3",
        4 => "4",
        5 => "5",
        6 => "6",
        7 => "7",
        8 => "8",
        _ => "9",
    };
    assert(text@ =~= seq![digit_char(digit as nat)]);
    text
}

/// Writes a number in decimal at the end of the text.
pub fn append_decimal(text: &mut String, n: u64)
    ensures
        final(text)@ == old(text)@ + decimal(n as nat),
    decreases n,
{
    if n >= 10 {
        append_decimal(text, n / 10);
    }
    text.append(digit_text(n % 10));
    assert(text@ =~= old(text)@ + decimal(n as nat));
}

/// The characters of the text.
pub fn chars_of(text: &str) -> (chars: Vec<char>)
    ensures
        chars@ == text@,
{
    let len: usize = text.unicode_len();
    let mut chars: Vec<char> = Vec::with_capacity(len);
    let mut i: usize = 0;
    while i < len
        invariant
            i <= len,
            len == text@.len(),
            chars@ == text@.take(i as int),
        decreases len - i,
    {
        chars.push(text.get_char(i));
        assert(chars@ =~= text@.take(i + 1));
        i += 1;
    }
    assert(chars@ =~= text@);
    chars
}

/// Whether the pattern stands in the text at this place.
pub open spec fn occurs_at(text: Seq<char>, pattern: Seq<char>, i: int) -> bool {
    &&& 0 <= i
    &&& i + pattern.len() <= text.len()
    &&& text.subrange(i, i + pattern.len()) == pattern
}

/// The first place from `i` on at which the pattern stands.
pub open spec fn find_from(text: Seq<char>, pattern: Seq<char>, i: int) -> Option<int>
    decreases text.len() + 1 - i,
{
    if i < 0 || i + pattern.len() > text.len() {
        None
    } else if occurs_at(text, pattern, i) {
        Some(i)
    } else {
        find_from(text, pattern, i + 1)
    }
}

/// What is found is the first place at which the pattern stands; nothing is
/// found exactly where it stands nowhere.
pub proof fn lemma_find(text: Seq<char>, pattern: Seq<char>, i: int)
    requires
        0 <= i,
    ensures
        find_from(text, pattern, i) matches Some(at) ==> {
            &&& i <= at
            &&& occurs_at(text, pattern, at)
            &&& forall|j: int| i <= j < at ==> !#[trigger] occurs_at(text, pattern, j)
        },
        find_from(text, pattern, i) is None ==> forall|j: int|
            i <= j ==> !#[trigger] occurs_at(text, pattern, j),
    decreases text.len() + 1 - i,
{
    if i + pattern.len() <= text.len() && !occurs_at(text, pattern, i) {
        lemma_find(text, pattern, i + 1);
    }
}

/// Where the pattern stands first is the only place that `find_from` can give.
proof fn lemma_find_is_first(text: Seq<char>, pattern: Seq<char>, i: int, at: int)
    requires
        0 <= i <= at,
        occurs_at(text, pattern, at),
        forall|j: int| i <= j < at ==> !#[trigger] occurs_at(text, pattern, j),
    ensures
        find_from(text, pattern, i) == Some(at),
    decreases at - i,
{
    if i < at {
        lemma_find_is_first(text, pattern, i + 1, at);
    }
}

/// The parts into which the text falls where the separator stands, from the
/// left and without overlap.
pub open spec fn split_by(text: Seq<char>, separator: Seq<char>) -> Seq<Seq<char>>
    decreases text.len(),
{
    if separator.len() == 0 {
        seq![text]
    } else {
        match find_from(text, separator, 0) {
            Some(at) => {
                proof {
                    lemma_find(text, separator, 0);
                }
                seq![text.take(at)] + split_by(text.skip(at + separator.len()), separator)
            },
            None => seq![text],
        }
    }
}

/// A text that holds the separator first at `at` falls into what is before it
/// and the parts of what is after it.
pub proof fn lemma_split_at(text: Seq<char>, separator: Seq<char>, at: int)
    requires
        separator.len() > 0,
        0 <= at,
        occurs_at(text, separator, at),
        forall|j: int| 0 <= j < at ==> !#[trigger] occurs_at(text, separator, j),
    ensures
        split_by(text, separator) == seq![text.take(at)] + split_by(
            text.skip(at + separator.len()),
            separator,
        ),
{
    lemma_find_is_first(text, separator, 0, at);
}

/// A text that does not hold the separator is its only part.
pub proof fn lemma_split_none(text: Seq<char>, separator: Seq<char>)
    requires
        separator.len() > 0,
        forall|j: int| 0 <= j ==> !#[trigger] occurs_at(text, separator, j),
    ensures
        split_by(text, separator) == seq![text],
{
    lemma_find(text, separator, 0);
}

fn stands_at(text: &Vec<char>, pattern: &Vec<char>, at: usize) -> (res: bool)
    requires
        at + pattern@.len() <= text@.len(),
    ensures
        res == occurs_at(text@, pattern@, at as int),
{
    let ghost here = text@.subrange(at as int, at + pattern@.len());
    let len: usize = text.len();
    let mut i: usize = 0;
    while i < pattern.len()
        invariant
            i <= pattern@.len(),
            len == text@.len(),
            at + pattern@.len() <= text@.len(),
            here == text@.subrange(at as int, at + pattern@.len()),
            forall|j: int| 0 <= j < i ==> #[trigger] here[j] == pattern@[j],
        decreases pattern.len() - i,
    {
        if text[at + i] != pattern[i] {
            assert(here[i as int] != pattern@[i as int]);
            return false;
        }
        i += 1;
    }
    assert(here =~= pattern@);
    true
}

fn find(text: &Vec<char>, pattern: &Vec<char>) -> (res: Option<usize>)
    ensures
        match res {
            Some(at) => find_from(text@, pattern@, 0) == Some(at as int) && at + pattern@.len()
                <= text@.len(),
            None => find_from(text@, pattern@, 0) is None,
        },
{
    if pattern.len() > text.len() {
        return None;
    }
    let last: usize = text.len() - pattern.len();
    let mut i: usize = 0;
    loop
        invariant
            i <= last,
            last == text@.len() - pattern@.len(),
            find_from(text@, pattern@, 0) == find_from(text@, pattern@, i as int),
        decreases last - i,
    {
        if stands_at(text, pattern, i) {
            return Some(i);
        }
        if i == last {
            assert(find_from(text@, pattern@, i + 1) is None);
            return None;
        }
        i += 1;
    }
}

/// A copy of the characters from one place up to another.
pub fn part(text: &Vec<char>, from: usize, to: usize) -> (res: Vec<char>)
    requires
        from <= to <= text@.len(),
    ensures
        res@ == text@.subrange(from as int, to as int),
{
    let mut res: Vec<char> = Vec::with_capacity(to - from);
    let mut i: usize = from;
    while i < to
        invariant
            from <= i <= to <= text@.len(),
            res@ == text@.subrange(from as int, i as int),
        decreases to - i,
    {
        res.push(text[i]);
        assert(res@ =~= text@.subrange(from as int, i + 1));
        i += 1;
    }
    res
}

/// The texts that these vectors of characters hold.
pub open spec fn texts(parts: Seq<Vec<char>>) -> Seq<Seq<char>> {
    parts.map_values(|part: Vec<char>| part@)
}

/// The parts of the text, as `split_by` says.
pub fn split(text: Vec<char>, separator: &Vec<char>) -> (parts: Vec<Vec<char>>)
    requires
        separator@.len() > 0,
    ensures
        texts(parts@) == split_by(text@, separator@),
{
    let ghost whole = text@;
    let mut rest = text;
    let mut parts: Vec<Vec<char>> = Vec::new();
    assert(texts(parts@) + split_by(rest@, separator@) =~= split_by(whole, separator@));
    loop
        invariant
            separator@.len() > 0,
            whole == text@,
            texts(parts@) + split_by(rest@, separator@) == split_by(whole, separator@),
        decreases rest@.len(),
    {
        let ghost before = texts(parts@);
        match find(&rest, separator) {
            Some(at) => {
                let len: usize = rest.len();
                let head = part(&rest, 0, at);
                let tail = part(&rest, at + separator.len(), len);
                proof {
                    assert(head@ =~= rest@.take(at as int));
                    assert(tail@ =~= rest@.skip(at + separator@.len()));
                }
                parts.push(head);
                rest = tail;
                proof {
                    assert(texts(parts@) =~= before.push(head@));
                    assert(texts(parts@) + split_by(rest@, separator@) =~= split_by(
                        whole,
                        separator@,
                    ));
                }
            },
            None => {
                let ghost last = rest@;
                parts.push(rest);
                assert(texts(parts@) =~= before + seq![last]);
                return parts;
            },
        }
    }
}

proof fn lemma_decimal(n: nat)
    ensures
        is_number(decimal(n)),
        number(decimal(n)) == n,
    decreases n,
{
    if n < 10 {
        assert(decimal(n).drop_last() =~= Seq::<char>::empty());
        assert(number(decimal(n).drop_last()) == 0);
        assert(decimal(n)[0] == digit_char(n));
    } else {
        lemma_decimal(n / 10);
        let shorter = decimal(n / 10);
        let text = decimal(n);
        assert(text.drop_last() =~= shorter);
        assert forall|i: int| 0 <= i < text.len() implies is_digit(#[trigger] text[i]) by {
            if i < shorter.len() {
                assert(text[i] == shorter[i]);
            }
        }
    }
}

/// A number that is written in decimal is read back as itself.
pub proof fn decimal_reads_back(n: u64)
    ensures
        parsed(decimal(n as nat)) == Some(n),
        is_number(decimal(n as nat)),
{
    lemma_decimal(n as nat);
    assert(is_digit(decimal(n as nat)[0]));
}

/// A number is written with ten digits: the last is the remainder by ten, and
/// the ones before it are the number without it. A single digit is the
/// character that many places after the zero.
pub proof fn decimal_is_in_base_ten(n: nat, digit: nat)
    requires
        digit < 10,
    ensures
        decimal(digit) == seq![(48 + digit) as char],
        n > 0 ==> decimal(10 * n + digit) == decimal(n).push((48 + digit) as char),
{
    if n > 0 {
        assert((10 * n + digit) / 10 == n);
        assert((10 * n + digit) % 10 == digit);
    }
}

/// A number is written without leading zeros.
pub proof fn decimal_has_no_leading_zero(n: nat)
    requires
        n > 0,
    ensures
        decimal(n).len() > 0,
        decimal(n)[0] != '0',
    decreases n,
{
    if n >= 10 {
        decimal_has_no_leading_zero(n / 10);
    }
}

/// A digit at the end of a row counts for itself, and what is before it for ten
/// times as much.
pub proof fn digits_are_read_in_base_ten(digits: Seq<char>, c: char)
    requires
        48 <= c as u32 <= 57,
    ensures
        number(Seq::<char>::empty()) == 0,
        number(digits.push(c)) == 10 * number(digits) + (c as u32 - 48),
{
    assert(digits.push(c).drop_last() =~= digits);
}

/// A text is read as a number exactly if it is one or more digits, perhaps after
/// one plus sign, and the number fits into 64 bits. Anything else is no number.
pub proof fn only_digits_are_read(text: Seq<char>)
    ensures
        parsed(text) matches Some(n) ==> {
            let start = if text.len() > 0 && text[0] == '+' {
                1int
            } else {
                0int
            };
            &&& text.len() > start
            &&& forall|i: int| start <= i < text.len() ==> 48 <= (#[trigger] text[i]) as u32 <= 57
            &&& n == number(text.skip(start))
        },
        parsed(text) is None ==> {
            let start = if text.len() > 0 && text[0] == '+' {
                1int
            } else {
                0int
            };
            ||| text.len() == start
            ||| exists|i: int|
                start <= i < text.len() && !(48 <= (#[trigger] text[i]) as u32 <= 57)
            ||| number(text.skip(start)) > 0xffff_ffff_ffff_ffff
        },
{
    let start = if text.len() > 0 && text[0] == '+' {
        1int
    } else {
        0int
    };
    let digits = unsigned(text);
    assert(digits =~= text.skip(start));
    assert forall|i: int| start <= i < text.len() implies #[trigger] text[i] == digits[i
        - start] by {}
    if is_number(digits) {
        assert forall|i: int| start <= i < text.len() implies 48 <= (#[trigger] text[i]) as u32
            <= 57 by {
            assert(is_digit(digits[i - start]));
        }
    } else if digits.len() > 0 {
        let i = choose|i: int| 0 <= i < digits.len() && !is_digit(#[trigger] digits[i]);
        assert(!(48 <= text[i + start] as u32 <= 57));
    }
}

/// A number reads the same with a plus sign before it, and one that does not fit
/// into 64 bits is not read.
pub proof fn written_numbers_are_read_back(n: nat)
    ensures
        n <= 0xffff_ffff_ffff_ffff ==> parsed(decimal(n)) == Some(n as u64),
        n <= 0xffff_ffff_ffff_ffff ==> parsed(seq!['+'] + decimal(n)) == Some(n as u64),
        n > 0xffff_ffff_ffff_ffff ==> parsed(decimal(n)) is None,
{
    lemma_decimal(n);
    assert(is_digit(decimal(n)[0]));
    assert((seq!['+'] + decimal(n)).skip(1) =~= decimal(n));
}

/// The parts with the separator between them.
pub open spec fn joined(parts: Seq<Seq<char>>, separator: Seq<char>) -> Seq<char>
    decreases parts.len(),
{
    if parts.len() == 0 {
        Seq::empty()
    } else if parts.len() == 1 {
        parts[0]
    } else {
        parts[0] + separator + joined(parts.drop_first(), separator)
    }
}

/// A text falls into parts that give it back when the separator is put between
/// them, and none of which holds the separator.
pub proof fn parts_make_up_the_text(text: Seq<char>, separator: Seq<char>)
    requires
        separator.len() > 0,
    ensures
        split_by(text, separator).len() > 0,
        joined(split_by(text, separator), separator) == text,
        forall|i: int, j: int|
            0 <= i < split_by(text, separator).len() && 0 <= j
                && j + separator.len() <= split_by(text, separator)[i].len()
                ==> #[trigger] split_by(text, separator)[i].subrange(j, j + separator.len())
                != separator,
    decreases text.len(),
{
    let parts = split_by(text, separator);
    lemma_find(text, separator, 0);
    match find_from(text, separator, 0) {
        Some(at) => {
            let rest = text.skip(at + separator.len());
            parts_make_up_the_text(rest, separator);
            let others = split_by(rest, separator);
            assert(parts.drop_first() =~= others);
            assert(text =~= text.take(at) + separator + rest);
            assert forall|i: int, j: int|
                0 <= i < parts.len() && 0 <= j && j + separator.len()
                    <= parts[i].len() implies #[trigger] parts[i].subrange(
                j,
                j + separator.len(),
            ) != separator by {
                if i == 0 {
                    assert(parts[0] == text.take(at));
                    assert(parts[0].subrange(j, j + separator.len()) =~= text.subrange(
                        j,
                        j + separator.len(),
                    ));
                    assert(!occurs_at(text, separator, j));
                } else {
                    assert(parts[i] == others[i - 1]);
                    let _ = others[i - 1].subrange(j, j + separator.len());
                }
            }
        },
        None => {
            assert(parts =~= seq![text]);
            assert forall|i: int, j: int|
                0 <= i < parts.len() && 0 <= j && j + separator.len()
                    <= parts[i].len() implies #[trigger] parts[i].subrange(
                j,
                j + separator.len(),
            ) != separator by {
                assert(!occurs_at(text, separator, j));
            }
        },
    }
}

} // verus!
