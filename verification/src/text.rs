//! Text that the miner shows or sends: decimal numbers and joined lines.

use vstd::prelude::*;

verus! {

/// `String::push` appends one character at the end of the string.
pub assume_specification[ String::push ](text: &mut String, c: char)
    ensures
        final(text)@ == old(text)@.push(c),
;

/// The character of a decimal digit.
pub open spec fn digit_char(digit: nat) -> char {
    (0x30 + digit) as char
}

/// The decimal digits of a number, without leading zeros.
pub open spec fn decimal(n: nat) -> Seq<char>
    decreases n,
{
    if n < 10 {
        seq![digit_char(n)]
    } else {
        decimal(n / 10).push(digit_char(n % 10))
    }
}

/// Digits with a comma between each group of three, counted from the right.
pub open spec fn grouped(digits: Seq<char>) -> Seq<char>
    decreases digits.len(),
{
    if digits.len() <= 3 {
        digits
    } else {
        grouped(digits.take(digits.len() - 3)).push(',') + digits.skip(digits.len() - 3)
    }
}

/// Digits with zeros in front of them up to a given width.
pub open spec fn zero_padded(digits: Seq<char>, width: nat) -> Seq<char> {
    if digits.len() < width {
        Seq::new((width - digits.len()) as nat, |i: int| '0') + digits
    } else {
        digits
    }
}

/// Lines with a separator between each two of them.
pub open spec fn joined(lines: Seq<Seq<char>>, separator: Seq<char>) -> Seq<char>
    decreases lines.len(),
{
    if lines.len() == 0 {
        Seq::empty()
    } else if lines.len() == 1 {
        lines[0]
    } else {
        joined(lines.drop_last(), separator) + separator + lines.last()
    }
}

/// A text without the given character.
pub open spec fn without(text: Seq<char>, c: char) -> Seq<char>
    decreases text.len(),
{
    if text.len() == 0 {
        text
    } else if text.last() == c {
        without(text.drop_last(), c)
    } else {
        without(text.drop_last(), c).push(text.last())
    }
}

/// The character of one decimal digit.
fn digit(value: u64) -> (c: char)
    requires
        value < 10,
    ensures
        c == digit_char(value as nat),
{
    (0x30u8 + value as u8) as char
}

/// The decimal digits of `n`.
pub fn decimal_text(n: u64) -> (text: String)
    ensures
        text@ == decimal(n as nat),
    decreases n,
{
    let mut text: String = String::new();
    if n >= 10 {
        text = decimal_text(n / 10);
    }
    text.push(digit(n % 10));
    text
}

/// `n` in decimal with commas between its groups of three digits.
pub fn format_num(n: u64) -> (text: String)
    ensures
        text@ == grouped(decimal(n as nat)),
    decreases n,
{
    if n < 1000 {
        let text: String = decimal_text(n);
        proof {
            reveal_with_fuel(decimal, 3);
        }
        text
    } else {
        let mut text: String = format_num(n / 1000);
        text.push(',');
        text.push(digit(n / 100 % 10));
        text.push(digit(n / 10 % 10));
        text.push(digit(n % 10));
        proof {
            lemma_decimal_last_three(n as nat);
            let digits = decimal(n as nat);
            let head = decimal(n as nat / 1000);
            assert(digits.take(digits.len() - 3) =~= head);
            assert(text@ =~= grouped(head).push(',') + digits.skip(digits.len() - 3));
        }
        text
    }
}

/// `n` in decimal, with zeros in front of it up to `width` characters.
pub fn padded_decimal_text(n: u64, width: usize) -> (text: String)
    ensures
        text@ == zero_padded(decimal(n as nat), width as nat),
{
    let digits: String = decimal_text(n);
    let len: usize = digits.as_str().unicode_len();
    let mut text: String = String::new();
    let mut missing: usize = if len < width {
        width - len
    } else {
        0
    };
    let ghost zeros = missing as int;
    while missing > 0
        invariant
            missing <= zeros,
            text@ == Seq::new((zeros - missing) as nat, |i: int| '0'),
        decreases missing,
    {
        text.push('0');
        missing = missing - 1;
        assert(text@ =~= Seq::new((zeros - missing) as nat, |i: int| '0'));
    }
    text.append(digits.as_str());
    assert(text@ =~= zero_padded(decimal(n as nat), width as nat));
    text
}

/// Whether two texts hold the same characters.
pub fn same_text(a: &str, b: &str) -> (same: bool)
    ensures
        same == (a@ == b@),
{
    a.to_owned() == b.to_owned()
}

proof fn lemma_decimal_last_three(n: nat)
    requires
        n >= 1000,
    ensures
        decimal(n) == decimal(n / 1000) + seq![
            digit_char(n / 100 % 10),
            digit_char(n / 10 % 10),
            digit_char(n % 10),
        ],
{
    assert(decimal(n) == decimal(n / 10).push(digit_char(n % 10)));
    assert(decimal(n / 10) == decimal(n / 100).push(digit_char(n / 10 % 10)));
    assert(decimal(n / 100) == decimal(n / 1000).push(digit_char(n / 100 % 10)));
    assert(decimal(n) =~= decimal(n / 1000) + seq![
        digit_char(n / 100 % 10),
        digit_char(n / 10 % 10),
        digit_char(n % 10),
    ]);
}

/// The number that decimal digits stand for.
pub open spec fn decimal_value(digits: Seq<char>) -> nat
    decreases digits.len(),
{
    if digits.len() == 0 {
        0
    } else {
        10 * decimal_value(digits.drop_last()) + (digits.last() as nat - 0x30) as nat
    }
}

/// The decimal digits of a number read back as that number.
pub proof fn law_decimal_reads_back(n: nat)
    ensures
        decimal_value(decimal(n)) == n,
    decreases n,
{
    let last = digit_char(n % 10);
    assert(last as nat == 0x30 + n % 10);
    assert(decimal(n).last() == last);
    if n < 10 {
        assert(decimal(n).drop_last() =~= Seq::<char>::empty());
        assert(decimal_value(Seq::<char>::empty()) == 0);
    } else {
        law_decimal_reads_back(n / 10);
        assert(decimal(n).drop_last() =~= decimal(n / 10));
    }
}

/// Without its commas, a grouped number is its plain decimal digits.
pub proof fn law_commas_only_group(n: nat)
    ensures
        without(grouped(decimal(n)), ',') == decimal(n),
{
    lemma_decimal_has_no_comma(n);
    lemma_grouping_only_adds_commas(decimal(n));
}

/// The commas of a grouped number are exactly the characters whose distance from
/// the end, themselves counted, is a multiple of four.
pub proof fn law_comma_positions(digits: Seq<char>, i: int)
    requires
        0 <= i < grouped(digits).len(),
        forall|j: int| 0 <= j < digits.len() ==> #[trigger] digits[j] != ',',
    ensures
        grouped(digits)[i] == ',' <==> (grouped(digits).len() - i) % 4 == 0,
    decreases digits.len(),
{
    if digits.len() > 3 {
        let head = digits.take(digits.len() - 3);
        let tail = digits.skip(digits.len() - 3);
        let n = grouped(head).len() as int;
        if i < n {
            law_comma_positions(head, i);
        } else if i > n {
            assert(grouped(digits)[i] == tail[i - n - 1]);
        }
    }
}

proof fn lemma_decimal_has_no_comma(n: nat)
    ensures
        forall|i: int| 0 <= i < decimal(n).len() ==> #[trigger] decimal(n)[i] != ',',
    decreases n,
{
    assert(digit_char(n % 10) as nat == 0x30 + n % 10);
    if n >= 10 {
        lemma_decimal_has_no_comma(n / 10);
        assert forall|i: int| 0 <= i < decimal(n).len() implies #[trigger] decimal(n)[i] != ',' by {
            if i < decimal(n / 10).len() {
                assert(decimal(n)[i] == decimal(n / 10)[i]);
            }
        }
    }
}

proof fn lemma_without_concat(a: Seq<char>, b: Seq<char>, c: char)
    ensures
        without(a + b, c) == without(a, c) + without(b, c),
    decreases b.len(),
{
    if b.len() == 0 {
        assert(a + b =~= a);
    } else {
        assert((a + b).drop_last() =~= a + b.drop_last());
        lemma_without_concat(a, b.drop_last(), c);
        assert(without(a + b, c) =~= without(a, c) + without(b, c));
    }
}

proof fn lemma_without_absent(text: Seq<char>, c: char)
    requires
        forall|i: int| 0 <= i < text.len() ==> #[trigger] text[i] != c,
    ensures
        without(text, c) == text,
    decreases text.len(),
{
    if text.len() > 0 {
        lemma_without_absent(text.drop_last(), c);
        assert(text.drop_last().push(text.last()) =~= text);
    }
}

proof fn lemma_grouping_only_adds_commas(digits: Seq<char>)
    requires
        forall|i: int| 0 <= i < digits.len() ==> #[trigger] digits[i] != ',',
    ensures
        without(grouped(digits), ',') == digits,
    decreases digits.len(),
{
    if digits.len() <= 3 {
        lemma_without_absent(digits, ',');
    } else {
        let head = digits.take(digits.len() - 3);
        let tail = digits.skip(digits.len() - 3);
        lemma_grouping_only_adds_commas(head);
        lemma_without_absent(tail, ',');
        lemma_without_concat(grouped(head).push(','), tail, ',');
        assert(grouped(head).push(',').drop_last() =~= grouped(head));
        assert(head + tail =~= digits);
    }
}

/// The decimal digits of a number are digits, at least one, and the first is a
/// zero only where it is the only one.
pub proof fn law_decimal_digits(n: nat)
    ensures
        decimal(n).len() > 0,
        forall|i: int| 0 <= i < decimal(n).len() ==> '0' <= #[trigger] decimal(n)[i] <= '9',
        decimal(n).len() > 1 ==> decimal(n)[0] != '0',
        n > 0 ==> decimal(n)[0] != '0',
    decreases n,
{
    assert(digit_char(n % 10) as nat == 0x30 + n % 10);
    if n >= 10 {
        law_decimal_digits(n / 10);
        assert forall|i: int| 0 <= i < decimal(n).len() implies '0' <= #[trigger] decimal(
            n,
        )[i] <= '9' by {
            if i < decimal(n / 10).len() {
                assert(decimal(n)[i] == decimal(n / 10)[i]);
            }
        }
        assert(decimal(n)[0] == decimal(n / 10)[0]);
    }
}

/// The text of a number is the digits that stand for it, without zeros in front.
pub proof fn law_numbers_are_written_out(n: u64, text: String)
    requires
        call_ensures(decimal_text, (n,), text),
    ensures
        decimal_value(text@) == n,
        forall|i: int| 0 <= i < text@.len() ==> '0' <= #[trigger] text@[i] <= '9',
        text@.len() > 0,
        text@.len() > 1 ==> text@[0] != '0',
{
    law_decimal_reads_back(n as nat);
    law_decimal_digits(n as nat);
}

/// A formatted number is the digits that stand for it and commas. A comma stands
/// wherever so many characters follow that with it they are a multiple of four,
/// and nowhere else.
pub proof fn law_numbers_are_formatted(n: u64, text: String, i: int)
    requires
        call_ensures(format_num, (n,), text),
        0 <= i < text@.len(),
    ensures
        decimal_value(without(text@, ',')) == n,
        text@[i] == ',' <==> (text@.len() - i) % 4 == 0,
        text@[0] != ',',
        text@.len() > 1 ==> text@[0] != '0',
{
    law_decimal_reads_back(n as nat);
    law_decimal_digits(n as nat);
    law_commas_only_group(n as nat);
    lemma_decimal_has_no_comma(n as nat);
    law_comma_positions(decimal(n as nat), i);
    lemma_grouped_start(decimal(n as nat));
}

/// Zeros stand in front of a number only as far as the width asks for them, and
/// the digits of the number follow them.
pub proof fn law_numbers_are_padded(n: u64, width: usize, text: String, i: int)
    requires
        call_ensures(padded_decimal_text, (n, width), text),
    ensures
        ({
            let digits = decimal(n as nat);
            let zeros = text@.len() - digits.len();
            &&& text@.len() >= width && text@.len() >= digits.len()
            &&& text@.len() == width || text@.len() == digits.len()
            &&& text@.skip(zeros) == digits
            &&& 0 <= i < zeros ==> text@[i] == '0'
            &&& decimal_value(text@) == n
        }),
{
    let digits = decimal(n as nat);
    let zeros = text@.len() - digits.len();
    assert(text@.skip(zeros) =~= digits);
    assert(text@ =~= Seq::new(zeros as nat, |j: int| '0') + digits);
    law_decimal_reads_back(n as nat);
    lemma_zeros_count_nothing(zeros as nat, digits);
}

/// Two texts are the same exactly where they have the same length and the same
/// character at each index.
pub proof fn law_same_texts(a: &str, b: &str, same: bool)
    requires
        call_ensures(same_text, (a, b), same),
    ensures
        same <==> a@.len() == b@.len() && forall|i: int|
            0 <= i < a@.len() ==> #[trigger] a@[i] == b@[i],
{
    if a@.len() == b@.len() && forall|i: int|
        0 <= i < a@.len() ==> #[trigger] a@[i] == b@[i] {
        assert(a@ =~= b@);
    }
}

/// Lines are joined by putting the separator between each two of them, wherever
/// they are split, and every line is kept.
pub proof fn law_lines_are_joined(
    first: Seq<Seq<char>>,
    second: Seq<Seq<char>>,
    line: Seq<char>,
    separator: Seq<char>,
)
    ensures
        joined(Seq::empty(), separator).len() == 0,
        joined(seq![line], separator) == line,
        first.len() > 0 && second.len() > 0 ==> joined(first + second, separator) == joined(
            first,
            separator,
        ) + separator + joined(second, separator),
    decreases second.len(),
{
    assert(seq![line][0] == line);
    if first.len() > 0 && second.len() > 0 {
        let shorter = second.drop_last();
        assert((first + second).drop_last() =~= first + shorter);
        assert((first + second).last() == second.last());
        if shorter.len() == 0 {
            assert(first + shorter =~= first);
            assert(joined(second, separator) == second[0]);
        } else {
            law_lines_are_joined(first, shorter, line, separator);
            assert(joined(first + second, separator) =~= joined(first, separator) + separator
                + joined(second, separator));
        }
    }
}

/// Grouping keeps the first digit, and adds something only to several.
pub proof fn lemma_grouped_start(digits: Seq<char>)
    requires
        digits.len() > 0,
    ensures
        grouped(digits).len() >= digits.len(),
        grouped(digits)[0] == digits[0],
        grouped(digits).len() > 1 ==> digits.len() > 1,
    decreases digits.len(),
{
    if digits.len() > 3 {
        lemma_grouped_start(digits.take(digits.len() - 3));
    }
}

/// Zeros in front of digits do not change what these stand for.
pub proof fn lemma_zeros_count_nothing(zeros: nat, digits: Seq<char>)
    ensures
        decimal_value(Seq::new(zeros, |j: int| '0') + digits) == decimal_value(digits),
    decreases zeros + digits.len(),
{
    let front = Seq::new(zeros, |j: int| '0');
    let whole = front + digits;
    if digits.len() > 0 {
        assert(whole.drop_last() =~= front + digits.drop_last());
        lemma_zeros_count_nothing(zeros, digits.drop_last());
    } else if zeros > 0 {
        assert(whole.drop_last() =~= Seq::new((zeros - 1) as nat, |j: int| '0') + digits);
        assert(whole.last() == '0');
        lemma_zeros_count_nothing((zeros - 1) as nat, digits);
    } else {
        assert(whole =~= digits);
    }
}

} // verus!
