//! Decimal numerals.
//!
//! A numeral is an optional sign, digits with at most one decimal point among
//! them, and an optional exponent: `12`, `-0.5`, `.5`, `1e-05`, `+3.25E2`. It
//! is read as a count of a decimal fraction of one: the decimal point moves
//! as many places to the right as the fraction has, and what is then left
//! behind it is dropped. With nine places the count is a [`Fixed`].

use vstd::prelude::*;
use crate::error::ParseFloatError;
use crate::fixed::Fixed;

verus! {

pub open spec fn is_digit(c: char) -> bool {
    '0' <= c <= '9'
}

pub open spec fn is_sign(c: char) -> bool {
    c == '+' || c == '-'
}

/// The value of a digit.
pub open spec fn digit_value(c: char) -> nat {
    (c as u32 - '0' as u32) as nat
}

/// The number that a string of digits denotes.
pub open spec fn number_of(digits: Seq<char>) -> nat
    decreases digits.len(),
{
    if digits.len() == 0 {
        0
    } else {
        number_of(digits.drop_last()) * 10 + digit_value(digits.last())
    }
}

/// `count` zeros.
pub open spec fn zeros(count: int) -> Seq<char> {
    Seq::new(count as nat, |i: int| '0')
}

/// The digits before the decimal point, once the point has moved `shift`
/// places to the right of the end of `digits` (to the left where `shift` is
/// negative).
pub open spec fn shifted(digits: Seq<char>, shift: int) -> Seq<char> {
    if shift >= 0 {
        digits + zeros(shift)
    } else if digits.len() + shift > 0 {
        digits.take(digits.len() + shift)
    } else {
        Seq::empty()
    }
}

/// Where the run of digits that starts at `from` ends.
pub open spec fn digits_end(text: Seq<char>, from: int) -> int
    decreases text.len() - from,
{
    if 0 <= from < text.len() && is_digit(text[from]) {
        digits_end(text, from + 1)
    } else {
        from
    }
}

/// One where `text` has a sign at `at`, zero where it has none.
pub open spec fn sign_len(text: Seq<char>, at: int) -> int {
    if 0 <= at < text.len() && is_sign(text[at]) {
        1
    } else {
        0
    }
}

/// Where the digits before the decimal point end.
pub open spec fn int_end(text: Seq<char>) -> int {
    digits_end(text, sign_len(text, 0))
}

/// Where the digits behind the decimal point start.
pub open spec fn frac_start(text: Seq<char>) -> int {
    if int_end(text) < text.len() && text[int_end(text)] == '.' {
        int_end(text) + 1
    } else {
        int_end(text)
    }
}

/// Where the digits behind the decimal point end.
pub open spec fn frac_end(text: Seq<char>) -> int {
    digits_end(text, frac_start(text))
}

/// The digits of the numeral, without its decimal point.
pub open spec fn mantissa(text: Seq<char>) -> Seq<char> {
    text.subrange(sign_len(text, 0), int_end(text)) + text.subrange(
        frac_start(text),
        frac_end(text),
    )
}

/// The numeral has an exponent.
pub open spec fn has_exponent(text: Seq<char>) -> bool {
    frac_end(text) < text.len() && (text[frac_end(text)] == 'e' || text[frac_end(text)] == 'E')
}

/// Where the digits of the exponent start.
pub open spec fn exp_start(text: Seq<char>) -> int {
    frac_end(text) + 1 + sign_len(text, frac_end(text) + 1)
}

/// Where the digits of the exponent end.
pub open spec fn exp_end(text: Seq<char>) -> int {
    digits_end(text, exp_start(text))
}

/// The exponent of the numeral; zero where it has none.
pub open spec fn exponent(text: Seq<char>) -> int {
    if !has_exponent(text) {
        0
    } else if text[frac_end(text) + 1] == '-' {
        -(number_of(text.subrange(exp_start(text), exp_end(text))) as int)
    } else {
        number_of(text.subrange(exp_start(text), exp_end(text))) as int
    }
}

/// `text` is a numeral: it has a digit before or behind the decimal point,
/// an exponent has a digit, and nothing follows.
pub open spec fn is_numeral(text: Seq<char>) -> bool {
    &&& mantissa(text).len() > 0
    &&& if has_exponent(text) {
        exp_start(text) < exp_end(text) && exp_end(text) == text.len()
    } else {
        frac_end(text) == text.len()
    }
}

/// By how many places the decimal point moves from the end of the digits of
/// the numeral: by `kept` and by the exponent to the right, and to the left
/// by the places that the numeral has behind its decimal point.
pub open spec fn shift(text: Seq<char>, kept: int) -> int {
    kept + exponent(text) - (frac_end(text) - frac_start(text))
}

/// The number that a numeral denotes, without its sign, counted in units of
/// ten to the power of minus `kept`.
pub open spec fn magnitude(text: Seq<char>, kept: int) -> nat {
    number_of(shifted(mantissa(text), shift(text, kept)))
}

/// What [`parse_scaled`] makes of `text`.
pub open spec fn parsed_scaled(text: Seq<char>, kept: int) -> Result<i64, ParseFloatError> {
    if text.len() == 0 {
        Err(ParseFloatError::Empty)
    } else if !is_numeral(text) || magnitude(text, kept) > i64::MAX {
        Err(ParseFloatError::Invalid)
    } else if text[0] == '-' {
        Ok((-(magnitude(text, kept) as int)) as i64)
    } else {
        Ok(magnitude(text, kept) as i64)
    }
}

/// What [`parse_number`] makes of `text`: a [`Fixed`] counts billionths.
pub open spec fn parsed_number(text: Seq<char>) -> Result<Fixed, ParseFloatError> {
    parsed_scaled(text, 9)
}

/// Ten to the power of `k`.
pub open spec fn pow10(k: nat) -> nat
    decreases k,
{
    if k == 0 {
        1
    } else {
        10 * pow10((k - 1) as nat)
    }
}

proof fn lemma_number_of_push(digits: Seq<char>, c: char)
    ensures
        number_of(digits.push(c)) == number_of(digits) * 10 + digit_value(c),
{
    assert(digits.push(c).drop_last() =~= digits);
}

/// A string of digits denotes no less than any of its beginnings.
proof fn lemma_number_of_prefix(head: Seq<char>, tail: Seq<char>)
    ensures
        number_of(head + tail) >= number_of(head),
    decreases tail.len(),
{
    if tail.len() == 0 {
        assert(head + tail =~= head);
    } else {
        lemma_number_of_prefix(head, tail.drop_last());
        assert(head + tail =~= (head + tail.drop_last()).push(tail.last()));
        lemma_number_of_push(head + tail.drop_last(), tail.last());
    }
}

/// Zeros behind a string of digits multiply its number by a power of ten.
proof fn lemma_number_of_padded(digits: Seq<char>, k: nat)
    ensures
        number_of(digits + zeros(k as int)) == number_of(digits) * pow10(k),
    decreases k,
{
    if k == 0 {
        assert(digits + zeros(0) =~= digits);
        assert(number_of(digits) * 1 == number_of(digits));
    } else {
        let shorter = digits + zeros(k - 1);
        lemma_number_of_padded(digits, (k - 1) as nat);
        assert(digits + zeros(k as int) =~= shorter.push('0'));
        lemma_number_of_push(shorter, '0');
        assert(digit_value('0') == 0);
        let n = number_of(digits);
        let p = pow10((k - 1) as nat);
        assert(number_of(digits + zeros(k as int)) == n * p * 10);
        assert(pow10(k) == 10 * p);
        assert(n * p * 10 == n * (10 * p)) by (nonlinear_arith);
    }
}

proof fn lemma_pow10_grows(a: nat, b: nat)
    requires
        a <= b,
    ensures
        pow10(a) <= pow10(b),
        pow10(a) >= 1,
    decreases b,
{
    if a < b {
        lemma_pow10_grows(a, (b - 1) as nat);
    } else if a > 0 {
        lemma_pow10_grows((a - 1) as nat, (a - 1) as nat);
    }
}

/// Nineteen zeros or more behind a number other than zero take it out of the
/// range of a [`Fixed`].
proof fn lemma_padded_out_of_range(digits: Seq<char>, k: nat)
    requires
        k >= 19,
        number_of(digits) >= 1,
    ensures
        number_of(digits + zeros(k as int)) > i64::MAX,
{
    lemma_number_of_padded(digits, k);
    lemma_pow10_grows(19, k);
    assert(pow10(19) == 10_000_000_000_000_000_000nat) by {
        reveal_with_fuel(pow10, 20);
    }
    assert(number_of(digits) * pow10(k) >= pow10(k)) by (nonlinear_arith)
        requires
            number_of(digits) >= 1,
    ;
}

/// Zeros behind the number zero leave it zero.
proof fn lemma_padded_zero(digits: Seq<char>, k: nat)
    requires
        number_of(digits) == 0,
    ensures
        number_of(digits + zeros(k as int)) == 0,
{
    lemma_number_of_padded(digits, k);
    assert(0 * pow10(k) == 0) by (nonlinear_arith);
}

/// The characters of a text.
pub fn chars_of(text: &str) -> (chars: Vec<char>)
    ensures
        chars@ == text@,
{
    let mut chars: Vec<char> = Vec::new();
    for c in it: text.chars()
        invariant
            it.seq() == text@,
            chars@ == text@.take(it.index() as int),
    {
        chars.push(c);
        assert(text@.take(it.index() + 1) =~= text@.take(it.index() as int).push(c));
    }
    assert(text@.take(text@.len() as int) =~= text@);
    chars
}

pub(crate) fn digit_at(text: &Vec<char>, at: usize) -> (r: bool)
    ensures
        r == (at < text@.len() && is_digit(text@[at as int])),
{
    at < text.len() && text[at] >= '0' && text[at] <= '9'
}

pub(crate) fn sign_at(text: &Vec<char>, at: usize) -> (r: bool)
    ensures
        r == (sign_len(text@, at as int) == 1),
{
    at < text.len() && (text[at] == '+' || text[at] == '-')
}

/// Where the run of digits that starts at `from` ends.
pub(crate) fn scan_digits(text: &Vec<char>, from: usize) -> (end: usize)
    requires
        from <= text@.len(),
    ensures
        end == digits_end(text@, from as int),
        from <= end <= text@.len(),
        forall|i: int| from <= i < end ==> is_digit(#[trigger] text@[i]),
{
    let len: usize = text.len();
    let mut end: usize = from;
    while digit_at(text, end)
        invariant
            from <= end <= text@.len(),
            text@.len() == len,
            digits_end(text@, from as int) == digits_end(text@, end as int),
            forall|i: int| from <= i < end ==> is_digit(#[trigger] text@[i]),
        decreases text@.len() - end,
    {
        end = end + 1;
    }
    end
}

/// The bound to which the size of an exponent is held. A larger exponent
/// moves the decimal point beyond every digit that a text can hold, as this
/// one does.
pub const EXPONENT_CAP: u128 = 0x40_0000_0000_0000_0000;

/// The number that the digits of `text` from `from` to `end` denote, held to
/// [`EXPONENT_CAP`].
pub(crate) fn capped_number(text: &Vec<char>, from: usize, end: usize) -> (r: u128)
    requires
        from <= end <= text@.len(),
        forall|i: int| from <= i < end ==> is_digit(#[trigger] text@[i]),
    ensures
        r <= EXPONENT_CAP,
        r < EXPONENT_CAP ==> r == number_of(text@.subrange(from as int, end as int)),
        r == EXPONENT_CAP ==> number_of(text@.subrange(from as int, end as int)) >= EXPONENT_CAP,
{
    let mut r: u128 = 0;
    let mut i: usize = from;
    assert(text@.subrange(from as int, from as int) =~= Seq::<char>::empty());
    while i < end
        invariant
            from <= i <= end <= text@.len(),
            forall|j: int| from <= j < end ==> is_digit(#[trigger] text@[j]),
            r <= EXPONENT_CAP,
            r < EXPONENT_CAP ==> r == number_of(text@.subrange(from as int, i as int)),
            r == EXPONENT_CAP ==> number_of(text@.subrange(from as int, i as int))
                >= EXPONENT_CAP,
        decreases end - i,
    {
        let c: char = text[i];
        assert(is_digit(text@[i as int]));
        let d: u128 = (c as u32 - '0' as u32) as u128;
        proof {
            assert(text@.subrange(from as int, i + 1) =~= text@.subrange(
                from as int,
                i as int,
            ).push(c));
            lemma_number_of_push(text@.subrange(from as int, i as int), c);
        }
        r = r * 10 + d;
        if r > EXPONENT_CAP {
            r = EXPONENT_CAP;
        }
        i = i + 1;
    }
    r
}

/// Where the parts of a numeral lie in its text.
pub struct Layout {
    /// Where the digits before the decimal point start.
    pub start: usize,
    /// How many they are.
    pub before: usize,
    /// Where the digits behind the decimal point start.
    pub behind: usize,
    /// How many they are.
    pub places: usize,
    /// The exponent has a minus sign.
    pub exp_negative: bool,
    /// The exponent without its sign, held to [`EXPONENT_CAP`].
    pub exp_size: u128,
}

impl Layout {
    /// The layout is that of the numeral `text`.
    pub open spec fn describes(&self, text: Seq<char>) -> bool {
        &&& self.start == sign_len(text, 0)
        &&& self.start + self.before == int_end(text)
        &&& self.behind == frac_start(text)
        &&& self.behind + self.places == frac_end(text)
        &&& self.behind + self.places <= text.len()
        &&& self.before + self.places > 0
        &&& forall|i: int|
            self.start <= i < self.start + self.before ==> is_digit(#[trigger] text[i])
        &&& forall|i: int|
            self.behind <= i < self.behind + self.places ==> is_digit(#[trigger] text[i])
        &&& self.exp_size <= EXPONENT_CAP
        &&& if self.exp_negative {
            if self.exp_size < EXPONENT_CAP {
                exponent(text) == -self.exp_size
            } else {
                exponent(text) <= -EXPONENT_CAP
            }
        } else {
            if self.exp_size < EXPONENT_CAP {
                exponent(text) == self.exp_size
            } else {
                exponent(text) >= EXPONENT_CAP
            }
        }
    }

    /// By how many places the decimal point moves, as far as the layout
    /// tells.
    pub open spec fn moved(&self, kept: int) -> int {
        if self.exp_negative {
            kept - self.exp_size - self.places
        } else {
            kept + self.exp_size - self.places
        }
    }
}

/// Finds the parts of a numeral; none where the text is no numeral.
fn layout_of(text: &Vec<char>) -> (layout: Option<Layout>)
    ensures
        match layout {
            Some(layout) => is_numeral(text@) && layout.describes(text@),
            None => !is_numeral(text@),
        },
{
    let len: usize = text.len();
    let start: usize = if sign_at(text, 0) {
        1
    } else {
        0
    };
    let before_end: usize = scan_digits(text, start);
    let behind: usize = if before_end < len && text[before_end] == '.' {
        before_end + 1
    } else {
        before_end
    };
    let behind_end: usize = scan_digits(text, behind);
    let before: usize = before_end - start;
    let places: usize = behind_end - behind;
    assert(mantissa(text@).len() == before + places);
    if before == 0 && places == 0 {
        return None;
    }
    if behind_end == len {
        return Some(Layout { start, before, behind, places, exp_negative: false, exp_size: 0 });
    }
    if !(text[behind_end] == 'e' || text[behind_end] == 'E') {
        return None;
    }
    let exp_negative: bool = behind_end + 1 < len && text[behind_end + 1] == '-';
    let exp_from: usize = if sign_at(text, behind_end + 1) {
        behind_end + 2
    } else {
        behind_end + 1
    };
    let exp_to: usize = scan_digits(text, exp_from);
    if exp_to == exp_from || exp_to != len {
        return None;
    }
    let exp_size: u128 = capped_number(text, exp_from, exp_to);
    Some(Layout { start, before, behind, places, exp_negative, exp_size })
}

/// Digit `j` of the digits of a numeral.
fn mantissa_digit(text: &Vec<char>, layout: &Layout, j: usize) -> (d: u128)
    requires
        layout.describes(text@),
        j < layout.before + layout.places,
    ensures
        d == digit_value(mantissa(text@)[j as int]),
        d <= 9,
{
    let len: usize = text.len();
    let c: char = if j < layout.before {
        text[layout.start + j]
    } else {
        text[layout.behind + (j - layout.before)]
    };
    assert(c == mantissa(text@)[j as int]);
    assert(is_digit(c));
    (c as u32 - '0' as u32) as u128
}

/// The number that the first `take` digits of a numeral denote; none where
/// it is beyond the range of a [`Fixed`].
fn leading_number(text: &Vec<char>, layout: &Layout, take: usize) -> (number: Option<u128>)
    requires
        layout.describes(text@),
        take <= layout.before + layout.places,
    ensures
        match number {
            Some(n) => n == number_of(mantissa(text@).take(take as int)) && n <= i64::MAX,
            None => number_of(mantissa(text@).take(take as int)) > i64::MAX,
        },
{
    let ghost digits = mantissa(text@);
    let mut sum: u128 = 0;
    let mut j: usize = 0;
    assert(digits.take(0) =~= Seq::<char>::empty());
    while j < take
        invariant
            j <= take <= layout.before + layout.places,
            layout.describes(text@),
            digits == mantissa(text@),
            sum == number_of(digits.take(j as int)),
            sum <= i64::MAX,
        decreases take - j,
    {
        let d: u128 = mantissa_digit(text, layout, j);
        proof {
            assert(digits.take(j + 1) =~= digits.take(j as int).push(digits[j as int]));
            lemma_number_of_push(digits.take(j as int), digits[j as int]);
        }
        sum = sum * 10 + d;
        if sum > i64::MAX as u128 {
            proof {
                assert(digits.take(take as int) =~= digits.take(j + 1) + digits.subrange(
                    j + 1,
                    take as int,
                ));
                lemma_number_of_prefix(digits.take(j + 1), digits.subrange(j + 1, take as int));
            }
            return None;
        }
        j = j + 1;
    }
    Some(sum)
}

/// The number of `digits` with `moved` zeros behind them, where `sum` is the
/// number of `digits`; none where it is beyond the range of a [`Fixed`].
fn padded_number(sum: u128, moved: i128, Ghost(digits): Ghost<Seq<char>>) -> (number: Option<u128>)
    requires
        sum == number_of(digits),
        sum <= i64::MAX,
        moved >= 0,
    ensures
        match number {
            Some(n) => n <= i64::MAX && n == number_of(digits + zeros(moved as int)),
            None => number_of(digits + zeros(moved as int)) > i64::MAX,
        },
{
    let mut sum: u128 = sum;
    let mut k: i128 = 0;
    assert(digits + zeros(0) =~= digits);
    while k < moved && sum != 0
        invariant
            0 <= k <= moved,
            sum == number_of(digits + zeros(k as int)),
            sum <= i64::MAX,
        decreases moved - k,
    {
        proof {
            assert(digits + zeros(k + 1) =~= (digits + zeros(k as int)).push('0'));
            lemma_number_of_push(digits + zeros(k as int), '0');
        }
        sum = sum * 10;
        if sum > i64::MAX as u128 {
            proof {
                assert(digits + zeros(moved as int) =~= (digits + zeros(k + 1)) + zeros(
                    moved - (k + 1),
                ));
                lemma_number_of_prefix(digits + zeros(k + 1), zeros(moved - (k + 1)));
            }
            return None;
        }
        k = k + 1;
    }
    proof {
        if sum == 0 {
            lemma_padded_zero(digits + zeros(k as int), (moved - k) as nat);
            assert(digits + zeros(moved as int) =~= (digits + zeros(k as int)) + zeros(moved - k));
        }
    }
    Some(sum)
}

/// Reads a numeral as a [`Fixed`].
///
/// Fails with [`ParseFloatError::Empty`] on the empty text, and with
/// [`ParseFloatError::Invalid`] on a text that is no numeral or whose number
/// is beyond the range of a [`Fixed`].
pub fn parse_number(text: &str) -> (number: Result<Fixed, ParseFloatError>)
    ensures
        number == parsed_number(text@),
{
    let chars: Vec<char> = chars_of(text);
    parse_chars(&chars)
}

/// Reads a numeral as a [`Fixed`] from its characters.
pub fn parse_chars(text: &Vec<char>) -> (number: Result<Fixed, ParseFloatError>)
    ensures
        number == parsed_number(text@),
{
    parse_scaled(text, 9)
}

/// Reads a numeral from its characters, as a count of units of ten to the
/// power of minus `kept`.
pub fn parse_scaled(text: &Vec<char>, kept: u8) -> (number: Result<i64, ParseFloatError>)
    ensures
        number == parsed_scaled(text@, kept as int),
{
    if text.len() == 0 {
        return Err(ParseFloatError::Empty);
    }
    let negative: bool = text[0] == '-';
    let layout: Layout = match layout_of(text) {
        Some(layout) => layout,
        None => {
            return Err(ParseFloatError::Invalid);
        },
    };
    match magnitude_of(text, &layout, kept) {
        Some(size) => if negative {
            Ok(-(size as i64))
        } else {
            Ok(size as i64)
        },
        None => Err(ParseFloatError::Invalid),
    }
}

/// The number that a numeral denotes, without its sign, in units of ten to the
/// power of minus `kept`; none where it is beyond the range of an `i64`.
fn magnitude_of(text: &Vec<char>, layout: &Layout, kept: u8) -> (size: Option<u128>)
    requires
        layout.describes(text@),
    ensures
        match size {
            Some(n) => n == magnitude(text@, kept as int) && n <= i64::MAX,
            None => magnitude(text@, kept as int) > i64::MAX,
        },
{
    let ghost digits = mantissa(text@);
    let ghost by = shift(text@, kept as int);
    let len: usize = text.len();
    let count: usize = layout.before + layout.places;
    let moved: i128 = if layout.exp_negative {
        (kept as i128) - (layout.exp_size as i128) - (layout.places as i128)
    } else {
        (kept as i128) + (layout.exp_size as i128) - (layout.places as i128)
    };
    assert(moved == layout.moved(kept as int));
    assert(digits.len() == count);
    if moved >= 0 {
        // Every digit stays, and zeros fill the places up to the decimal point.
        assert(by >= moved);
        assert(by > moved ==> moved >= 19);
        assert(digits.take(count as int) =~= digits);
        assert(shifted(digits, by) == digits + zeros(by));
        match leading_number(text, layout, count) {
            Some(sum) => {
                let padded: Option<u128> = padded_number(sum, moved, Ghost(digits));
                proof {
                    assert(digits + zeros(by) =~= (digits + zeros(moved as int)) + zeros(
                        by - moved,
                    ));
                    lemma_number_of_prefix(digits + zeros(moved as int), zeros(by - moved));
                    if padded is Some && by > moved {
                        if sum >= 1 {
                            lemma_padded_out_of_range(digits, moved as nat);
                        }
                        lemma_padded_zero(digits, moved as nat);
                        lemma_padded_zero(digits, by as nat);
                    }
                }
                padded
            },
            None => {
                proof {
                    lemma_number_of_prefix(digits, zeros(by));
                }
                None
            },
        }
    } else if (count as i128) + moved > 0 {
        // The last digits fall behind the decimal point.
        assert(by == moved);
        leading_number(text, layout, ((count as i128) + moved) as usize)
    } else {
        assert(by <= moved);
        assert(shifted(digits, by) =~= Seq::<char>::empty());
        Some(0)
    }
}

} // verus!
