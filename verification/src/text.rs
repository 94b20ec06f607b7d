//! Small pieces of text: decimal numbers, key names and lists.

use vstd::prelude::*;
use vstd::string::*;

verus! {

/// `String::push`: appends the character to the end of the string.
pub assume_specification[ String::push ](text: &mut String, c: char)
    ensures
        final(text)@ == old(text)@.push(c),
;

/// The character of a digit between 0 and 9.
pub open spec fn digit_char(d: nat) -> char {
    (48 + d) as char
}

/// Whether the character is one of `0` to `9`.
pub open spec fn is_digit(c: char) -> bool {
    '0' <= c <= '9'
}

/// The shortest decimal notation of `n`.
pub open spec fn decimal(n: nat) -> Seq<char>
    decreases n,
{
    if n < 10 {
        seq![digit_char(n)]
    } else {
        decimal(n / 10).push(digit_char(n % 10))
    }
}

/// The number that a sequence of digits denotes.
pub open spec fn digits_value(digits: Seq<char>) -> nat
    decreases digits.len(),
{
    if digits.len() == 0 {
        0
    } else {
        digits_value(digits.drop_last()) * 10 + (digits.last() as nat - 48) as nat
    }
}

/// Whether every character is a digit.
pub open spec fn all_digits(s: Seq<char>) -> bool {
    forall|i: int| 0 <= i < s.len() ==> is_digit(#[trigger] s[i])
}

/// What follows the optional `+` in front of a number.
pub open spec fn unsigned_part(s: Seq<char>) -> Seq<char> {
    if s.len() > 0 && s[0] == '+' {
        s.skip(1)
    } else {
        s
    }
}

/// The unsigned 64 bit number that the text denotes: at least one digit, only
/// digits, at most one `+` in front, and no overflow.
pub open spec fn number_in(s: Seq<char>) -> Option<u64> {
    let digits = unsigned_part(s);
    if digits.len() > 0 && all_digits(digits) && digits_value(digits) <= u64::MAX {
        Some(digits_value(digits) as u64)
    } else {
        None
    }
}

/// The text with every `-` turned into `_`.
pub open spec fn undashed(s: Seq<char>) -> Seq<char> {
    Seq::new(s.len(), |i: int| if s[i] == '-' { '_' } else { s[i] })
}

/// Whether the text holds a `-`.
pub open spec fn dashed(s: Seq<char>) -> bool {
    s.contains('-')
}

/// The parts with a comma between each two neighbours.
pub open spec fn comma_separated(parts: Seq<Seq<char>>) -> Seq<char>
    decreases parts.len(),
{
    if parts.len() == 0 {
        seq![]
    } else if parts.len() == 1 {
        parts[0]
    } else {
        comma_separated(parts.drop_last()).push(',') + parts.last()
    }
}

/// The characters of the text.
fn chars_of(text: &str) -> (chars: Vec<char>)
    ensures
        chars@ == text@,
{
    let mut chars: Vec<char> = Vec::new();
    for c in it: text.chars()
        invariant
            chars@ == it.seq().take(it.index()),
            it.seq() == text@,
    {
        chars.push(c);
    }
    chars
}

/// The decimal notation of `n`.
pub fn to_decimal(n: u64) -> (text: String)
    ensures
        text@ == decimal(n as nat),
    decreases n,
{
    let last: u8 = (n % 10) as u8;
    let mut text = if n < 10 {
        String::new()
    } else {
        to_decimal(n / 10)
    };
    text.push((48 + last) as char);
    text
}

proof fn lemma_longer_digits_denote_no_less(digits: Seq<char>, len: int)
    requires
        0 <= len <= digits.len(),
    ensures
        digits_value(digits.take(len)) <= digits_value(digits),
    decreases digits.len(),
{
    if len < digits.len() {
        lemma_longer_digits_denote_no_less(digits.drop_last(), len);
        assert(digits.drop_last().take(len) == digits.take(len));
    } else {
        assert(digits.take(len) == digits);
    }
}

/// Reads an unsigned number in decimal notation.
pub fn parse_number(text: &str) -> (number: Option<u64>)
    ensures
        number == number_in(text@),
{
    let chars = chars_of(text);
    let start: usize = if chars.len() > 0 && chars[0] == '+' {
        1
    } else {
        0
    };
    if start == chars.len() {
        return None;
    }
    let ghost digits = unsigned_part(text@);
    assert(digits == chars@.skip(start as int));
    let mut value: u64 = 0;
    let mut i: usize = start;
    while i < chars.len()
        invariant
            start <= i <= chars.len(),
            chars@ == text@,
            digits == unsigned_part(text@),
            digits == chars@.skip(start as int),
            digits.len() > 0,
            all_digits(digits.take(i - start)),
            value == digits_value(digits.take(i - start)),
        decreases chars.len() - i,
    {
        let c: char = chars[i];
        assert(c == digits[i - start]);
        if c < '0' || c > '9' {
            return None;
        }
        let next: u128 = value as u128 * 10 + (c as u32 - 48) as u128;
        proof {
            assert(digits.take(i + 1 - start).drop_last() == digits.take(i - start));
            assert(digits.take(i + 1 - start).last() == c);
            lemma_longer_digits_denote_no_less(digits, i + 1 - start);
        }
        if next > u64::MAX as u128 {
            return None;
        }
        value = next as u64;
        i += 1;
        assert forall|k: int| 0 <= k < i - start implies is_digit(
            #[trigger] digits.take(i - start)[k],
        ) by {
            if k < i - 1 - start {
                assert(digits.take(i - 1 - start)[k] == digits[k]);
            }
        }
    }
    assert(digits.take(i - start) == digits);
    Some(value)
}

/// Whether the text holds a `-`.
pub fn has_dash(text: &str) -> (found: bool)
    ensures
        found == dashed(text@),
{
    let chars = chars_of(text);
    for i in 0..chars.len()
        invariant
            chars@ == text@,
            forall|k: int| 0 <= k < i ==> text@[k] != '-',
    {
        if chars[i] == '-' {
            assert(text@[i as int] == '-');
            return true;
        }
    }
    false
}

/// Turns every `-` into `_`.
pub fn undash(text: &str) -> (changed: String)
    ensures
        changed@ == undashed(text@),
{
    let chars = chars_of(text);
    let mut changed = String::new();
    for i in 0..chars.len()
        invariant
            chars@ == text@,
            changed@ == undashed(text@).take(i as int),
    {
        if chars[i] == '-' {
            changed.push('_');
        } else {
            changed.push(chars[i]);
        }
    }
    changed
}

/// Joins the parts with commas.
pub fn join_with_commas(parts: &Vec<String>) -> (joined: String)
    ensures
        joined@ == comma_separated(parts.deep_view()),
{
    let ghost views = parts.deep_view();
    let mut joined = String::new();
    for i in 0..parts.len()
        invariant
            views == parts.deep_view(),
            joined@ == comma_separated(views.take(i as int)),
    {
        if i > 0 {
            joined.push(',');
        }
        joined.append(parts[i].as_str());
        proof {
            assert(views.take(i + 1).drop_last() == views.take(i as int));
            assert(views.take(i + 1).last() == parts[i as int]@);
        }
    }
    assert(views.take(parts.len() as int) == views);
    joined
}

/// A number is read back from its decimal notation.
pub proof fn number_is_read_back(n: u64)
    ensures
        number_in(decimal(n as nat)) == Some(n),
{
    lemma_decimal(n as nat);
}

proof fn lemma_decimal(n: nat)
    ensures
        decimal(n).len() > 0,
        all_digits(decimal(n)),
        digits_value(decimal(n)) == n,
    decreases n,
{
    if n < 10 {
        assert(decimal(n).drop_last() == Seq::<char>::empty());
        assert(digits_value(Seq::<char>::empty()) == 0);
    } else {
        lemma_decimal(n / 10);
        assert(decimal(n).drop_last() == decimal(n / 10));
        assert(decimal(n).last() == digit_char(n % 10));
    }
}

/// A changed name holds no dash, and is as long as it was.
pub proof fn undashed_name_holds_no_dash(s: Seq<char>)
    ensures
        !dashed(undashed(s)),
        undashed(s).len() == s.len(),
{
}

/// Changing a name without dashes leaves it as it is, so changing twice is changing once.
pub proof fn undashing_is_idempotent(s: Seq<char>)
    ensures
        !dashed(s) ==> undashed(s) == s,
        undashed(undashed(s)) == undashed(s),
{
    if !dashed(s) {
        assert forall|i: int| 0 <= i < s.len() implies s[i] != '-' by {
            if s[i] == '-' {
                assert(s.contains('-'));
            }
        }
    }
}

/// Decimal notation is positional: it ends in the last digit, after the notation of the rest,
/// and a number below ten is one digit.
pub proof fn decimal_is_positional(n: nat, d: nat)
    requires
        d < 10,
    ensures
        decimal(d) == seq!["0123456789"@[d as int]],
        n > 0 ==> decimal(10 * n + d) == decimal(n).push("0123456789"@[d as int]),
{
    reveal_strlit("0123456789");
    assert(digit_char(d) == "0123456789"@[d as int]);
    if n > 0 {
        assert((10 * n + d) / 10 == n);
        assert((10 * n + d) % 10 == d);
    }
}

/// A number is written without needless zeros in front.
pub proof fn decimal_has_no_leading_zero(n: nat)
    requires
        n > 0,
    ensures
        decimal(n).len() > 0,
        decimal(n)[0] != '0',
    decreases n,
{
    if n >= 10 {
        decimal_has_no_leading_zero(n / 10);
    }
}

/// No text and a sign alone denote no number, one character does so exactly if it is a digit,
/// and a sign in front of a digit changes nothing.
pub proof fn shortest_numbers(c: char)
    ensures
        number_in(seq![]) is None,
        number_in(seq!['+']) is None,
        '0' <= c <= '9' ==> number_in(seq![c]) == Some((c as u32 - '0' as u32) as u64),
        '0' <= c <= '9' ==> number_in(seq!['+', c]) == Some((c as u32 - '0' as u32) as u64),
        !('0' <= c <= '9') ==> number_in(seq![c]) is None && number_in(seq!['+', c]) is None,
{
    let one = seq![c];
    assert(one.drop_last() == Seq::<char>::empty());
    assert(digits_value(Seq::<char>::empty()) == 0);
    assert(one.last() == c);
    assert(seq!['+', c].skip(1) == one);
    assert(one[0] == c);
    assert(seq!['+'].skip(1) == Seq::<char>::empty());
    if '0' <= c <= '9' {
        assert(all_digits(one));
        assert(digits_value(one) == c as nat - 48);
    } else {
        assert(!all_digits(one));
    }
}

/// One more digit makes ten times the number and the digit, unless that is too large. One
/// more character that is no digit makes it no number, and what is no number stays none
/// however it goes on, but for a sign alone.
pub proof fn numbers_grow_by_digits(s: Seq<char>, c: char)
    requires
        s.len() > 0,
        s != seq!['+'],
    ensures
        number_in(s) is None ==> number_in(s.push(c)) is None,
        !('0' <= c <= '9') ==> number_in(s.push(c)) is None,
        number_in(s) matches Some(n) ==> '0' <= c <= '9' ==> number_in(s.push(c)) == if 10 * n + (
        c as u32 - '0' as u32) <= u64::MAX {
            Some((10 * n + (c as u32 - '0' as u32)) as u64)
        } else {
            None
        },
{
    let longer = s.push(c);
    let digits = unsigned_part(s);
    let more = unsigned_part(longer);
    assert(s.len() == 1 ==> s == seq![s[0]]);
    assert(more == digits.push(c));
    assert(more.drop_last() == digits);
    assert(more.last() == c);
    assert(digits.len() > 0);
    if all_digits(more) {
        assert forall|i: int| 0 <= i < digits.len() implies is_digit(#[trigger] digits[i]) by {
            assert(more[i] == digits[i]);
        }
        assert(is_digit(more[more.len() - 1]));
    }
    if all_digits(digits) && is_digit(c) {
        assert forall|i: int| 0 <= i < more.len() implies is_digit(#[trigger] more[i]) by {
            if i < digits.len() {
                assert(more[i] == digits[i]);
            }
        }
    }
    assert(is_digit(c) ==> digits_value(more) == digits_value(digits) * 10 + (c as nat - 48));
}

/// Each `-` becomes `_`, and every other character stays where it is.
pub proof fn only_dashes_change(s: Seq<char>, i: int)
    requires
        0 <= i < s.len(),
    ensures
        undashed(s).len() == s.len(),
        s[i] == '-' ==> undashed(s)[i] == '_',
        s[i] != '-' ==> undashed(s)[i] == s[i],
{
}

/// A text is dashed exactly if one of its characters is `-`.
pub proof fn dashed_texts_hold_a_dash(s: Seq<char>)
    ensures
        dashed(s) <==> exists|i: int| 0 <= i < s.len() && #[trigger] s[i] == '-',
{
}

/// A list of none is empty, a list of one is its part, and two lists make one with a comma
/// between them.
pub proof fn lists_join_with_a_comma(a: Seq<Seq<char>>, b: Seq<Seq<char>>, part: Seq<char>)
    ensures
        comma_separated(seq![]) == Seq::<char>::empty(),
        comma_separated(seq![part]) == part,
        a.len() > 0 && b.len() > 0 ==> comma_separated(a + b) == comma_separated(a) + seq![',']
            + comma_separated(b),
    decreases b.len(),
{
    if a.len() > 0 && b.len() > 0 {
        let whole = a + b;
        assert(whole.drop_last() == a + b.drop_last());
        assert(whole.last() == b.last());
        if b.len() == 1 {
            assert(a + b.drop_last() == a);
        } else {
            lists_join_with_a_comma(a, b.drop_last(), part);
        }
    }
}

} // verus!
