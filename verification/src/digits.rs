//! Decimal digit strings and the natural numbers they denote.
//!
//! A digit string is a sequence of the ten ASCII digits. It may be empty
//! (denoting zero) and may carry leading zeros. Numbers are unbounded here:
//! the successor of a digit string is computed on the text itself. Whether a
//! number fits a machine integer is a question of its own, which
//! `number_within` answers.

use vstd::prelude::*;

verus! {

/// Whether `c` is one of the ten ASCII decimal digits.
pub open spec fn is_digit(c: char) -> bool {
    '0' <= c && c <= '9'
}

/// Whether every character of `text` is an ASCII decimal digit.
pub open spec fn all_digits(text: Seq<char>) -> bool {
    forall|i: int| 0 <= i < text.len() ==> is_digit(#[trigger] text[i])
}

/// The value of one digit; zero for any other character.
pub open spec fn digit_value(c: char) -> nat {
    if is_digit(c) {
        (c as u32 - 48) as nat
    } else {
        0
    }
}

/// The digit that writes `d`, for `d` below ten.
pub open spec fn digit_char(d: nat) -> char {
    ((d + 48) as u8) as char
}

/// The number that a digit string denotes, most significant digit first.
/// The empty string denotes zero.
pub open spec fn number(digits: Seq<char>) -> nat
    decreases digits.len(),
{
    if digits.len() == 0 {
        0
    } else {
        10 * number(digits.drop_last()) + digit_value(digits.last())
    }
}

/// The shortest decimal writing of `n`: no leading zero, except for zero itself.
pub open spec fn decimal(n: nat) -> Seq<char>
    decreases n,
{
    if n < 10 {
        seq![digit_char(n)]
    } else {
        decimal(n / 10).push(digit_char(n % 10))
    }
}

/// A digit string in shortest form: not empty, and without a leading zero
/// unless it is the single digit zero.
pub open spec fn is_shortest(digits: Seq<char>) -> bool {
    &&& digits.len() >= 1
    &&& all_digits(digits)
    &&& digits.len() > 1 ==> digits[0] != '0'
}

/// `count` copies of the character `c`.
pub open spec fn repeated(c: char, count: nat) -> Seq<char> {
    Seq::new(count, |i: int| c)
}

/// Appending a digit multiplies the number by ten and adds the digit.
pub proof fn lemma_number_push(digits: Seq<char>, c: char)
    ensures
        number(digits.push(c)) == 10 * number(digits) + digit_value(c),
{
    assert(digits.push(c).drop_last() =~= digits);
}

/// Leading zeros do not change the number.
pub proof fn lemma_number_leading_zeros(count: nat, digits: Seq<char>)
    ensures
        number(repeated('0', count) + digits) == number(digits),
    decreases digits.len(), count,
{
    let whole = repeated('0', count) + digits;
    if digits.len() > 0 {
        assert(whole.drop_last() =~= repeated('0', count) + digits.drop_last());
        lemma_number_leading_zeros(count, digits.drop_last());
    } else if count > 0 {
        assert(whole.drop_last() =~= repeated('0', (count - 1) as nat) + digits);
        lemma_number_leading_zeros((count - 1) as nat, digits);
    }
}

/// Writing the number of a shortest digit string gives the string back.
pub proof fn lemma_decimal_of_number(digits: Seq<char>)
    requires
        is_shortest(digits),
    ensures
        decimal(number(digits)) == digits,
    decreases digits.len(),
{
    let front = digits.drop_last();
    let c = digits.last();
    assert(digit_char(digit_value(c)) == c);
    if digits.len() == 1 {
        assert(number(front) == 0);
        assert(decimal(number(digits)) =~= digits);
    } else {
        // `front` is in shortest form too, and does not denote zero: else
        // it would be written "0", and `digits` would start with a zero
        lemma_decimal_of_number(front);
        let n = number(digits);
        assert(n / 10 == number(front) && n % 10 == digit_value(c));
        assert(decimal(n) =~= digits);
    }
}

/// A single digit denotes its own value.
pub proof fn lemma_number_single(c: char)
    ensures
        number(seq![c]) == digit_value(c),
{
    assert(seq![c].drop_last() =~= Seq::<char>::empty());
    assert(number(Seq::<char>::empty()) == 0);
}

/// `decimal` writes every number in shortest form, and the string it writes
/// denotes that number.
pub proof fn lemma_decimal_is_shortest(n: nat)
    ensures
        is_shortest(decimal(n)),
        number(decimal(n)) == n,
    decreases n,
{
    if n < 10 {
        lemma_number_single(digit_char(n));
    } else {
        lemma_decimal_is_shortest(n / 10);
        let front = decimal(n / 10);
        lemma_number_push(front, digit_char(n % 10));
        if front.len() == 1 {
            assert(front =~= seq![front[0]]);
            lemma_number_single(front[0]);
        }
    }
}

/// Carrying: where `bumped` denotes one more than `digits`, `bumped` followed
/// by zeros denotes one more than `digits` followed by as many nines.
pub proof fn lemma_carry(digits: Seq<char>, bumped: Seq<char>, count: nat)
    requires
        number(bumped) == number(digits) + 1,
    ensures
        number(bumped + repeated('0', count)) == number(digits + repeated('9', count)) + 1,
    decreases count,
{
    if count > 0 {
        let fewer = (count - 1) as nat;
        lemma_carry(digits, bumped, fewer);
        assert(bumped + repeated('0', count) =~= (bumped + repeated('0', fewer)).push('0'));
        assert(digits + repeated('9', count) =~= (digits + repeated('9', fewer)).push('9'));
        lemma_number_push(bumped + repeated('0', fewer), '0');
        lemma_number_push(digits + repeated('9', fewer), '9');
    }
}

/// The first digits of a digit string denote no more than all of them.
pub proof fn lemma_number_of_front(digits: Seq<char>, count: int)
    requires
        0 <= count <= digits.len(),
    ensures
        number(digits.take(count)) <= number(digits),
    decreases digits.len() - count,
{
    if count < digits.len() {
        assert(digits.drop_last().take(count) =~= digits.take(count));
        lemma_number_of_front(digits.drop_last(), count);
    } else {
        assert(digits.take(count) =~= digits);
    }
}

/// The number that `digits` denote, if it is `limit` at most; `None` if it
/// is more.
pub fn number_within(digits: &Vec<char>, limit: u64) -> (n: Option<u64>)
    requires
        all_digits(digits@),
        limit <= 1_000_000_000_000_000_000,
    ensures
        n == if number(digits@) <= limit {
            Some(number(digits@) as u64)
        } else {
            None::<u64>
        },
{
    let mut sum: u64 = 0;
    let mut i: usize = 0;
    while i < digits.len()
        invariant
            i <= digits@.len(),
            all_digits(digits@),
            limit <= 1_000_000_000_000_000_000,
            sum == number(digits@.take(i as int)),
            sum <= limit,
        decreases digits@.len() - i,
    {
        let c = digits[i];
        proof {
            assert(is_digit(digits@[i as int]));
            assert(digits@.take(i + 1) =~= digits@.take(i as int).push(c));
            lemma_number_push(digits@.take(i as int), c);
            lemma_number_of_front(digits@, i + 1);
        }
        let next: u64 = sum * 10 + ((c as u32 - 48) as u64);
        if next > limit {
            return None;
        }
        sum = next;
        i += 1;
    }
    proof {
        assert(digits@.take(digits@.len() as int) =~= digits@);
    }
    Some(sum)
}

/// Whether `c` is an ASCII decimal digit.
pub fn is_ascii_digit(c: char) -> (digit: bool)
    ensures
        digit == is_digit(c),
{
    c >= '0' && c <= '9'
}

/// The successor of a digit string of zeros followed by nines only: a one,
/// then as many zeros as there were nines.
pub proof fn lemma_successor_of_nines(digits: Seq<char>, lead: int)
    requires
        0 <= lead <= digits.len(),
        forall|i: int| 0 <= i < lead ==> digits[i] == '0',
        forall|i: int| lead <= i < digits.len() ==> digits[i] == '9',
    ensures
        decimal(number(digits) + 1) == seq!['1'] + repeated('0', (digits.len() - lead) as nat),
{
    let tail = (digits.len() - lead) as nat;
    let none = Seq::<char>::empty();
    let next = seq!['1'] + repeated('0', tail);
    assert(digits =~= repeated('0', lead as nat) + (none + repeated('9', tail)));
    lemma_number_leading_zeros(lead as nat, none + repeated('9', tail));
    lemma_number_single('1');
    lemma_carry(none, seq!['1'], tail);
    assert(is_shortest(next)) by {
        assert forall|i: int| 0 <= i < next.len() implies is_digit(#[trigger] next[i]) by {}
    }
    lemma_decimal_of_number(next);
}

/// The successor of a digit string whose last digit below nine stands at
/// `keep - 1`: the leading zeros go, that digit grows by one, and the nines
/// after it turn into zeros.
pub proof fn lemma_successor_of_digits(digits: Seq<char>, lead: int, keep: int)
    requires
        all_digits(digits),
        0 <= lead < keep <= digits.len(),
        forall|i: int| 0 <= i < lead ==> digits[i] == '0',
        digits[lead] != '0',
        digits[keep - 1] != '9',
        forall|i: int| keep <= i < digits.len() ==> digits[i] == '9',
    ensures
        decimal(number(digits) + 1) == digits.subrange(lead, keep - 1).push(
            digit_char(digit_value(digits[keep - 1]) + 1),
        ) + repeated('0', (digits.len() - keep) as nat),
{
    let tail = (digits.len() - keep) as nat;
    let front = digits.subrange(lead, keep - 1);
    let last = digits[keep - 1];
    let raised = digit_char(digit_value(last) + 1);
    let next = front.push(raised) + repeated('0', tail);
    assert(digits =~= repeated('0', lead as nat) + (front.push(last) + repeated('9', tail)));
    lemma_number_leading_zeros(lead as nat, front.push(last) + repeated('9', tail));
    lemma_number_push(front, last);
    lemma_number_push(front, raised);
    lemma_carry(front.push(last), front.push(raised), tail);
    assert(is_shortest(next)) by {
        assert forall|i: int| 0 <= i < next.len() implies is_digit(#[trigger] next[i]) by {}
    }
    lemma_decimal_of_number(next);
}

/// The digit string that denotes one more than `digits`, in shortest form.
///
/// Leading zeros of `digits` are dropped, and a run of nines grows by one
/// digit: `"0099"` becomes `"100"`. The empty string becomes `"1"`.
pub fn successor(digits: &Vec<char>) -> (next: Vec<char>)
    requires
        all_digits(digits@),
    ensures
        next@ == decimal(number(digits@) + 1),
{
    let n = digits.len();
    let mut lead: usize = 0;
    while lead < n && digits[lead] == '0'
        invariant
            lead <= n,
            n == digits.len(),
            forall|i: int| 0 <= i < lead ==> digits@[i] == '0',
        decreases n - lead,
    {
        lead += 1;
    }
    let mut keep: usize = n;
    while keep > lead && digits[keep - 1] == '9'
        invariant
            lead <= keep <= n,
            n == digits.len(),
            forall|i: int| keep <= i < n ==> digits@[i] == '9',
        decreases keep,
    {
        keep -= 1;
    }
    let mut next: Vec<char> = Vec::new();
    if keep == lead {
        next.push('1');
        proof {
            lemma_successor_of_nines(digits@, lead as int);
        }
    } else {
        let mut i: usize = lead;
        while i < keep - 1
            invariant
                lead <= i <= keep - 1,
                keep <= n,
                n == digits.len(),
                next@ == digits@.subrange(lead as int, i as int),
            decreases keep - i,
        {
            next.push(digits[i]);
            i += 1;
        }
        let last = digits[keep - 1];
        proof {
            lemma_successor_of_digits(digits@, lead as int, keep as int);
        }
        next.push(((last as u8) + 1) as char);
    }
    let ghost head = next@;
    let mut j: usize = keep;
    while j < n
        invariant
            keep <= j <= n,
            next@ == head + repeated('0', (j - keep) as nat),
        decreases n - j,
    {
        next.push('0');
        j += 1;
    }
    next
}

} // verus!
