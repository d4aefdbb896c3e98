//! Text as a sequence of characters: fields between separators, and
//! decimal numbers.

use vstd::prelude::*;

verus! {

/// The fields of `s` between the occurrences of `sep`, in order: a text
/// with `n` separators has `n + 1` fields, and a field may be empty.
pub open spec fn split(s: Seq<char>, sep: char) -> Seq<Seq<char>>
    decreases s.len(),
{
    if s.len() == 0 {
        seq![Seq::<char>::empty()]
    } else {
        let before = split(s.drop_last(), sep);
        if s.last() == sep {
            before.push(Seq::<char>::empty())
        } else {
            before.drop_last().push(before.last().push(s.last()))
        }
    }
}

/// Whether `c` is a decimal digit.
pub open spec fn is_digit(c: char) -> bool {
    '0' as int <= c as int <= '9' as int
}

/// The decimal digit for `n`, which is below 10.
pub open spec fn digit(n: int) -> char {
    ('0' as int + n) as char
}

/// Whether `s` holds decimal digits only.
pub open spec fn all_digits(s: Seq<char>) -> bool {
    forall|i: int| 0 <= i < s.len() ==> is_digit(#[trigger] s[i])
}

/// The number that the decimal digits `s` write; 0 for no digits.
pub open spec fn number(s: Seq<char>) -> nat
    decreases s.len(),
{
    if s.len() == 0 {
        0
    } else {
        10 * number(s.drop_last()) + (s.last() as int - '0' as int) as nat
    }
}

/// `s` without the plus sign that may stand before a number.
pub open spec fn unsigned(s: Seq<char>) -> Seq<char> {
    if s.len() > 0 && s[0] == '+' {
        s.drop_first()
    } else {
        s
    }
}

/// The number that `s` writes: at least one decimal digit, and before them
/// at most a plus sign. Leading zeros are read. A number that 64 bits do
/// not hold is not read.
pub open spec fn parse_u64(s: Seq<char>) -> Option<u64> {
    let digits = unsigned(s);
    if digits.len() > 0 && all_digits(digits) && number(digits) <= u64::MAX {
        Some(number(digits) as u64)
    } else {
        None
    }
}

/// The decimal digits of `n`, without a leading zero but for 0 itself.
pub open spec fn decimal(n: nat) -> Seq<char>
    decreases n,
{
    if n < 10 {
        seq![digit(n as int)]
    } else {
        decimal(n / 10).push(digit((n % 10) as int))
    }
}

/// Whether `c` occurs in `s`.
pub open spec fn occurs(s: Seq<char>, c: char) -> bool {
    exists|i: int| 0 <= i < s.len() && s[i] == c
}

/// A text without the separator is its own single field.
pub proof fn lemma_split_one(s: Seq<char>, sep: char)
    requires
        !occurs(s, sep),
    ensures
        split(s, sep) == seq![s],
    decreases s.len(),
{
    if s.len() == 0 {
        assert(s =~= Seq::<char>::empty());
    } else {
        let front = s.drop_last();
        assert(s[s.len() - 1] != sep);
        assert forall|i: int| 0 <= i < front.len() implies front[i] != sep by {
            assert(front[i] == s[i]);
        }
        lemma_split_one(front, sep);
        assert(seq![front].drop_last().push(front.push(s.last())) =~= seq![s]) by {
            assert(front.push(s.last()) =~= s);
        }
    }
}

/// The fields of two texts joined by a separator are the fields of the
/// first, then the fields of the second.
pub proof fn lemma_split_join(a: Seq<char>, b: Seq<char>, sep: char)
    ensures
        split(a + seq![sep] + b, sep) == split(a, sep) + split(b, sep),
        split(a, sep).len() >= 1,
    decreases b.len(),
{
    let whole = a + seq![sep] + b;
    lemma_split_nonempty(a, sep);
    if b.len() == 0 {
        assert(whole.drop_last() =~= a);
        assert(split(a, sep).push(Seq::<char>::empty()) =~= split(a, sep) + split(b, sep));
    } else {
        let front = b.drop_last();
        assert(whole.drop_last() =~= a + seq![sep] + front);
        assert(whole.last() == b.last());
        lemma_split_join(a, front, sep);
        lemma_split_nonempty(front, sep);
        let left = split(a, sep);
        let right = split(front, sep);
        if b.last() == sep {
            assert((left + right).push(Seq::<char>::empty()) =~= left + right.push(
                Seq::<char>::empty(),
            ));
        } else {
            assert((left + right).drop_last().push((left + right).last().push(b.last())) =~= left
                + right.drop_last().push(right.last().push(b.last())));
        }
    }
}

/// Every text has at least one field.
proof fn lemma_split_nonempty(s: Seq<char>, sep: char)
    ensures
        split(s, sep).len() >= 1,
    decreases s.len(),
{
    if s.len() > 0 {
        lemma_split_nonempty(s.drop_last(), sep);
    }
}

/// The digits of a number are digits, begin with no sign, and write that
/// number.
pub proof fn lemma_decimal(n: nat)
    ensures
        decimal(n).len() >= 1,
        all_digits(decimal(n)),
        number(decimal(n)) == n,
        unsigned(decimal(n)) == decimal(n),
        !occurs(decimal(n), ' '),
    decreases n,
{
    if n < 10 {
        let s = decimal(n);
        assert(s.drop_last() =~= Seq::<char>::empty());
        assert(number(s.drop_last()) == 0);
    } else {
        lemma_decimal(n / 10);
        let front = decimal(n / 10);
        let s = decimal(n);
        assert(s.drop_last() =~= front);
        assert(s[0] == front[0]);
        assert forall|i: int| 0 <= i < s.len() implies is_digit(#[trigger] s[i]) by {
            if i < front.len() {
                assert(s[i] == front[i]);
            }
        }
        assert forall|i: int| 0 <= i < s.len() implies s[i] != ' ' by {
            assert(is_digit(s[i]));
        }
    }
    assert(is_digit(decimal(n)[0]));
}

/// A number is read back from its digits.
pub proof fn lemma_parse_decimal(n: u64)
    ensures
        parse_u64(decimal(n as nat)) == Some(n),
{
    lemma_decimal(n as nat);
}

/// The number that a prefix of the digits writes is no larger than the
/// number that all of them write.
proof fn lemma_number_grows(s: Seq<char>, k: int)
    requires
        0 <= k <= s.len(),
    ensures
        number(s.take(k)) <= number(s),
    decreases s.len() - k,
{
    if k < s.len() {
        lemma_number_grows(s, k + 1);
        assert(s.take(k + 1).drop_last() =~= s.take(k));
    } else {
        assert(s.take(k) =~= s);
    }
}

/// The characters of a string.
pub fn chars_of(s: &str) -> (v: Vec<char>)
    ensures
        v@ == s@,
{
    let mut v: Vec<char> = Vec::new();
    for c in it: s.chars()
        invariant
            v@ == s@.take(it.index() as int),
            it.seq() == s@,
    {
        v.push(c);
    }
    v
}

/// Splits at each occurrence of `sep`.
pub fn split_at_each(text: &Vec<char>, sep: char) -> (fields: Vec<Vec<char>>)
    ensures
        fields.len() == split(text@, sep).len(),
        forall|j: int| 0 <= j < fields.len() ==> (#[trigger] fields[j])@ == split(text@, sep)[j],
{
    let mut fields: Vec<Vec<char>> = Vec::new();
    let mut field: Vec<char> = Vec::new();
    let mut i: usize = 0;
    proof {
        assert(text@.take(0) =~= Seq::<char>::empty());
    }
    while i < text.len()
        invariant
            i <= text.len(),
            split(text@.take(i as int), sep).len() == fields.len() + 1,
            forall|j: int|
                0 <= j < fields.len() ==> (#[trigger] fields[j])@ == split(
                    text@.take(i as int),
                    sep,
                )[j],
            field@ == split(text@.take(i as int), sep).last(),
        decreases text.len() - i,
    {
        let c = text[i];
        proof {
            assert(text@.take(i + 1).drop_last() =~= text@.take(i as int));
            assert(text@.take(i + 1).last() == c);
        }
        if c == sep {
            fields.push(field);
            field = Vec::new();
        } else {
            field.push(c);
        }
        i += 1;
    }
    proof {
        assert(text@.take(i as int) =~= text@);
    }
    fields.push(field);
    fields
}

/// Reads a number; see `parse_u64`.
pub fn read_u64(s: &Vec<char>) -> (r: Option<u64>)
    ensures
        r == parse_u64(s@),
{
    let start: usize = if s.len() > 0 && s[0] == '+' {
        1
    } else {
        0
    };
    let ghost digits = unsigned(s@);
    if start == s.len() {
        return None;
    }
    let mut value: u64 = 0;
    let mut i: usize = start;
    proof {
        assert(digits.take(0) =~= Seq::<char>::empty());
    }
    while i < s.len()
        invariant
            start <= i <= s.len(),
            digits == unsigned(s@),
            digits.len() == s.len() - start,
            forall|j: int| 0 <= j < digits.len() ==> digits[j] == s[j + start],
            all_digits(digits.take(i - start)),
            value == number(digits.take(i - start)),
        decreases s.len() - i,
    {
        let c = s[i];
        let ghost k = i - start;
        proof {
            assert(digits.take(k + 1).drop_last() =~= digits.take(k));
            assert(digits.take(k + 1).last() == c);
        }
        if !('0' <= c && c <= '9') {
            proof {
                assert(!is_digit(digits[k]));
            }
            return None;
        }
        let d: u64 = c as u64 - 48;
        if value > (u64::MAX - d) / 10 {
            proof {
                assert(number(digits.take(k + 1)) > u64::MAX);
                lemma_number_grows(digits, k + 1);
            }
            return None;
        }
        value = value * 10 + d;
        proof {
            assert forall|j: int| 0 <= j < k + 1 implies is_digit(
                #[trigger] digits.take(k + 1)[j],
            ) by {
                if j < k {
                    assert(digits.take(k + 1)[j] == digits.take(k)[j]);
                }
            }
        }
        i += 1;
    }
    proof {
        assert(digits.take(i - start) =~= digits);
    }
    Some(value)
}

/// The decimal digit for `n`.
pub fn digit_of(n: u8) -> (c: char)
    requires
        n < 10,
    ensures
        c == digit(n as int),
{
    (48 + n) as char
}

/// `String::push` of std: the string is afterwards what it was, with `ch`
/// as one more character at its end.
pub assume_specification[ String::push ](s: &mut String, ch: char)
    ensures
        final(s)@ == old(s)@.push(ch),
;

/// The digits `low`, which stand lowest first, with the highest first.
spec fn highest_first(low: Seq<char>) -> Seq<char> {
    Seq::new(low.len(), |j: int| low[low.len() - 1 - j])
}

/// Appends the decimal digits of `n`.
pub fn push_decimal(out: &mut String, n: u64)
    ensures
        final(out)@ == old(out)@ + decimal(n as nat),
{
    let ghost before = out@;
    let mut low: Vec<char> = Vec::new();
    let mut rest: u64 = n;
    proof {
        assert(decimal(n as nat) =~= decimal(rest as nat) + highest_first(low@));
    }
    while rest >= 10
        invariant
            decimal(n as nat) == decimal(rest as nat) + highest_first(low@),
        decreases rest,
    {
        let ghost lower = low@;
        let ghost whole = rest as nat;
        low.push(digit_of((rest % 10) as u8));
        rest = rest / 10;
        proof {
            assert(decimal(whole) == decimal(whole / 10).push(digit((whole % 10) as int)));
            assert(decimal(whole) + highest_first(lower) =~= decimal(rest as nat) + highest_first(
                low@,
            ));
        }
    }
    out.push(digit_of(rest as u8));
    let mut left: usize = low.len();
    proof {
        assert(out@ =~= before + decimal(rest as nat) + highest_first(low@).take(0));
    }
    while left > 0
        invariant
            left <= low.len(),
            out@ == before + decimal(rest as nat) + highest_first(low@).take(low.len() - left),
        decreases left,
    {
        left -= 1;
        out.push(low[left]);
        proof {
            let high = highest_first(low@);
            let k = low.len() - left;
            assert(high.take(k) =~= high.take(k - 1).push(low@[left as int]));
            assert(out@ =~= before + decimal(rest as nat) + high.take(k));
        }
    }
    proof {
        assert(highest_first(low@).take(low.len() as int) =~= highest_first(low@));
        assert(out@ =~= before + decimal(n as nat));
    }
}

} // verus!
