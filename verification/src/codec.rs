//! The wire format. A frame is a line of text: the message's tag, then its
//! numbers, each as a space and exactly twenty decimal digits, then, for the
//! messages that carry text, a space and the text up to the end of the frame.

use vstd::prelude::*;

verus! {

/// The number of digits of a number on the wire.
pub const DIGITS: usize = 20;

/// The number of characters of a number on the wire, with the space that
/// comes before it.
pub const FIELD: usize = 21;

/// Holds when `c` is a decimal digit.
pub open spec fn is_digit(c: char) -> bool {
    '0' <= c && c <= '9'
}

/// The digit that writes `d`, for `d` from 0 to 9.
pub open spec fn digit(d: int) -> char {
    if d == 0 {
        '0'
    } else if d == 1 {
        '1'
    } else if d == 2 {
        '2'
    } else if d == 3 {
        '3'
    } else if d == 4 {
        '4'
    } else if d == 5 {
        '5'
    } else if d == 6 {
        '6'
    } else if d == 7 {
        '7'
    } else if d == 8 {
        '8'
    } else {
        '9'
    }
}

/// The number that the digit `c` writes.
pub open spec fn digit_value(c: char) -> int {
    c as u32 - '0' as u32
}

/// `n` written with exactly `width` decimal digits, the higher ones cut off
/// where it has more.
pub open spec fn number(n: nat, width: nat) -> Seq<char>
    decreases width,
{
    if width == 0 {
        Seq::empty()
    } else {
        number(n / 10, (width - 1) as nat).push(digit((n % 10) as int))
    }
}

/// Holds when every character of `s` is a decimal digit.
pub open spec fn all_digits(s: Seq<char>) -> bool {
    forall|i: int| 0 <= i < s.len() ==> is_digit(#[trigger] s[i])
}

/// The number that the digits `s` write.
pub open spec fn value(s: Seq<char>) -> nat
    decreases s.len(),
{
    if s.len() == 0 {
        0
    } else {
        (value(s.drop_last()) * 10 + digit_value(s.last())) as nat
    }
}

/// Ten to the power `width`.
pub open spec fn pow10(width: nat) -> nat
    decreases width,
{
    if width == 0 {
        1
    } else {
        10 * pow10((width - 1) as nat)
    }
}

/// Every 64-bit number has at most twenty digits.
pub proof fn lemma_twenty_digits()
    ensures
        pow10(20) == 100_000_000_000_000_000_000,
        u64::MAX < pow10(20),
{
    reveal_with_fuel(pow10, 21);
}

/// A digit writes the number it stands for.
pub proof fn lemma_digit(d: int)
    requires
        0 <= d <= 9,
    ensures
        is_digit(digit(d)),
        digit_value(digit(d)) == d,
{
}

/// A digit is written by the number it stands for.
pub proof fn lemma_digit_value(c: char)
    requires
        is_digit(c),
    ensures
        0 <= digit_value(c) <= 9,
        digit(digit_value(c)) == c,
{
}

/// A number written with enough digits reads back as itself.
pub proof fn lemma_number_round_trip(n: nat, width: nat)
    requires
        n < pow10(width),
    ensures
        number(n, width).len() == width,
        all_digits(number(n, width)),
        value(number(n, width)) == n,
    decreases width,
{
    if width > 0 {
        let rest = number(n / 10, (width - 1) as nat);
        lemma_number_round_trip(n / 10, (width - 1) as nat);
        lemma_digit((n % 10) as int);
        assert(number(n, width).drop_last() =~= rest);
    }
}

/// Digits read as a number that writes the same digits back.
pub proof fn lemma_value_round_trip(s: Seq<char>)
    requires
        all_digits(s),
    ensures
        value(s) < pow10(s.len()),
        number(value(s), s.len()) == s,
    decreases s.len(),
{
    if s.len() > 0 {
        lemma_value_round_trip(s.drop_last());
        lemma_digit_value(s.last());
        let v = value(s.drop_last());
        let d = digit_value(s.last());
        assert((v * 10 + d) / 10 == v && (v * 10 + d) % 10 == d);
        assert(number(value(s), s.len()) =~= s);
    } else {
        assert(number(value(s), s.len()) =~= s);
    }
}

/// A number as it stands in a frame: a space, then its twenty digits.
pub open spec fn field(n: nat) -> Seq<char> {
    seq![' '] + number(n, 20)
}

/// The number that stands in `s` at the place `at`, if one stands there and
/// is at most `limit`.
pub open spec fn field_at(s: Seq<char>, at: int, limit: nat) -> Option<nat> {
    if 0 <= at && at + 21 <= s.len() && s[at] == ' ' && all_digits(s.subrange(at + 1, at + 21))
        && value(s.subrange(at + 1, at + 21)) <= limit {
        Some(value(s.subrange(at + 1, at + 21)))
    } else {
        None
    }
}

/// Holds when `s` begins with `tag`.
pub open spec fn starts_with(s: Seq<char>, tag: Seq<char>) -> bool {
    s.len() >= tag.len() && s.subrange(0, tag.len() as int) == tag
}

/// The characters of `s`, one by one.
pub fn to_chars(s: &str) -> (r: Vec<char>)
    ensures
        r@ == s@,
{
    broadcast use vstd::string::axiom_spec_iter;

    let mut out: Vec<char> = Vec::new();
    for c in it: s.chars()
        invariant
            it.seq() == s@,
            out@ == s@.take(it.index() as int),
    {
        out.push(c);
        assert(out@ =~= s@.take(it.index() + 1));
    }
    assert(s@.take(s@.len() as int) =~= s@);
    out
}

/// The text that writes the digit `d`.
pub fn digit_text(d: u8) -> (r: &'static str)
    requires
        d <= 9,
    ensures
        r@ == seq![digit(d as int)],
{
    proof {
        reveal_strlit("0");
        reveal_strlit("1");
        reveal_strlit("2");
        reveal_strlit("3");
        reveal_strlit("4");
        reveal_strlit("5");
        reveal_strlit("6");
        reveal_strlit("7");
        reveal_strlit("8");
        reveal_strlit("9");
    }
    let r = if d == 0 {
        "0"
    } else if d == 1 {
        "1"
    } else if d == 2 {
        "2"
    } else if d == 3 {
        "3"
    } else if d == 4 {
        "4"
    } else if d == 5 {
        "5"
    } else if d == 6 {
        "6"
    } else if d == 7 {
        "7"
    } else if d == 8 {
        "8"
    } else {
        "9"
    };
    assert(r@ =~= seq![digit(d as int)]);
    r
}

/// Appends to `out` the number `n` as it stands in a frame.
pub fn push_field(out: &mut String, n: u64)
    ensures
        final(out)@ == old(out)@ + field(n as nat),
{
    broadcast use vstd::array::group_array_axioms;

    let mut digits: [u8; 20] = [0; 20];
    let mut rest: u64 = n;
    let mut left: usize = 20;
    proof {
        lemma_number_len(n as nat, 20);
        assert(number(n as nat, 20).subrange(0, 20) =~= number(n as nat, 20));
    }
    while left > 0
        invariant
            left <= 20,
            number(n as nat, 20).len() == 20,
            number(n as nat, 20).subrange(0, left as int) == number(rest as nat, left as nat),
            forall|i: int|
                left <= i < 20 ==> (#[trigger] digits@[i]) <= 9 && digit(digits@[i] as int)
                    == number(n as nat, 20)[i],
        decreases left,
    {
        let ghost higher = number(rest as nat, left as nat);
        let ghost filled = digits@;
        left -= 1;
        digits[left] = (rest % 10) as u8;
        assert(digits@ == filled.update(left as int, (rest % 10) as u8));
        proof {
            assert(higher.len() == left + 1) by {
                lemma_number_len(rest as nat, (left + 1) as nat);
            }
            assert(number(n as nat, 20).subrange(0, left + 1)[left as int] == number(
                n as nat,
                20,
            )[left as int]);
            assert(higher[left as int] == digit((rest % 10) as int));
            assert(number(n as nat, 20).subrange(0, left as int) =~= higher.drop_last());
            assert(higher.drop_last() =~= number((rest / 10) as nat, left as nat)) by {
                lemma_number_len((rest / 10) as nat, left as nat);
            }
        }
        rest = rest / 10;
    }
    proof {
        reveal_strlit(" ");
        lemma_number_len(n as nat, 20);
    }
    out.append(" ");
    let mut i: usize = 0;
    while i < 20
        invariant
            i <= 20,
            number(n as nat, 20).len() == 20,
            forall|k: int|
                0 <= k < 20 ==> (#[trigger] digits@[k]) <= 9 && digit(digits@[k] as int) == number(
                    n as nat,
                    20,
                )[k],
            out@ == old(out)@ + seq![' '] + number(n as nat, 20).take(i as int),
        decreases 20 - i,
    {
        out.append(digit_text(digits[i]));
        i += 1;
        assert(out@ =~= old(out)@ + seq![' '] + number(n as nat, 20).take(i as int));
    }
    assert(out@ =~= old(out)@ + field(n as nat));
}

/// A number written with `width` digits has `width` characters.
pub proof fn lemma_number_len(n: nat, width: nat)
    ensures
        number(n, width).len() == width,
    decreases width,
{
    if width > 0 {
        lemma_number_len(n / 10, (width - 1) as nat);
    }
}

/// Reads the number that stands in `chars` at the place `at`, if one stands
/// there and is at most `limit`.
pub fn read_field(chars: &Vec<char>, at: usize, limit: u64) -> (r: Option<u64>)
    ensures
        match r {
            Some(n) => field_at(chars@, at as int, limit as nat) == Some(n as nat),
            None => field_at(chars@, at as int, limit as nat).is_none(),
        },
{
    if chars.len() < 21 || at > chars.len() - 21 {
        return None;
    }
    if chars[at] != ' ' {
        return None;
    }
    let ghost digits = chars@.subrange(at + 1, at + 21);
    let mut total: u128 = 0;
    let mut i: usize = 0;
    proof {
        lemma_twenty_digits();
        lemma_pow10_grows(0, 20);
    }
    while i < 20
        invariant
            i <= 20,
            at + 21 <= chars@.len() <= usize::MAX,
            digits == chars@.subrange(at + 1, at + 21),
            all_digits(digits.take(i as int)),
            total == value(digits.take(i as int)),
            total < pow10(i as nat),
            pow10(i as nat) <= pow10(20),
            pow10(20) == 100_000_000_000_000_000_000,
        decreases 20 - i,
    {
        let c = chars[at + 1 + i];
        proof {
            lemma_twenty_digits();
            assert(digits[i as int] == c);
            assert(digits.take(i + 1).drop_last() =~= digits.take(i as int));
            assert(digits.take(i + 1).last() == c);
            lemma_pow10_grows((i + 1) as nat, 20);
        }
        if !(c >= '0' && c <= '9') {
            assert(!all_digits(digits)) by {
                assert(!is_digit(digits[i as int]));
            }
            return None;
        }
        total = total * 10 + (c as u32 - '0' as u32) as u128;
        i += 1;
        proof {
            assert forall|k: int| 0 <= k < i implies is_digit(#[trigger] digits.take(i as int)[k]) by {
                if k < i - 1 {
                    assert(digits.take(i as int)[k] == digits.take(i - 1)[k]);
                }
            }
        }
    }
    assert(digits.take(20) =~= digits);
    if total > limit as u128 {
        None
    } else {
        Some(total as u64)
    }
}

/// Powers of ten grow with the exponent.
pub proof fn lemma_pow10_grows(a: nat, b: nat)
    requires
        a <= b,
    ensures
        pow10(a) <= pow10(b),
        pow10(a) > 0,
    decreases b,
{
    if a < b {
        lemma_pow10_grows(a, (b - 1) as nat);
    } else if a > 0 {
        lemma_pow10_grows((a - 1) as nat, (a - 1) as nat);
    }
}

/// Tells whether `chars` begins with `tag`.
pub fn has_tag(chars: &Vec<char>, tag: &str) -> (r: bool)
    ensures
        r == starts_with(chars@, tag@),
{
    let n = tag.unicode_len();
    if chars.len() < n {
        return false;
    }
    let mut i: usize = 0;
    while i < n
        invariant
            i <= n,
            n == tag@.len(),
            n <= chars@.len(),
            chars@.subrange(0, i as int) == tag@.take(i as int),
        decreases n - i,
    {
        if chars[i] != tag.get_char(i) {
            assert(chars@.subrange(0, n as int)[i as int] != tag@[i as int]);
            return false;
        }
        i += 1;
        assert(chars@.subrange(0, i as int) =~= tag@.take(i as int));
    }
    assert(tag@.take(n as int) =~= tag@);
    true
}

/// A run of numbers as they stand in a frame, one after the other.
pub open spec fn fields(ns: Seq<u64>) -> Seq<char>
    decreases ns.len(),
{
    if ns.len() == 0 {
        Seq::empty()
    } else {
        fields(ns.drop_last()) + field(ns.last() as nat)
    }
}

/// Holds when `count` numbers stand in `s` from the place `at` on.
pub open spec fn has_fields(s: Seq<char>, at: int, count: nat) -> bool {
    forall|i: int| 0 <= i < count ==> (#[trigger] field_at(s, at + 21 * i, u64::MAX as nat)).is_some()
}

/// The `count` numbers that stand in `s` from the place `at` on.
pub open spec fn numbers_at(s: Seq<char>, at: int, count: nat) -> Seq<u64> {
    Seq::new(count, |i: int| value(s.subrange(at + 21 * i + 1, at + 21 * i + 21)) as u64)
}

/// A run of `ns.len()` numbers takes 21 characters for each.
pub proof fn lemma_fields_len(ns: Seq<u64>)
    ensures
        fields(ns).len() == 21 * ns.len(),
    decreases ns.len(),
{
    if ns.len() > 0 {
        lemma_fields_len(ns.drop_last());
        lemma_number_len(ns.last() as nat, 20);
    }
}

/// One number, written between any two texts, is read back where it
/// stands.
pub proof fn lemma_field_read_back(before: Seq<char>, n: u64, after: Seq<char>)
    ensures
        field_at(before + field(n as nat) + after, before.len() as int, u64::MAX as nat) == Some(
            n as nat,
        ),
{
    let s = before + field(n as nat) + after;
    let at = before.len() as int;
    lemma_twenty_digits();
    lemma_number_round_trip(n as nat, 20);
    assert(s.subrange(at + 1, at + 21) =~= number(n as nat, 20));
    assert(s[at] == ' ');
}

/// Numbers written one after the other, between any two texts, are read
/// back as they were.
pub proof fn lemma_fields_read_back(before: Seq<char>, ns: Seq<u64>, after: Seq<char>)
    ensures
        (before + fields(ns) + after).len() == before.len() + 21 * ns.len() + after.len(),
        has_fields(before + fields(ns) + after, before.len() as int, ns.len()),
        numbers_at(before + fields(ns) + after, before.len() as int, ns.len()) == ns,
        (before + fields(ns) + after).subrange(
            (before.len() + 21 * ns.len()) as int,
            (before + fields(ns) + after).len() as int,
        ) == after,
        (before + fields(ns) + after).subrange(0, before.len() as int) == before,
    decreases ns.len(),
{
    let s = before + fields(ns) + after;
    let at = before.len() as int;
    lemma_fields_len(ns);
    assert(s.subrange(at + 21 * ns.len(), s.len() as int) =~= after);
    assert(s.subrange(0, at) =~= before);
    if ns.len() > 0 {
        let head = ns.drop_last();
        let last = ns.last();
        lemma_fields_len(head);
        lemma_number_len(last as nat, 20);
        let shorter = before + fields(head) + (field(last as nat) + after);
        assert(shorter =~= s);
        lemma_fields_read_back(before, head, field(last as nat) + after);
        let longer = (before + fields(head)) + field(last as nat) + after;
        assert(longer =~= s);
        lemma_field_read_back(before + fields(head), last, after);
        assert forall|i: int| 0 <= i < ns.len() implies (#[trigger] field_at(
            s,
            at + 21 * i,
            u64::MAX as nat,
        )).is_some() by {
            if i < head.len() {
                assert(field_at(shorter, at + 21 * i, u64::MAX as nat).is_some());
            }
        }
        assert forall|i: int| 0 <= i < ns.len() implies numbers_at(s, at, ns.len())[i]
            == ns[i] by {
            if i < head.len() {
                assert(numbers_at(shorter, at, head.len())[i] == head[i]);
            } else {
                assert(field_at(longer, at + 21 * i, u64::MAX as nat) == Some(last as nat));
            }
        }
        assert(numbers_at(s, at, ns.len()) =~= ns);
    } else {
        assert(numbers_at(s, at, ns.len()) =~= ns);
    }
}

/// Where numbers stand in a text, the text there is what writes them.
pub proof fn lemma_fields_canonical(s: Seq<char>, at: int, count: nat)
    requires
        0 <= at <= s.len(),
        has_fields(s, at, count),
    ensures
        at + 21 * count <= s.len(),
        s.subrange(at, at + 21 * count) == fields(numbers_at(s, at, count)),
    decreases count,
{
    let ns = numbers_at(s, at, count);
    if count == 0 {
        assert(s.subrange(at, at) =~= fields(ns));
    } else {
        let fewer = (count - 1) as nat;
        assert forall|i: int| 0 <= i < fewer implies (#[trigger] field_at(
            s,
            at + 21 * i,
            u64::MAX as nat,
        )).is_some() by {}
        lemma_fields_canonical(s, at, fewer);
        let place = at + 21 * fewer;
        assert(field_at(s, place, u64::MAX as nat).is_some());
        let digits = s.subrange(place + 1, place + 21);
        lemma_value_round_trip(digits);
        assert(ns.drop_last() =~= numbers_at(s, at, fewer));
        assert(ns.last() == value(digits) as u64);
        assert(field(ns.last() as nat) =~= s.subrange(place, place + 21));
        assert(s.subrange(at, at + 21 * count) =~= s.subrange(at, place) + s.subrange(
            place,
            place + 21,
        ));
    }
}

/// Appends to `out` the numbers `ns` as they stand in a frame.
pub fn push_fields(out: &mut String, ns: &Vec<u64>)
    ensures
        final(out)@ == old(out)@ + fields(ns@),
{
    let mut i: usize = 0;
    assert(ns@.take(0) =~= Seq::<u64>::empty());
    while i < ns.len()
        invariant
            i <= ns@.len(),
            out@ == old(out)@ + fields(ns@.take(i as int)),
        decreases ns@.len() - i,
    {
        push_field(out, ns[i]);
        i += 1;
        proof {
            assert(ns@.take(i as int).drop_last() =~= ns@.take(i - 1));
            assert(out@ =~= old(out)@ + fields(ns@.take(i as int)));
        }
    }
    assert(ns@.take(i as int) =~= ns@);
}

/// Reads the `count` numbers that stand in `chars` from the place `at` on,
/// if they do.
pub fn read_fields(chars: &Vec<char>, at: usize, count: usize) -> (r: Option<Vec<u64>>)
    requires
        at + 21 * count <= usize::MAX,
    ensures
        match r {
            Some(ns) => has_fields(chars@, at as int, count as nat) && ns@ == numbers_at(
                chars@,
                at as int,
                count as nat,
            ),
            None => !has_fields(chars@, at as int, count as nat),
        },
{
    let mut out: Vec<u64> = Vec::new();
    let mut i: usize = 0;
    while i < count
        invariant
            i <= count,
            at + 21 * count <= usize::MAX,
            out@.len() == i,
            forall|k: int|
                0 <= k < i ==> (#[trigger] field_at(chars@, at + 21 * k, u64::MAX as nat)).is_some(),
            forall|k: int|
                0 <= k < i ==> #[trigger] out@[k] == value(
                    chars@.subrange(at + 21 * k + 1, at + 21 * k + 21),
                ) as u64,
        decreases count - i,
    {
        match read_field(chars, at + 21 * i, u64::MAX) {
            Some(n) => {
                out.push(n);
            },
            None => {
                return None;
            },
        }
        i += 1;
    }
    assert(out@ =~= numbers_at(chars@, at as int, count as nat));
    Some(out)
}

/// Tells whether two texts are the same, character by character.
pub fn same_text(a: &str, b: &str) -> (r: bool)
    ensures
        r == (a@ == b@),
{
    let left = to_chars(a);
    let right = to_chars(b);
    let n = left.len();
    if n != right.len() {
        return false;
    }
    let mut i: usize = 0;
    while i < n
        invariant
            i <= n,
            n == left@.len(),
            n == right@.len(),
            left@ == a@,
            right@ == b@,
            left@.take(i as int) == right@.take(i as int),
        decreases n - i,
    {
        if left[i] != right[i] {
            return false;
        }
        i += 1;
        assert(left@.take(i as int) =~= right@.take(i as int)) by {
            assert forall|k: int| 0 <= k < i implies left@.take(i as int)[k] == right@.take(
                i as int,
            )[k] by {
                if k < i - 1 {
                    assert(left@.take(i - 1)[k] == right@.take(i - 1)[k]);
                }
            }
        }
    }
    assert(left@.take(n as int) =~= left@);
    assert(right@.take(n as int) =~= right@);
    true
}

} // verus!
