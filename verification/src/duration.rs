//! Track lengths written as colon-separated decimal fields, such as `1:02:03`.
//!
//! The rightmost field counts seconds, the one before it minutes, the next
//! hours, and so on: the field at position `i` from the right weighs `60^i`.

use vstd::prelude::*;
use vstd::arithmetic::power::{lemma_pow0, lemma_pow_positive, pow};
use crate::text::chars_of;

verus! {

/// The character that separates the fields of a length.
pub const FIELD_SEPARATOR: char = ':';

/// The pieces of `s` between occurrences of `sep`, in order. A text without
/// `sep` is one piece; `n` occurrences give `n + 1` pieces, empty ones included.
pub open spec fn split_on(s: Seq<char>, sep: char) -> Seq<Seq<char>>
    decreases s.len(),
{
    if s.len() == 0 {
        seq![Seq::empty()]
    } else {
        let before = split_on(s.drop_last(), sep);
        if s.last() == sep {
            before.push(Seq::empty())
        } else {
            before.update(before.len() - 1, before.last().push(s.last()))
        }
    }
}

/// The pieces put together again, with `sep` between each two.
pub open spec fn join(pieces: Seq<Seq<char>>, sep: char) -> Seq<char>
    decreases pieces.len(),
{
    if pieces.len() == 0 {
        Seq::empty()
    } else if pieces.len() == 1 {
        pieces[0]
    } else {
        join(pieces.drop_last(), sep).push(sep) + pieces.last()
    }
}

/// Cutting a text at a separator loses nothing and leaves no separator
/// behind: there is at least one piece, no piece holds the separator, and the
/// pieces joined by the separator are the text.
pub proof fn lemma_split_on(s: Seq<char>, sep: char)
    ensures
        split_on(s, sep).len() >= 1,
        forall|i: int, j: int|
            0 <= i < split_on(s, sep).len() && 0 <= j < split_on(s, sep)[i].len()
                ==> #[trigger] split_on(s, sep)[i][j] != sep,
        join(split_on(s, sep), sep) == s,
    decreases s.len(),
{
    let pieces = split_on(s, sep);
    if s.len() == 0 {
        assert(pieces == seq![Seq::<char>::empty()]);
        assert(join(pieces, sep) == s);
    } else {
        let front = s.drop_last();
        let before = split_on(front, sep);
        lemma_split_on(front, sep);
        if s.last() == sep {
            assert(pieces.drop_last() == before);
            assert(join(pieces, sep) == join(before, sep).push(sep) + Seq::<char>::empty());
            assert(join(pieces, sep) == s);
        } else {
            let grown = before.last().push(s.last());
            assert(pieces.last() == grown);
            if before.len() == 1 {
                assert(join(before, sep) == before[0]);
                assert(join(pieces, sep) == grown);
                assert(join(pieces, sep) == s);
            } else {
                assert(pieces.drop_last() == before.drop_last());
                assert(join(pieces, sep) == join(before.drop_last(), sep).push(sep) + grown);
                assert(join(before, sep) == join(before.drop_last(), sep).push(sep)
                    + before.last());
                assert(join(pieces, sep) == join(before, sep).push(s.last()));
                assert(join(pieces, sep) == s);
            }
            assert forall|i: int, j: int|
                0 <= i < pieces.len() && 0 <= j < pieces[i].len() implies #[trigger] pieces[i][j]
                != sep by {
                if i < pieces.len() - 1 {
                    assert(pieces[i] == before[i]);
                } else if j < before.last().len() {
                    assert(pieces[i][j] == before.last()[j]);
                }
            }
        }
    }
}

/// Whether `c` is one of the ten decimal digits.
pub open spec fn is_digit(c: char) -> bool {
    '0' <= c <= '9'
}

/// The number that the decimal digits `digits` write; 0 for no digits.
pub open spec fn digits_value(digits: Seq<char>) -> nat
    decreases digits.len(),
{
    if digits.len() == 0 {
        0
    } else {
        digits_value(digits.drop_last()) * 10 + (digits.last() as nat - '0' as nat) as nat
    }
}

/// The digits of a field: the field itself, without one leading `+` if it has one.
pub open spec fn field_digits(field: Seq<char>) -> Seq<char> {
    if field.len() > 0 && field[0] == '+' {
        field.drop_first()
    } else {
        field
    }
}

/// The number that a field writes: one or more decimal digits, which one `+`
/// may precede. `None` for anything else.
pub open spec fn field_value(field: Seq<char>) -> Option<nat> {
    let digits = field_digits(field);
    if digits.len() > 0 && (forall|i: int| 0 <= i < digits.len() ==> is_digit(#[trigger] digits[i])) {
        Some(digits_value(digits))
    } else {
        None
    }
}

/// The seconds that the values of the fields add up to, each weighted by its
/// position from the right.
pub open spec fn place_sum(values: Seq<nat>) -> nat
    decreases values.len(),
{
    if values.len() == 0 {
        0
    } else {
        values[0] * (pow(60, (values.len() - 1) as nat) as nat) + place_sum(values.drop_first())
    }
}

/// The values of `fields`, if every one of them writes a number.
pub open spec fn field_values(fields: Seq<Seq<char>>) -> Option<Seq<nat>> {
    if forall|i: int| 0 <= i < fields.len() ==> (#[trigger] field_value(fields[i])) is Some {
        Some(Seq::new(fields.len(), |i: int| field_value(fields[i])->0))
    } else {
        None
    }
}

/// The length in seconds that `text` writes, or `None` where a field of it is
/// not a number.
pub open spec fn duration_seconds(text: Seq<char>) -> Option<nat> {
    match field_values(split_on(text, FIELD_SEPARATOR)) {
        Some(values) => Some(place_sum(values)),
        None => None,
    }
}

/// `value` as a machine integer, where it fits.
pub open spec fn bounded(value: Option<nat>) -> Option<u64> {
    match value {
        Some(v) if v <= u64::MAX => Some(v as u64),
        _ => None,
    }
}

/// A longer run of digits never writes a smaller number than its prefix.
proof fn lemma_digits_value_prefix(digits: Seq<char>, k: int)
    requires
        0 <= k <= digits.len(),
    ensures
        digits_value(digits.take(k)) <= digits_value(digits),
    decreases digits.len() - k,
{
    if k == digits.len() {
        assert(digits.take(k) == digits);
    } else {
        lemma_digits_value_prefix(digits, k + 1);
        assert(digits.take(k + 1).drop_last() == digits.take(k));
    }
}

/// Appending a field on the right multiplies what came before by sixty.
pub proof fn lemma_place_sum_push(values: Seq<nat>, v: nat)
    ensures
        place_sum(values.push(v)) == place_sum(values) * 60 + v,
    decreases values.len(),
{
    let all = values.push(v);
    assert(all.len() == values.len() + 1);
    if values.len() == 0 {
        assert(all.drop_first() == Seq::<nat>::empty());
        lemma_pow0(60);
        assert(place_sum(all.drop_first()) == 0);
        assert(place_sum(all) == all[0] * (pow(60, 0) as nat) + place_sum(all.drop_first()));
    } else {
        let n = values.len();
        let rest = values.drop_first();
        lemma_place_sum_push(rest, v);
        assert(all.drop_first() == rest.push(v));
        assert(all[0] == values[0]);
        let high = pow(60, (n - 1) as nat);
        assert(pow(60, n as nat) == 60 * high) by {
            reveal(pow);
        }
        lemma_pow_positive(60, (n - 1) as nat);
        assert(place_sum(all) == values[0] * (pow(60, n as nat) as nat) + place_sum(rest.push(v)));
        assert(place_sum(values) == values[0] * (high as nat) + place_sum(rest));
        assert(values[0] * (60 * high) == (values[0] * high) * 60) by (nonlinear_arith);
        assert((values[0] * high + place_sum(rest)) * 60 == (values[0] * high) * 60 + place_sum(
            rest,
        ) * 60) by (nonlinear_arith);
    }
}

/// Read as a clock: minutes and seconds give `60 m + s`, hours, minutes and
/// seconds give `3600 h + 60 m + s`.
pub proof fn lemma_clock_reading(h: nat, m: nat, s: nat)
    ensures
        place_sum(seq![s]) == s,
        place_sum(seq![m, s]) == 60 * m + s,
        place_sum(seq![h, m, s]) == 3600 * h + 60 * m + s,
{
    let none = Seq::<nat>::empty();
    assert(place_sum(none) == 0);
    lemma_place_sum_push(none, s);
    assert(none.push(s) == seq![s]);
    lemma_place_sum_push(none, m);
    lemma_place_sum_push(none.push(m), s);
    assert(none.push(m).push(s) == seq![m, s]);
    lemma_place_sum_push(none, h);
    lemma_place_sum_push(none.push(h), m);
    lemma_place_sum_push(none.push(h).push(m), s);
    assert(none.push(h).push(m).push(s) == seq![h, m, s]);
}

/// The seconds of a run of fields, computed field by field from the left.
spec fn running_total(fields: Seq<Seq<char>>) -> Option<nat>
    decreases fields.len(),
{
    if fields.len() == 0 {
        Some(0)
    } else {
        match (running_total(fields.drop_last()), field_value(fields.last())) {
            (Some(t), Some(v)) => Some(t * 60 + v),
            _ => None,
        }
    }
}

/// Computing field by field from the left gives the weighted sum.
proof fn lemma_running_total(fields: Seq<Seq<char>>)
    ensures
        running_total(fields) == match field_values(fields) {
            Some(values) => Some(place_sum(values)),
            None => None,
        },
    decreases fields.len(),
{
    if fields.len() == 0 {
        assert(field_values(fields) == Some(Seq::<nat>::empty()));
    } else {
        let front = fields.drop_last();
        lemma_running_total(front);
        match (field_values(front), field_value(fields.last())) {
            (Some(values), Some(v)) => {
                assert forall|i: int| 0 <= i < fields.len() implies (#[trigger] field_value(
                    fields[i],
                )) is Some by {
                    if i < front.len() {
                        assert(fields[i] == front[i]);
                    }
                }
                assert(field_values(fields)->0 == values.push(v));
                lemma_place_sum_push(values, v);
            },
            (None, _) => {
                let i = choose|i: int| 0 <= i < front.len() && !((#[trigger] field_value(front[i])) is Some);
                assert(fields[i] == front[i]);
            },
            (_, None) => {
                assert(fields[fields.len() - 1] == fields.last());
            },
        }
    }
}

/// The number that the field `chars[from..to]` writes, where it writes one
/// that fits.
fn parse_field(chars: &Vec<char>, from: usize, to: usize) -> (value: Option<u64>)
    requires
        from <= to <= chars.len(),
    ensures
        value == bounded(field_value(chars@.subrange(from as int, to as int))),
{
    let ghost field = chars@.subrange(from as int, to as int);
    let first: usize = if from < to && chars[from] == '+' {
        from + 1
    } else {
        from
    };
    let ghost digits = field_digits(field);
    assert(digits == chars@.subrange(first as int, to as int)) by {
        assert(from < to ==> field[0] == chars@[from as int]);
    }
    if first == to {
        return None;
    }
    let mut total: u64 = 0;
    let mut i: usize = first;
    while i < to
        invariant
            first <= i <= to <= chars.len(),
            from <= first,
            digits == chars@.subrange(first as int, to as int),
            digits == field_digits(chars@.subrange(from as int, to as int)),
            forall|j: int| 0 <= j < i - first ==> is_digit(#[trigger] digits[j]),
            total == digits_value(digits.take(i - first)),
        decreases to - i,
    {
        let c = chars[i];
        assert(c == digits[i - first]);
        if c < '0' || c > '9' {
            assert(!is_digit(digits[i - first]));
            return None;
        }
        let d: u64 = (c as u32 - '0' as u32) as u64;
        proof {
            assert(digits.take(i - first + 1).drop_last() == digits.take(i - first));
            assert(digits_value(digits.take(i - first + 1)) == total * 10 + d);
            lemma_digits_value_prefix(digits, i - first + 1);
        }
        if total > (u64::MAX - d) / 10 {
            return None;
        }
        total = total * 10 + d;
        i = i + 1;
    }
    assert(digits.take(to - first) == digits);
    Some(total)
}

/// Reads a length such as `3:45` or `1:02:03` as a number of seconds.
///
/// The text is cut at every `:`. Each field must be a decimal number, which a
/// single `+` may precede. The result is the sum of the fields, the field at
/// position `i` from the right multiplied by `60^i`. `None` comes back where a
/// field is not such a number or the sum does not fit in 64 bits.
pub fn parse_duration(text: &str) -> (seconds: Option<u64>)
    ensures
        seconds == bounded(duration_seconds(text@)),
{
    let chars = chars_of(text);
    let n: usize = chars.len();
    let mut total: Option<u64> = Some(0);
    let mut start: usize = 0;
    let mut i: usize = 0;
    let ghost mut done: Seq<Seq<char>> = Seq::empty();
    proof {
        assert(chars@.take(0).len() == 0);
        assert(chars@.subrange(0, 0) == Seq::<char>::empty());
        assert(seq![Seq::<char>::empty()] == done.push(Seq::<char>::empty()));
    }
    while i < n
        invariant
            n == chars.len(),
            start <= i <= n,
            split_on(chars@.take(i as int), FIELD_SEPARATOR) == done.push(
                chars@.subrange(start as int, i as int),
            ),
            total == bounded(running_total(done)),
        decreases n - i,
    {
        if chars[i] == FIELD_SEPARATOR {
            let value = parse_field(&chars, start, i);
            let ghost field = chars@.subrange(start as int, i as int);
            total = step(total, value, Ghost(done), Ghost(field));
            proof {
                assert(chars@.take(i + 1).drop_last() == chars@.take(i as int));
                assert(chars@.subrange(i + 1, i + 1) == Seq::<char>::empty());
                done = done.push(field);
            }
            start = i + 1;
        } else {
            proof {
                assert(chars@.take(i + 1).drop_last() == chars@.take(i as int));
                assert(chars@.subrange(start as int, i as int).push(chars@[i as int])
                    == chars@.subrange(start as int, i + 1));
                let before = done.push(chars@.subrange(start as int, i as int));
                assert(before.update(before.len() - 1, chars@.subrange(start as int, i + 1))
                    == done.push(chars@.subrange(start as int, i + 1)));
            }
        }
        i = i + 1;
    }
    let value = parse_field(&chars, start, n);
    let ghost field = chars@.subrange(start as int, n as int);
    proof {
        assert(chars@.take(n as int) == chars@);
        assert(done.push(field).drop_last() == done);
        lemma_running_total(done.push(field));
    }
    step(total, value, Ghost(done), Ghost(field))
}

/// Takes one more field into a running total.
fn step(total: Option<u64>, value: Option<u64>, Ghost(done): Ghost<Seq<Seq<char>>>, Ghost(
    field,
): Ghost<Seq<char>>) -> (next: Option<u64>)
    requires
        total == bounded(running_total(done)),
        value == bounded(field_value(field)),
    ensures
        next == bounded(running_total(done.push(field))),
{
    let ghost longer = done.push(field);
    proof {
        assert(longer.drop_last() == done);
        assert(longer.last() == field);
    }
    match (total, value) {
        (Some(t), Some(v)) => {
            if t > (u64::MAX - v) / 60 {
                None
            } else {
                Some(t * 60 + v)
            }
        },
        _ => None,
    }
}

} // verus!
