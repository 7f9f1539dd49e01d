//! The names of epoch documents: the epoch in decimal, then `.json`.

use vstd::prelude::*;
use vstd::string::*;

verus! {

/// The ending of every epoch document's name.
pub open spec fn extension() -> Seq<char> {
    seq!['.', 'j', 's', 'o', 'n']
}

/// An ASCII decimal digit.
pub open spec fn is_digit(c: char) -> bool {
    '0' <= c <= '9'
}

/// The number a decimal digit stands for.
pub open spec fn digit_value(c: char) -> nat {
    (c as int - '0' as int) as nat
}

/// The decimal digit that stands for a number below ten.
pub open spec fn digit_char(d: nat) -> char {
    (d + '0' as int) as char
}

/// Every character is a decimal digit.
pub open spec fn all_digits(s: Seq<char>) -> bool {
    forall|i: int| 0 <= i < s.len() ==> is_digit(#[trigger] s[i])
}

/// The number that a run of decimal digits stands for.
pub open spec fn decimal_value(s: Seq<char>) -> nat
    decreases s.len(),
{
    if s.len() == 0 {
        0
    } else {
        decimal_value(s.drop_last()) * 10 + digit_value(s.last())
    }
}

/// The decimal digits of a number, without leading zeros.
pub open spec fn decimal_digits(n: nat) -> Seq<char>
    decreases n,
{
    if n < 10 {
        seq![digit_char(n)]
    } else {
        decimal_digits(n / 10).push(digit_char(n % 10))
    }
}

/// The name of the document that holds epoch `epoch`.
pub open spec fn epoch_name(epoch: usize) -> Seq<char> {
    decimal_digits(epoch as nat) + extension()
}

/// A stem without the plus sign it may start with.
pub open spec fn unsigned_part(stem: Seq<char>) -> Seq<char> {
    if stem.len() > 0 && stem[0] == '+' {
        stem.skip(1)
    } else {
        stem
    }
}

/// The number a stem stands for: an optional plus sign, then at least one
/// decimal digit, with a value that a `usize` can hold.
pub open spec fn stem_number(stem: Seq<char>) -> Option<usize> {
    let digits = unsigned_part(stem);
    if digits.len() > 0 && all_digits(digits) && decimal_value(digits) <= usize::MAX {
        Some(decimal_value(digits) as usize)
    } else {
        None
    }
}

/// The epoch that a file name stands for, if it names an epoch document: a
/// stem that is a number, then `.json`.
pub open spec fn epoch_of_name(name: Seq<char>) -> Option<usize> {
    if name.len() >= 5 && name.skip(name.len() - 5) == extension() {
        stem_number(name.take(name.len() - 5))
    } else {
        None
    }
}

/// A run of digits stands for at least as much as any of its prefixes.
pub proof fn lemma_decimal_value_grows(s: Seq<char>, k: int)
    requires
        0 <= k <= s.len(),
    ensures
        decimal_value(s.take(k)) <= decimal_value(s),
    decreases s.len() - k,
{
    if k == s.len() {
        assert(s.take(k) =~= s);
    } else {
        lemma_decimal_value_grows(s, k + 1);
        assert(s.take(k + 1).drop_last() =~= s.take(k));
    }
}

/// The decimal digits of a number are digits, at least one of them, and
/// stand for that number.
pub proof fn lemma_decimal_digits_value(n: nat)
    ensures
        decimal_digits(n).len() >= 1,
        all_digits(decimal_digits(n)),
        decimal_value(decimal_digits(n)) == n,
    decreases n,
{
    if n < 10 {
        let s = decimal_digits(n);
        assert(s.drop_last() =~= Seq::<char>::empty());
        assert(decimal_value(s.drop_last()) == 0);
    } else {
        lemma_decimal_digits_value(n / 10);
        let front = decimal_digits(n / 10);
        let s = front.push(digit_char(n % 10));
        assert(s.drop_last() =~= front);
        assert forall|i: int| 0 <= i < s.len() implies is_digit(#[trigger] s[i]) by {
            if i < front.len() {
                assert(s[i] == front[i]);
            }
        }
    }
}

/// The name under which an epoch is stored is read back as that epoch.
pub proof fn lemma_epoch_name_round_trip(epoch: usize)
    ensures
        epoch_of_name(epoch_name(epoch)) == Some(epoch),
{
    let digits = decimal_digits(epoch as nat);
    let name = epoch_name(epoch);
    lemma_decimal_digits_value(epoch as nat);
    assert(name.skip(name.len() - 5) =~= extension());
    assert(name.take(name.len() - 5) =~= digits);
    assert(is_digit(digits[0]));
    assert(unsigned_part(digits) == digits);
}

/// The characters of a string.
pub fn characters(s: &str) -> (chars: Vec<char>)
    ensures
        chars@ == s@,
{
    let n = s.unicode_len();
    let mut chars: Vec<char> = Vec::new();
    let mut i: usize = 0;
    while i < n
        invariant
            i <= n,
            n == s@.len(),
            chars@ == s@.take(i as int),
        decreases n - i,
    {
        chars.push(s.get_char(i));
        assert(chars@ =~= s@.take(i as int + 1));
        i += 1;
    }
    assert(s@.take(n as int) =~= s@);
    chars
}

/// Reads the number that the characters before position `end` stand for.
pub fn parse_stem(chars: &Vec<char>, end: usize) -> (number: Option<usize>)
    requires
        end <= chars@.len(),
    ensures
        number == stem_number(chars@.take(end as int)),
{
    let ghost stem = chars@.take(end as int);
    let start: usize = if end > 0 && chars[0] == '+' {
        1
    } else {
        0
    };
    let ghost digits = unsigned_part(stem);
    assert(digits =~= chars@.subrange(start as int, end as int));
    if start == end {
        return None;
    }
    let mut value: usize = 0;
    let mut i: usize = start;
    while i < end
        invariant
            start <= i <= end,
            end <= chars@.len(),
            digits == chars@.subrange(start as int, end as int),
            digits == unsigned_part(chars@.take(end as int)),
            all_digits(digits.take(i - start)),
            value == decimal_value(digits.take(i - start)),
        decreases end - i,
    {
        let c = chars[i];
        assert(c == digits[i - start]);
        if !('0' <= c && c <= '9') {
            assert(!is_digit(digits[i - start]));
            return None;
        }
        let d: usize = (c as u32 - '0' as u32) as usize;
        proof {
            lemma_decimal_value_grows(digits, i - start + 1);
            assert(digits.take(i - start + 1).drop_last() =~= digits.take(i - start));
        }
        if value > (usize::MAX - d) / 10 {
            assert(decimal_value(digits.take(i - start + 1)) > usize::MAX);
            return None;
        }
        value = value * 10 + d;
        assert forall|j: int| 0 <= j < i - start + 1 implies is_digit(
            #[trigger] digits.take(i - start + 1)[j],
        ) by {
            if j < i - start {
                assert(digits.take(i - start)[j] == digits[j]);
            }
        }
        i += 1;
    }
    assert(digits.take(end - start) =~= digits);
    Some(value)
}

/// Reads the epoch out of a file name; `None` unless the name is a number
/// followed by `.json`.
pub fn epoch_of_file_name(name: &str) -> (epoch: Option<usize>)
    ensures
        epoch == epoch_of_name(name@),
{
    let chars = characters(name);
    let n = chars.len();
    if n < 5 {
        return None;
    }
    let at = n - 5;
    if chars[at] == '.' && chars[at + 1] == 'j' && chars[at + 2] == 's' && chars[at + 3] == 'o'
        && chars[at + 4] == 'n' {
        assert(chars@.skip(at as int) =~= extension());
        parse_stem(&chars, at)
    } else {
        assert(chars@.skip(at as int) != extension()) by {
            let tail = chars@.skip(at as int);
            assert(tail[0] == chars@[at as int]);
            assert(tail[1] == chars@[at + 1]);
            assert(tail[2] == chars@[at + 2]);
            assert(tail[3] == chars@[at + 3]);
            assert(tail[4] == chars@[at + 4]);
        }
        None
    }
}

/// The one-character string of a digit.
fn digit_str(d: usize) -> (s: &'static str)
    requires
        d < 10,
    ensures
        s@ == seq![digit_char(d as nat)],
{
    proof {
        reveal_strlit("0");
        reveal_strlit("1");
        reveal_strlit("2");
        reveal_strlit("3");
        reveal_strlit("4");
        reveal_strlit("5");
        reveal_strlit("6");
        reveal_strlit("7");
        reveal_strlit("8");
        reveal_strlit("9");
    }
    let s = match d {
        0 => "0",
        1 => "1",
        2 => "2",
        3 => "3",
        4 => "4",
        5 => "5",
        6 => "6",
        7 => "7",
        8 => "8",
        _ => "9",
    };
    assert(s@ =~= seq![digit_char(d as nat)]);
    s
}

/// Appends the decimal digits of `n` to `out`.
fn push_decimal(out: &mut String, n: usize)
    ensures
        final(out)@ == old(out)@ + decimal_digits(n as nat),
    decreases n,
{
    if n >= 10 {
        push_decimal(out, n / 10);
    }
    out.append(digit_str(n % 10));
    assert(out@ =~= old(out)@ + decimal_digits(n as nat));
}

/// The name of the document that holds epoch `epoch`: `<epoch>.json`.
pub fn epoch_file_name(epoch: usize) -> (name: String)
    ensures
        name@ == epoch_name(epoch),
{
    let mut name = String::new();
    push_decimal(&mut name, epoch);
    proof {
        reveal_strlit(".json");
    }
    name.append(".json");
    assert(name@ =~= epoch_name(epoch));
    name
}

/// Picks the document of the latest epoch among the file names of a
/// directory: the position of the name that stands for the largest epoch, and
/// among several such the first. `None` where no name is an epoch document's.
pub fn latest_epoch_file(names: &Vec<String>) -> (latest: Option<usize>)
    ensures
        match latest {
            Some(at) => {
                &&& at < names@.len()
                &&& epoch_of_name(names@[at as int]@) is Some
                &&& forall|i: int|
                    0 <= i < names@.len() && epoch_of_name(names@[i]@) is Some ==> epoch_of_name(
                        #[trigger] names@[i]@,
                    )->0 <= epoch_of_name(names@[at as int]@)->0
                &&& forall|i: int|
                    0 <= i < at && epoch_of_name(names@[i]@) is Some ==> epoch_of_name(
                        #[trigger] names@[i]@,
                    )->0 < epoch_of_name(names@[at as int]@)->0
            },
            None => forall|i: int|
                0 <= i < names@.len() ==> epoch_of_name(#[trigger] names@[i]@) is None,
        },
{
    let mut latest: Option<usize> = None;
    let mut best: usize = 0;
    let mut i: usize = 0;
    while i < names.len()
        invariant
            i <= names@.len(),
            match latest {
                Some(at) => {
                    &&& at < i
                    &&& epoch_of_name(names@[at as int]@) == Some(best)
                    &&& forall|j: int|
                        0 <= j < i && epoch_of_name(names@[j]@) is Some ==> epoch_of_name(
                            #[trigger] names@[j]@,
                        )->0 <= best
                    &&& forall|j: int|
                        0 <= j < at && epoch_of_name(names@[j]@) is Some ==> epoch_of_name(
                            #[trigger] names@[j]@,
                        )->0 < best
                },
                None => forall|j: int|
                    0 <= j < i ==> epoch_of_name(#[trigger] names@[j]@) is None,
            },
        decreases names@.len() - i,
    {
        match epoch_of_file_name(names[i].as_str()) {
            Some(epoch) => {
                if latest.is_none() || epoch > best {
                    latest = Some(i);
                    best = epoch;
                }
            },
            None => {},
        }
        i += 1;
    }
    latest
}

} // verus!
