//! Text as sequences of characters: searching, splitting, and numbers in decimal.

use vstd::prelude::*;

verus! {

/// The characters of each string.
pub open spec fn texts(strings: Seq<String>) -> Seq<Seq<char>> {
    strings.map_values(|s: String| s@)
}

/// The length of the longest prefix of `s` that does not hold `c`.
pub open spec fn run_before(s: Seq<char>, c: char) -> nat
    decreases s.len(),
{
    if s.len() == 0 || s[0] == c {
        0
    } else {
        1 + run_before(s.drop_first(), c)
    }
}

/// `run_before` is where `c` first stands, or the length where it does not occur.
pub proof fn run_before_is_first(s: Seq<char>, c: char)
    ensures
        run_before(s, c) <= s.len(),
        forall|i: int| 0 <= i < run_before(s, c) ==> s[i] != c,
        run_before(s, c) < s.len() ==> s[run_before(s, c) as int] == c,
    decreases s.len(),
{
    if s.len() != 0 && s[0] != c {
        let rest = s.drop_first();
        run_before_is_first(rest, c);
        assert forall|i: int| 0 <= i < run_before(s, c) implies s[i] != c by {
            if i > 0 {
                assert(s[i] == rest[i - 1]);
            }
        }
        if run_before(s, c) < s.len() {
            assert(s[run_before(s, c) as int] == rest[run_before(rest, c) as int]);
        }
    }
}

/// The place where `c` first stands is `run_before`.
pub proof fn first_is_run_before(s: Seq<char>, c: char, n: int)
    requires
        0 <= n <= s.len(),
        forall|i: int| 0 <= i < n ==> s[i] != c,
        n < s.len() ==> s[n] == c,
    ensures
        run_before(s, c) == n,
{
    run_before_is_first(s, c);
    let m: int = run_before(s, c) as int;
    if m < n {
        assert(s[m] == c);
    } else if n < m {
        assert(s[n] != c);
    }
}

/// `needle` stands in `hay` from position `at` on.
pub open spec fn occurs_at(hay: Seq<char>, needle: Seq<char>, at: int) -> bool {
    0 <= at && at + needle.len() <= hay.len() && hay.subrange(at, at + needle.len()) == needle
}

/// `needle` stands somewhere in `hay`.
pub open spec fn occurs(hay: Seq<char>, needle: Seq<char>) -> bool {
    exists|at: int| occurs_at(hay, needle, at)
}

/// The characters of `s`.
pub fn chars_of(s: &str) -> (v: Vec<char>)
    ensures
        v@ == s@,
{
    let n: usize = s.unicode_len();
    let mut v: Vec<char> = Vec::new();
    let mut rest = s.chars();
    while v.len() < n
        invariant
            n == s@.len(),
            v@.len() <= n,
            v@ == s@.take(v@.len() as int),
            vstd::std_specs::iter::IteratorSpec::remaining(&rest) == s@.skip(v@.len() as int),
            vstd::std_specs::iter::IteratorSpec::obeys_prophetic_iter_laws(&rest),
        decreases n - v.len(),
    {
        match rest.next() {
            Some(c) => {
                v.push(c);
            },
            None => {
                return v;
            },
        }
    }
    v
}

/// Whether `a` from position `from` up to `to` holds the same characters as `b`.
pub fn same_chars(a: &Vec<char>, from: usize, to: usize, b: &Vec<char>) -> (r: bool)
    requires
        from <= to <= a@.len(),
    ensures
        r == (a@.subrange(from as int, to as int) == b@),
{
    if to - from != b.len() {
        return false;
    }
    let mut i: usize = 0;
    while i < b.len()
        invariant
            from <= to <= a@.len(),
            to - from == b@.len(),
            i <= b@.len(),
            forall|j: int| 0 <= j < i ==> a@[from + j] == b@[j],
        decreases b.len() - i,
    {
        if a[from + i] != b[i] {
            assert(a@.subrange(from as int, to as int)[i as int] != b@[i as int]);
            return false;
        }
        i = i + 1;
    }
    assert(a@.subrange(from as int, to as int) =~= b@);
    true
}

/// Whether `needle` stands somewhere in `hay`.
pub fn contains(hay: &Vec<char>, needle: &Vec<char>) -> (r: bool)
    ensures
        r == occurs(hay@, needle@),
{
    let n: usize = needle.len();
    if n > hay.len() {
        return false;
    }
    let last: usize = hay.len() - n;
    let mut at: usize = 0;
    while !same_chars(hay, at, at + n, needle)
        invariant
            n == needle@.len(),
            n + last == hay.len(),
            at <= last,
            forall|i: int| 0 <= i < at ==> !occurs_at(hay@, needle@, i),
        decreases last - at,
    {
        if at == last {
            return false;
        }
        at = at + 1;
    }
    assert(occurs_at(hay@, needle@, at as int));
    true
}

/// The first line of a text.
///
/// A line ends at a line feed; a carriage return right before it belongs to the line ending.
/// What follows the last line feed is a line too, unless it is empty.
pub open spec fn first_line(s: Seq<char>) -> Seq<char> {
    let n: int = run_before(s, '\n') as int;
    if 0 < n < s.len() && s[n - 1] == '\r' {
        s.take(n - 1)
    } else {
        s.take(n)
    }
}

/// What follows the first line of a text and its line ending.
pub open spec fn after_first_line(s: Seq<char>) -> Seq<char> {
    let n: int = run_before(s, '\n') as int;
    if n < s.len() {
        s.skip(n + 1)
    } else {
        Seq::empty()
    }
}

/// The lines of a text.
pub open spec fn lines(s: Seq<char>) -> Seq<Seq<char>>
    decreases s.len(),
    via lines_shorten
{
    if s.len() == 0 {
        Seq::empty()
    } else {
        seq![first_line(s)] + lines(after_first_line(s))
    }
}

#[via_fn]
proof fn lines_shorten(s: Seq<char>) {
    run_before_is_first(s, '\n');
}

/// The value of a decimal digit.
pub open spec fn digit(c: char) -> int {
    c as int - '0' as int
}

/// Whether every character is a decimal digit.
pub open spec fn all_digits(s: Seq<char>) -> bool {
    forall|i: int| 0 <= i < s.len() ==> '0' <= #[trigger] s[i] <= '9'
}

/// The number that a sequence of decimal digits stands for.
pub open spec fn number(s: Seq<char>) -> nat
    decreases s.len(),
{
    if s.len() == 0 {
        0
    } else {
        (10 * number(s.drop_last()) + digit(s.last())) as nat
    }
}

/// The integer that a text stands for: an optional sign, then decimal digits and nothing else.
pub open spec fn integer(s: Seq<char>) -> Option<int> {
    let signed = s.len() > 0 && (s[0] == '+' || s[0] == '-');
    let digits = if signed { s.drop_first() } else { s };
    if digits.len() == 0 || !all_digits(digits) {
        None
    } else if signed && s[0] == '-' {
        Some(-(number(digits) as int))
    } else {
        Some(number(digits) as int)
    }
}

/// The position of the first `c` in `s`, or the length of `s`.
pub fn find_char(s: &Vec<char>, c: char) -> (n: usize)
    ensures
        n == run_before(s@, c),
        n <= s@.len(),
{
    let mut n: usize = 0;
    while n < s.len() && s[n] != c
        invariant
            n <= s@.len(),
            forall|i: int| 0 <= i < n ==> s@[i] != c,
        decreases s.len() - n,
    {
        n = n + 1;
    }
    proof {
        first_is_run_before(s@, c, n as int);
    }
    n
}

/// The integer that `s` stands for from position `from` up to `to`, where an `i32` can hold it.
pub fn parse_i32(s: &Vec<char>, from: usize, to: usize) -> (r: Option<i32>)
    requires
        from <= to <= s@.len(),
    ensures
        r == match integer(s@.subrange(from as int, to as int)) {
            Some(n) => if i32::MIN <= n <= i32::MAX {
                Some(n as i32)
            } else {
                None
            },
            None => None,
        },
{
    let ghost all = s@.subrange(from as int, to as int);
    if from < to && (s[from] == '+' || s[from] == '-') {
        assert(s@.subrange(from + 1, to as int) =~= all.drop_first());
        match (s[from] == '-', parse_digits(s, from + 1, to)) {
            (true, Some(value)) => Some((-value) as i32),
            (false, Some(value)) if value <= 2147483647 => Some(value as i32),
            _ => None,
        }
    } else {
        match parse_digits(s, from, to) {
            Some(value) if value <= 2147483647 => Some(value as i32),
            _ => None,
        }
    }
}

/// The number that the digits of `s` from position `from` up to `to` stand for, where it is at
/// most the magnitude of the least `i32`.
fn parse_digits(s: &Vec<char>, from: usize, to: usize) -> (r: Option<i64>)
    requires
        from <= to <= s@.len(),
    ensures
        ({
            let digits = s@.subrange(from as int, to as int);
            let fits = digits.len() > 0 && all_digits(digits) && number(digits) <= 2147483648;
            match r {
                Some(value) => fits && value == number(digits),
                None => !fits,
            }
        }),
{
    let ghost digits = s@.subrange(from as int, to as int);
    if from == to {
        return None;
    }
    let mut at: usize = from;
    let mut value: i64 = 0;
    while at < to
        invariant
            from <= at <= to <= s@.len(),
            from < to,
            digits == s@.subrange(from as int, to as int),
            all_digits(digits.take(at - from)),
            value == number(digits.take(at - from)),
            0 <= value <= 2147483648,
        decreases to - at,
    {
        let c: char = s[at];
        let ghost before = digits.take(at - from);
        let ghost now = digits.take(at - from + 1);
        assert(now.drop_last() =~= before);
        assert(now.last() == c);
        if c < '0' || '9' < c {
            assert(digits[at - from] == c);
            return None;
        }
        value = value * 10 + (c as u32 - '0' as u32) as i64;
        at = at + 1;
        assert(all_digits(now)) by {
            assert forall|i: int| 0 <= i < now.len() implies '0' <= #[trigger] now[i] <= '9' by {
                if i < before.len() {
                    assert(now[i] == before[i]);
                }
            }
        }
        if value > 2147483648 {
            proof {
                lemma_number_grows(digits, at - from);
            }
            return None;
        }
    }
    assert(digits.take(to - from) =~= digits);
    Some(value)
}

/// More digits never stand for a smaller number.
proof fn lemma_number_grows(s: Seq<char>, n: int)
    requires
        0 <= n <= s.len(),
    ensures
        all_digits(s) ==> number(s.take(n)) <= number(s),
    decreases s.len(),
{
    if n == s.len() {
        assert(s.take(n) =~= s);
    } else if all_digits(s) {
        let shorter = s.drop_last();
        assert(all_digits(shorter)) by {
            assert forall|i: int| 0 <= i < shorter.len() implies '0' <= #[trigger] shorter[i]
                <= '9' by {
                assert(shorter[i] == s[i]);
            }
        }
        lemma_number_grows(shorter, n);
        assert(shorter.take(n) =~= s.take(n));
        assert('0' <= s[s.len() - 1] <= '9');
    }
}

/// The decimal digit of value `d`.
pub open spec fn digit_char(d: nat) -> char {
    ('0' as u32 + d) as char
}

/// A number written in decimal, without leading zeros.
pub open spec fn decimal(n: nat) -> Seq<char>
    decreases n,
{
    if n < 10 {
        seq![digit_char(n)]
    } else {
        decimal(n / 10).push(digit_char(n % 10))
    }
}

/// Reading a number in decimal undoes writing it.
pub proof fn decimal_reads_back(n: nat)
    ensures
        all_digits(decimal(n)),
        number(decimal(n)) == n,
        integer(decimal(n)) == Some(n as int),
    decreases n,
{
    let all = decimal(n);
    if n < 10 {
        reveal_with_fuel(number, 2);
        assert(all.drop_last() =~= Seq::<char>::empty());
    } else {
        decimal_reads_back(n / 10);
        let head = decimal(n / 10);
        assert(all.drop_last() =~= head);
        assert forall|i: int| 0 <= i < all.len() implies '0' <= #[trigger] all[i] <= '9' by {
            if i < head.len() {
                assert(all[i] == head[i]);
            }
        }
    }
    assert('0' <= all[0] <= '9');
}

/// A number in decimal.
pub fn decimal_string(n: u16) -> (s: String)
    ensures
        s@ == decimal(n as nat),
    decreases n,
{
    if n < 10 {
        digit_str(n).to_owned()
    } else {
        let mut s: String = decimal_string(n / 10);
        s.append(digit_str(n % 10));
        assert(s@ =~= decimal(n as nat));
        s
    }
}

/// One decimal digit.
fn digit_str(d: u16) -> (s: &'static str)
    requires
        d < 10,
    ensures
        s@ == seq![digit_char(d as nat)],
{
    let digits: &'static str = "0123456789";
    proof {
        reveal_strlit("0123456789");
    }
    let s: &'static str = digits.substring_char(d as usize, d as usize + 1);
    assert(s@ =~= seq![digit_char(d as nat)]);
    s
}

/// The texts are those of the strings, one for one.
pub proof fn texts_are_those_of_the_strings(strings: Seq<String>)
    ensures
        texts(strings).len() == strings.len(),
        forall|i: int| 0 <= i < strings.len() ==> #[trigger] texts(strings)[i] == strings[i]@,
{
}

/// A text occurs in another exactly where the other is something, the text, and something more.
pub proof fn occurring_is_standing_between(hay: Seq<char>, needle: Seq<char>)
    ensures
        occurs(hay, needle) <==> exists|before: Seq<char>, behind: Seq<char>|
            hay == #[trigger] before.add(needle).add(behind),
{
    if occurs(hay, needle) {
        let at: int = choose|at: int| occurs_at(hay, needle, at);
        let before = hay.take(at);
        let behind = hay.skip(at + needle.len());
        assert(hay =~= before.add(needle).add(behind)) by {
            assert forall|i: int| at <= i < at + needle.len() implies hay[i] == needle[i - at] by {
                assert(hay.subrange(at, at + needle.len())[i - at] == needle[i - at]);
            }
        }
    }
    if exists|before: Seq<char>, behind: Seq<char>|
        hay == #[trigger] before.add(needle).add(behind) {
        let (before, behind) = choose|before: Seq<char>, behind: Seq<char>|
            hay == #[trigger] before.add(needle).add(behind);
        let at: int = before.len() as int;
        assert(hay.subrange(at, at + needle.len()) =~= needle);
        assert(occurs_at(hay, needle, at));
    }
}

/// A line ends at its line feed, and takes a carriage return right before it along. What follows
/// is read as if it stood alone. The last line needs no line feed, and keeps what it ends in.
pub proof fn lines_come_apart(line: Seq<char>, rest: Seq<char>)
    requires
        forall|i: int| 0 <= i < line.len() ==> line[i] != '\n',
    ensures
        lines(line + seq!['\n'] + rest) == seq![
            if line.len() > 0 && line.last() == '\r' {
                line.drop_last()
            } else {
                line
            },
        ] + lines(rest),
        line.len() > 0 ==> lines(line) == seq![line],
        lines(Seq::<char>::empty()) == Seq::<Seq<char>>::empty(),
{
    let n: int = line.len() as int;
    let text = line + seq!['\n'] + rest;
    assert forall|i: int| 0 <= i < n implies text[i] != '\n' by {
        assert(text[i] == line[i]);
    }
    first_is_run_before(text, '\n', n);
    assert(after_first_line(text) =~= rest);
    if n > 0 && line.last() == '\r' {
        assert(text[n - 1] == '\r');
        assert(first_line(text) =~= line.drop_last());
    } else {
        assert(n > 0 ==> text[n - 1] == line[n - 1]);
        assert(first_line(text) =~= line);
    }
    if n > 0 {
        first_is_run_before(line, '\n', n);
        assert(first_line(line) =~= line);
        assert(after_first_line(line) =~= Seq::<char>::empty());
        assert(lines(Seq::<char>::empty()) =~= Seq::<Seq<char>>::empty());
        assert(lines(line) =~= seq![line]);
    }
}

/// One more digit makes ten times the number, and the digit's own value.
pub proof fn digits_count_in_tens(s: Seq<char>, c: char)
    requires
        '0' <= c <= '9',
    ensures
        number(Seq::<char>::empty()) == 0,
        number(s.push(c)) == 10 * number(s) + (c as int - '0' as int),
{
    assert(s.push(c).drop_last() =~= s);
}

/// Digits stand for their number, with a plus sign too, and for its negative with a minus sign.
pub proof fn signed_digits_are_integers(digits: Seq<char>)
    requires
        digits.len() > 0,
        forall|i: int| 0 <= i < digits.len() ==> '0' <= #[trigger] digits[i] <= '9',
    ensures
        integer(digits) == Some(number(digits) as int),
        integer(seq!['+'] + digits) == Some(number(digits) as int),
        integer(seq!['-'] + digits) == Some(-(number(digits) as int)),
{
    assert('0' <= digits[0] <= '9');
    assert((seq!['+'] + digits).drop_first() =~= digits);
    assert((seq!['-'] + digits).drop_first() =~= digits);
}

/// Nothing else stands for an integer: not an empty text, not a sign alone, and no text with
/// anything but a digit behind its first character, or anything but a digit or a sign there.
pub proof fn nothing_else_is_an_integer(s: Seq<char>)
    requires
        s.len() == 0 || (s.len() == 1 && !('0' <= s[0] <= '9')) || (exists|i: int|
            1 <= i < s.len() && !('0' <= #[trigger] s[i] <= '9')) || !('0' <= s[0] <= '9' || s[0]
            == '+' || s[0] == '-'),
    ensures
        integer(s) is None,
{
    if s.len() > 0 {
        let signed = s[0] == '+' || s[0] == '-';
        if exists|i: int| 1 <= i < s.len() && !('0' <= #[trigger] s[i] <= '9') {
            let i: int = choose|i: int| 1 <= i < s.len() && !('0' <= #[trigger] s[i] <= '9');
            if signed {
                assert(s.drop_first()[i - 1] == s[i]);
                assert(!all_digits(s.drop_first()));
            } else {
                assert(!all_digits(s));
            }
        } else if !signed {
            assert(!('0' <= s[0] <= '9'));
            assert(!all_digits(s));
        }
    }
}

/// A number is written with decimal digits only, and without a zero in front but for zero itself.
pub proof fn decimals_are_shortest(n: nat)
    ensures
        decimal(n).len() > 0,
        forall|i: int| 0 <= i < decimal(n).len() ==> '0' <= #[trigger] decimal(n)[i] <= '9',
        number(decimal(n)) == n,
        decimal(n)[0] == '0' <==> n == 0,
        n == 0 ==> decimal(n) == seq!['0'],
    decreases n,
{
    decimal_reads_back(n);
    assert(forall|i: int| 0 <= i < decimal(n).len() ==> '0' <= #[trigger] decimal(n)[i] <= '9');
    if n >= 10 {
        decimals_are_shortest(n / 10);
        assert(decimal(n)[0] == decimal(n / 10)[0]);
    }
}

} // verus!
