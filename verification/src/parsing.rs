//! Splitting, trimming and joining text, and decimal numbers in text.

use crate::text::texts;
use vstd::prelude::*;
use vstd::string::*;

verus! {

/// Whether `c` has the Unicode property `White_Space`.
pub open spec fn is_whitespace(c: char) -> bool {
    let u = c as u32;
    ||| 0x09 <= u <= 0x0d
    ||| u == 0x20
    ||| u == 0x85
    ||| u == 0xa0
    ||| u == 0x1680
    ||| 0x2000 <= u <= 0x200a
    ||| u == 0x2028
    ||| u == 0x2029
    ||| u == 0x202f
    ||| u == 0x205f
    ||| u == 0x3000
}

/// `s` without the whitespace at its start.
pub open spec fn trimmed_start(s: Seq<char>) -> Seq<char>
    decreases s.len(),
{
    if s.len() > 0 && is_whitespace(s[0]) {
        trimmed_start(s.drop_first())
    } else {
        s
    }
}

/// `s` without the whitespace at its end.
pub open spec fn trimmed_end(s: Seq<char>) -> Seq<char>
    decreases s.len(),
{
    if s.len() > 0 && is_whitespace(s.last()) {
        trimmed_end(s.drop_last())
    } else {
        s
    }
}

/// `s` without the whitespace at its start and at its end.
pub open spec fn trimmed(s: Seq<char>) -> Seq<char> {
    trimmed_end(trimmed_start(s))
}

/// The pieces of `s` between the occurrences of `sep`. There is one piece
/// more than there are separators, so at least one.
pub open spec fn pieces(s: Seq<char>, sep: char) -> Seq<Seq<char>>
    decreases s.len(),
{
    if s.len() == 0 {
        seq![Seq::empty()]
    } else {
        let front = pieces(s.drop_last(), sep);
        if s.last() == sep {
            front.push(Seq::empty())
        } else {
            front.drop_last().push(front.last().push(s.last()))
        }
    }
}

/// The trimmed pieces, without those that are empty after trimming.
pub open spec fn kept_trimmed(parts: Seq<Seq<char>>) -> Seq<Seq<char>>
    decreases parts.len(),
{
    if parts.len() == 0 {
        Seq::empty()
    } else if trimmed(parts.last()).len() == 0 {
        kept_trimmed(parts.drop_last())
    } else {
        kept_trimmed(parts.drop_last()).push(trimmed(parts.last()))
    }
}

/// The tags that a comma-separated text names: its pieces between commas,
/// trimmed, the empty ones left out.
pub open spec fn tag_list(s: Seq<char>) -> Seq<Seq<char>> {
    kept_trimmed(pieces(s, ','))
}

/// The items in a row with `sep` between each two.
pub open spec fn joined(items: Seq<Seq<char>>, sep: Seq<char>) -> Seq<char>
    decreases items.len(),
{
    if items.len() == 0 {
        Seq::empty()
    } else if items.len() == 1 {
        items[0]
    } else {
        joined(items.drop_last(), sep) + sep + items.last()
    }
}

/// `pieces` never yields an empty sequence.
pub proof fn lemma_pieces_nonempty(s: Seq<char>, sep: char)
    ensures
        pieces(s, sep).len() >= 1,
    decreases s.len(),
{
    if s.len() > 0 {
        lemma_pieces_nonempty(s.drop_last(), sep);
    }
}

/// Whether `c` has the Unicode property `White_Space`.
pub fn whitespace(c: char) -> (r: bool)
    ensures
        r == is_whitespace(c),
{
    let u = c as u32;
    (0x09 <= u && u <= 0x0d) || u == 0x20 || u == 0x85 || u == 0xa0 || u == 0x1680 || (0x2000 <= u
        && u <= 0x200a) || u == 0x2028 || u == 0x2029 || u == 0x202f || u == 0x205f || u == 0x3000
}

/// The scalars of `s`, one by one.
pub fn chars_of(s: &str) -> (chars: Vec<char>)
    ensures
        chars@ == s@,
{
    let mut chars: Vec<char> = Vec::new();
    for c in it: s.chars()
        invariant
            chars@ == it.seq().take(it.index() as int),
            it.seq() == s@,
    {
        chars.push(c);
    }
    chars
}

/// The bounds of what is left of `chars[start..end]` after trimming.
pub fn trim_range(chars: &Vec<char>, start: usize, end: usize) -> (r: (usize, usize))
    requires
        start <= end <= chars@.len(),
    ensures
        start <= r.0 <= r.1 <= end,
        chars@.subrange(r.0 as int, r.1 as int) == trimmed(
            chars@.subrange(start as int, end as int),
        ),
{
    let mut a = start;
    while a < end && whitespace(chars[a])
        invariant
            start <= a <= end <= chars@.len(),
            trimmed_start(chars@.subrange(start as int, end as int)) == trimmed_start(
                chars@.subrange(a as int, end as int),
            ),
        decreases end - a,
    {
        assert(chars@.subrange(a as int, end as int).drop_first() =~= chars@.subrange(
            a + 1,
            end as int,
        ));
        a += 1;
    }
    let mut b = end;
    while b > a && whitespace(chars[b - 1])
        invariant
            a <= b <= end <= chars@.len(),
            trimmed_end(chars@.subrange(a as int, end as int)) == trimmed_end(
                chars@.subrange(a as int, b as int),
            ),
        decreases b,
    {
        assert(chars@.subrange(a as int, b as int).drop_last() =~= chars@.subrange(
            a as int,
            b - 1,
        ));
        b -= 1;
    }
    (a, b)
}

/// The tags that a comma-separated text names: its pieces between commas,
/// trimmed, the empty ones left out.
pub fn parse_tags(s: &str) -> (tags: Vec<String>)
    ensures
        texts(tags@) == tag_list(s@),
{
    let chars = chars_of(s);
    let n = chars.len();
    let mut tags: Vec<String> = Vec::new();
    let mut start: usize = 0;
    let mut i: usize = 0;
    assert(s@.take(0) =~= Seq::<char>::empty());
    assert(s@.subrange(0, 0) =~= Seq::<char>::empty());
    assert(pieces(s@.take(0), ',').drop_last() =~= Seq::<Seq<char>>::empty());
    assert(texts(tags@) =~= Seq::<Seq<char>>::empty());
    while i < n
        invariant
            chars@ == s@,
            n == s@.len(),
            start <= i <= n,
            pieces(s@.take(i as int), ',').len() >= 1,
            pieces(s@.take(i as int), ',').last() == s@.subrange(start as int, i as int),
            texts(tags@) == kept_trimmed(pieces(s@.take(i as int), ',').drop_last()),
        decreases n - i,
    {
        let ghost front = pieces(s@.take(i as int), ',');
        let ghost before = texts(tags@);
        proof {
            assert(s@.take(i + 1).drop_last() =~= s@.take(i as int));
            assert(s@.take(i + 1).last() == s@[i as int]);
        }
        if chars[i] == ',' {
            let (a, b) = trim_range(&chars, start, i);
            if a < b {
                tags.push(s.substring_char(a, b).to_owned());
                assert(texts(tags@) =~= before.push(s@.subrange(a as int, b as int)));
            }
            start = i + 1;
            proof {
                assert(front.push(Seq::<char>::empty()).drop_last() =~= front);
                assert(s@.subrange(i + 1, i + 1) =~= Seq::<char>::empty());
            }
        } else {
            proof {
                let grown = front.drop_last().push(front.last().push(s@[i as int]));
                assert(grown.drop_last() =~= front.drop_last());
                assert(s@.subrange(start as int, i as int).push(s@[i as int]) =~= s@.subrange(
                    start as int,
                    i + 1,
                ));
            }
        }
        i += 1;
    }
    let ghost front = pieces(s@, ',');
    let ghost before = texts(tags@);
    assert(s@.take(n as int) =~= s@);
    let (a, b) = trim_range(&chars, start, n);
    if a < b {
        tags.push(s.substring_char(a, b).to_owned());
        assert(texts(tags@) =~= before.push(s@.subrange(a as int, b as int)));
    }
    tags
}

/// The items in a row with `sep` between each two.
pub fn join(items: &Vec<String>, sep: &str) -> (text: String)
    ensures
        text@ == joined(texts(items@), sep@),
{
    let mut text = String::new();
    let mut i: usize = 0;
    assert(texts(items@).take(0) =~= Seq::<Seq<char>>::empty());
    while i < items.len()
        invariant
            i <= items@.len(),
            text@ == joined(texts(items@).take(i as int), sep@),
        decreases items@.len() - i,
    {
        proof {
            let head = texts(items@).take(i + 1);
            assert(head.drop_last() =~= texts(items@).take(i as int));
            assert(head.last() == items@[i as int]@);
            if i == 0 {
                assert(text@ + items@[i as int]@ =~= items@[i as int]@);
            }
        }
        if i > 0 {
            text.append(sep);
        }
        text.append(items[i].as_str());
        i += 1;
    }
    assert(texts(items@).take(i as int) =~= texts(items@));
    text
}

/// Where each piece of `chars[from..to]` between the occurrences of `sep`
/// starts and ends.
pub fn split_ranges(chars: &Vec<char>, from: usize, to: usize, sep: char) -> (ranges: Vec<
    (usize, usize),
>)
    requires
        from <= to <= chars@.len(),
    ensures
        ranges@.len() == pieces(chars@.subrange(from as int, to as int), sep).len(),
        forall|k: int|
            0 <= k < ranges@.len() ==> from <= (#[trigger] ranges@[k]).0 <= ranges@[k].1 <= to
                && chars@.subrange(ranges@[k].0 as int, ranges@[k].1 as int) == pieces(
                chars@.subrange(from as int, to as int),
                sep,
            )[k],
{
    let ghost s = chars@.subrange(from as int, to as int);
    let mut ranges: Vec<(usize, usize)> = Vec::new();
    let mut start: usize = from;
    let mut i: usize = from;
    assert(s.take(0) =~= Seq::<char>::empty());
    assert(chars@.subrange(from as int, from as int) =~= Seq::<char>::empty());
    while i < to
        invariant
            from <= start <= i <= to <= chars@.len(),
            s == chars@.subrange(from as int, to as int),
            pieces(s.take(i - from), sep).len() == ranges@.len() + 1,
            pieces(s.take(i - from), sep).last() == chars@.subrange(start as int, i as int),
            forall|k: int|
                0 <= k < ranges@.len() ==> from <= (#[trigger] ranges@[k]).0 <= ranges@[k].1 <= to
                    && chars@.subrange(ranges@[k].0 as int, ranges@[k].1 as int) == pieces(
                    s.take(i - from),
                    sep,
                )[k],
        decreases to - i,
    {
        let ghost front = pieces(s.take(i - from), sep);
        proof {
            assert(s.take(i + 1 - from).drop_last() =~= s.take(i - from));
            assert(s.take(i + 1 - from).last() == chars@[i as int]);
        }
        if chars[i] == sep {
            ranges.push((start, i));
            start = i + 1;
            proof {
                assert(chars@.subrange(i + 1, i + 1) =~= Seq::<char>::empty());
            }
        } else {
            proof {
                assert(chars@.subrange(start as int, i as int).push(chars@[i as int])
                    =~= chars@.subrange(start as int, i + 1));
            }
        }
        i += 1;
    }
    assert(s.take(to - from) =~= s);
    ranges.push((start, to));
    ranges
}

/// Whether `c` is one of the digits `0` to `9`.
pub open spec fn is_digit(c: char) -> bool {
    '0' <= c <= '9'
}

/// The digit that stands for `d`, for `d` below ten.
pub open spec fn digit_char(d: nat) -> char {
    if d == 0 {
        '0'
    } else if d == 1 {
        '1'
    } else if d == 2 {
        '2'
    } else if d == 3 {
        '3'
    } else if d == 4 {
        '4'
    } else if d == 5 {
        '5'
    } else if d == 6 {
        '6'
    } else if d == 7 {
        '7'
    } else if d == 8 {
        '8'
    } else {
        '9'
    }
}

/// The number that a digit stands for.
pub open spec fn digit_value(c: char) -> nat {
    (c as u32 - '0' as u32) as nat
}

/// `n` in decimal digits, without leading zeros.
pub open spec fn decimal(n: nat) -> Seq<char>
    decreases n,
{
    if n < 10 {
        seq![digit_char(n)]
    } else {
        decimal(n / 10).push(digit_char(n % 10))
    }
}

/// The number that a row of decimal digits stands for.
pub open spec fn digits_value(s: Seq<char>) -> nat
    decreases s.len(),
{
    if s.len() == 0 {
        0
    } else {
        digits_value(s.drop_last()) * 10 + digit_value(s.last())
    }
}

/// The number that `s` is the decimal numeral of: `s` is one digit or
/// more, with or without a plus sign in front, and the number fits the
/// machine word. `None` for any other text.
pub open spec fn number_in(s: Seq<char>) -> Option<usize> {
    let digits = unsigned_part(s);
    if digits.len() > 0 && all_digits(digits) && digits_value(digits) <= usize::MAX {
        Some(digits_value(digits) as usize)
    } else {
        None
    }
}

/// `s` without the plus sign in front, where it has one.
pub open spec fn unsigned_part(s: Seq<char>) -> Seq<char> {
    if s.len() > 0 && s[0] == '+' {
        s.drop_first()
    } else {
        s
    }
}

/// Whether `s` holds digits only.
pub open spec fn all_digits(s: Seq<char>) -> bool {
    forall|i: int| 0 <= i < s.len() ==> is_digit(#[trigger] s[i])
}

/// A longer row of digits stands for no smaller number than its start.
pub proof fn lemma_digits_value_grows(s: Seq<char>, k: int)
    requires
        0 <= k <= s.len(),
    ensures
        digits_value(s.take(k)) <= digits_value(s),
    decreases s.len(),
{
    if k < s.len() {
        assert(s.drop_last().take(k) =~= s.take(k));
        lemma_digits_value_grows(s.drop_last(), k);
        assert(digits_value(s.drop_last()) <= digits_value(s.drop_last()) * 10) by (nonlinear_arith);
    } else {
        assert(s.take(k) =~= s);
    }
}

/// The decimal digits of a number are digits, and stand for that number.
pub proof fn lemma_decimal(n: nat)
    ensures
        decimal(n).len() >= 1,
        all_digits(decimal(n)),
        digits_value(decimal(n)) == n,
    decreases n,
{
    let d = decimal(n);
    if n < 10 {
        assert(d.drop_last() =~= Seq::<char>::empty());
        assert(digits_value(d.drop_last()) == 0);
        assert(digit_value(digit_char(n)) == n);
    } else {
        lemma_decimal(n / 10);
        assert(d.drop_last() =~= decimal(n / 10));
        assert(digit_value(digit_char(n % 10)) == n % 10);
        assert forall|i: int| 0 <= i < d.len() implies is_digit(#[trigger] d[i]) by {
            if i < d.len() - 1 {
                assert(d[i] == decimal(n / 10)[i]);
            }
        }
    }
}

/// A text that is one digit or more, read as a number, is the number that
/// its digits stand for, where that fits the machine word.
pub proof fn lemma_number_in_decimal(n: usize)
    ensures
        number_in(decimal(n as nat)) == Some(n),
        trimmed(decimal(n as nat)) == decimal(n as nat),
        forall|i: int|
            0 <= i < decimal(n as nat).len() ==> is_digit(#[trigger] decimal(n as nat)[i]),
{
    let d = decimal(n as nat);
    lemma_decimal(n as nat);
    assert(is_digit(d[0]));
    assert(is_digit(d[d.len() - 1]));
    assert(trimmed_start(d) == d);
    assert(trimmed_end(d) == d);
}

/// A text without the separator is one piece.
pub proof fn lemma_pieces_without_separator(s: Seq<char>, sep: char)
    requires
        forall|i: int| 0 <= i < s.len() ==> #[trigger] s[i] != sep,
    ensures
        pieces(s, sep) == seq![s],
    decreases s.len(),
{
    if s.len() == 0 {
        assert(s =~= Seq::<char>::empty());
    } else {
        let front = s.drop_last();
        assert forall|i: int| 0 <= i < front.len() implies #[trigger] front[i] != sep by {
            assert(front[i] == s[i]);
        }
        lemma_pieces_without_separator(front, sep);
        assert(s[s.len() - 1] != sep);
        assert(front.push(s.last()) =~= s);
        assert(seq![front].last() == front);
        assert(seq![front].drop_last() =~= Seq::<Seq<char>>::empty());
        assert(Seq::<Seq<char>>::empty().push(s) =~= seq![s]);
    }
}

/// What follows the first separator does not change the first piece.
pub proof fn lemma_first_piece(head: Seq<char>, sep: char, rest: Seq<char>)
    requires
        forall|i: int| 0 <= i < head.len() ==> #[trigger] head[i] != sep,
    ensures
        pieces(head + seq![sep] + rest, sep).len() >= 2,
        pieces(head + seq![sep] + rest, sep)[0] == head,
    decreases rest.len(),
{
    let whole = head + seq![sep] + rest;
    if rest.len() == 0 {
        assert(whole.drop_last() =~= head);
        lemma_pieces_without_separator(head, sep);
    } else {
        assert(whole.drop_last() =~= head + seq![sep] + rest.drop_last());
        lemma_first_piece(head, sep, rest.drop_last());
    }
}

/// The number that `chars[from..to]` is the decimal numeral of, if it is
/// one.
pub fn parse_number(chars: &Vec<char>, from: usize, to: usize) -> (number: Option<usize>)
    requires
        from <= to <= chars@.len(),
    ensures
        number == number_in(chars@.subrange(from as int, to as int)),
{
    let ghost s = chars@.subrange(from as int, to as int);
    let first = if from < to && chars[from] == '+' {
        from + 1
    } else {
        from
    };
    let ghost digits = chars@.subrange(first as int, to as int);
    proof {
        if first > from {
            assert(s.drop_first() =~= digits);
        } else {
            assert(s =~= digits);
        }
    }
    if first == to {
        return None;
    }
    let mut value: usize = 0;
    let mut i: usize = first;
    assert(digits.take(0) =~= Seq::<char>::empty());
    while i < to
        invariant
            first <= i <= to <= chars@.len(),
            first < to,
            s == chars@.subrange(from as int, to as int),
            digits == chars@.subrange(first as int, to as int),
            digits == unsigned_part(s),
            forall|j: int| 0 <= j < i - first ==> is_digit(#[trigger] digits[j]),
            value == digits_value(digits.take(i - first)),
        decreases to - i,
    {
        let c = chars[i];
        proof {
            assert(digits.take(i + 1 - first).drop_last() =~= digits.take(i - first));
            assert(digits.take(i + 1 - first).last() == c);
            lemma_digits_value_grows(digits, i + 1 - first);
        }
        if !('0' <= c && c <= '9') {
            assert(!is_digit(digits[i - first]));
            assert(!all_digits(digits));
            return None;
        }
        let d = (c as u32 - '0' as u32) as usize;
        assert(d == digit_value(c));
        if value > (usize::MAX - d) / 10 {
            assert(value * 10 + d > usize::MAX) by (nonlinear_arith)
                requires
                    value > (usize::MAX - d) / 10,
                    d <= usize::MAX,
            ;
            return None;
        }
        assert(value * 10 + d <= usize::MAX) by (nonlinear_arith)
            requires
                value <= (usize::MAX - d) / 10,
                d <= usize::MAX,
        ;
        value = value * 10 + d;
        i += 1;
    }
    assert(digits.take(to - first) =~= digits);
    Some(value)
}

/// The text of one digit.
fn digit_text(d: usize) -> (text: &'static str)
    requires
        d < 10,
    ensures
        text@ == seq![digit_char(d as nat)],
{
    proof {
        reveal_strlit("0");
        reveal_strlit("1");
        reveal_strlit("2");
        reveal_strlit("3");
        reveal_strlit("4");
        reveal_strlit("5");
        reveal_strlit("6");
        reveal_strlit("7");
        reveal_strlit("8");
        reveal_strlit("9");
    }
    let text = if d == 0 {
        "0"
    } else if d == 1 {
        "1"
    } else if d == 2 {
        "2"
    } else if d == 3 {
        "3"
    } else if d == 4 {
        "4"
    } else if d == 5 {
        "5"
    } else if d == 6 {
        "6"
    } else if d == 7 {
        "7"
    } else if d == 8 {
        "8"
    } else {
        "9"
    };
    assert(text@ =~= seq![digit_char(d as nat)]);
    text
}

/// Appends `n` in decimal digits to `out`.
pub fn push_decimal(out: &mut String, n: usize)
    ensures
        final(out)@ == old(out)@ + decimal(n as nat),
    decreases n,
{
    if n >= 10 {
        push_decimal(out, n / 10);
    }
    out.append(digit_text(n % 10));
    proof {
        if n >= 10 {
            assert(self::decimal(n as nat) =~= decimal((n / 10) as nat) + seq![
                digit_char((n % 10) as nat),
            ]);
        }
    }
}

} // verus!
