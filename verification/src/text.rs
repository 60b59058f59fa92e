//! Text as sequences of characters: trimming, lines, numerals and searching.

use vstd::prelude::*;
use vstd::string::*;
use vstd::utf8::*;

verus! {

// ---------------------------------------------------------------------------
// Characters
// ---------------------------------------------------------------------------

/// The characters with the Unicode property `White_Space`.
pub open spec fn is_space(c: char) -> bool {
    let u = c as u32;
    ||| 0x09 <= u <= 0x0d
    ||| u == 0x20
    ||| u == 0x85
    ||| u == 0xa0
    ||| u == 0x1680
    ||| 0x2000 <= u <= 0x200a
    ||| u == 0x2028
    ||| u == 0x2029
    ||| u == 0x202f
    ||| u == 0x205f
    ||| u == 0x3000
}

/// Whether `c` is white space.
pub fn char_is_space(c: char) -> (r: bool)
    ensures
        r == is_space(c),
{
    let u: u32 = c as u32;
    (0x09 <= u && u <= 0x0d) || u == 0x20 || u == 0x85 || u == 0xa0 || u == 0x1680 || (0x2000 <= u
        && u <= 0x200a) || u == 0x2028 || u == 0x2029 || u == 0x202f || u == 0x205f || u == 0x3000
}

/// The characters of `s`, one by one.
pub fn chars_of(s: &str) -> (r: Vec<char>)
    ensures
        r@ == s@,
{
    let mut out: Vec<char> = Vec::new();
    for c in it: s.chars()
        invariant
            it.seq() == s@,
            out@ == s@.take(it.index() as int),
    {
        out.push(c);
        assert(s@.take(it.index() + 1) =~= s@.take(it.index() as int).push(c));
    }
    assert(s@.take(s@.len() as int) =~= s@);
    out
}

/// Whether two texts are the same, character by character.
pub fn same_text(a: &str, b: &str) -> (r: bool)
    ensures
        r == (a@ == b@),
{
    a.to_owned() == b.to_owned()
}

// ---------------------------------------------------------------------------
// Trimming
// ---------------------------------------------------------------------------

/// `s` without its leading white space.
pub open spec fn trim_start_of(s: Seq<char>) -> Seq<char>
    decreases s.len(),
{
    if s.len() > 0 && is_space(s[0]) {
        trim_start_of(s.drop_first())
    } else {
        s
    }
}

/// `s` without its trailing white space.
pub open spec fn trim_end_of(s: Seq<char>) -> Seq<char>
    decreases s.len(),
{
    if s.len() > 0 && is_space(s.last()) {
        trim_end_of(s.drop_last())
    } else {
        s
    }
}

/// `s` without the white space at either end.
pub open spec fn trim_of(s: Seq<char>) -> Seq<char> {
    trim_end_of(trim_start_of(s))
}

/// What is not white space is not trimmed away.
pub proof fn lemma_trim_keeps(s: Seq<char>, i: int)
    requires
        0 <= i < s.len(),
        !is_space(s[i]),
    ensures
        trim_of(s).contains(s[i]),
{
    lemma_trim_start_keeps(s, i);
    let t = trim_start_of(s);
    let k = choose|k: int| 0 <= k < t.len() && t[k] == s[i];
    lemma_trim_end_keeps(t, k);
}

proof fn lemma_trim_start_keeps(s: Seq<char>, i: int)
    requires
        0 <= i < s.len(),
        !is_space(s[i]),
    ensures
        trim_start_of(s).contains(s[i]),
    decreases s.len(),
{
    if is_space(s[0]) {
        assert(s.drop_first()[i - 1] == s[i]);
        lemma_trim_start_keeps(s.drop_first(), i - 1);
    } else {
        assert(trim_start_of(s)[i] == s[i]);
    }
}

proof fn lemma_trim_end_keeps(s: Seq<char>, i: int)
    requires
        0 <= i < s.len(),
        !is_space(s[i]),
    ensures
        trim_end_of(s).contains(s[i]),
    decreases s.len(),
{
    if is_space(s.last()) {
        assert(s.drop_last()[i] == s[i]);
        lemma_trim_end_keeps(s.drop_last(), i);
    } else {
        assert(trim_end_of(s)[i] == s[i]);
    }
}

/// Remove leading white space.
pub fn trim_start<'a>(s: &'a str) -> (r: &'a str)
    ensures
        r@ == trim_start_of(s@),
{
    let chars = chars_of(s);
    let mut from: usize = 0;
    assert(s@.skip(0) =~= s@);
    while from < chars.len() && char_is_space(chars[from])
        invariant
            chars@ == s@,
            from <= chars.len(),
            trim_start_of(s@) == trim_start_of(s@.skip(from as int)),
        decreases chars.len() - from,
    {
        assert(s@.skip(from as int).drop_first() =~= s@.skip(from + 1));
        from = from + 1;
    }
    assert(s@.skip(from as int) =~= s@.subrange(from as int, s@.len() as int));
    s.substring_char(from, chars.len())
}

/// Remove white space at both ends.
pub fn trim<'a>(s: &'a str) -> (r: &'a str)
    ensures
        r@ == trim_of(s@),
{
    let rest = trim_start(s);
    let chars = chars_of(rest);
    let mut to: usize = chars.len();
    assert(rest@.take(to as int) =~= rest@);
    while to > 0 && char_is_space(chars[to - 1])
        invariant
            chars@ == rest@,
            to <= chars.len(),
            trim_end_of(rest@) == trim_end_of(rest@.take(to as int)),
        decreases to,
    {
        assert(rest@.take(to as int).drop_last() =~= rest@.take(to - 1));
        to = to - 1;
    }
    assert(rest@.take(to as int) =~= rest@.subrange(0, to as int));
    rest.substring_char(0, to)
}

// ---------------------------------------------------------------------------
// Searching
// ---------------------------------------------------------------------------

/// `i` is the first place at or after `from` where `c` stands in `s`.
pub open spec fn is_first_at(s: Seq<char>, c: char, from: int, i: int) -> bool {
    &&& from <= i < s.len()
    &&& s[i] == c
    &&& forall|j: int| from <= j < i ==> s[j] != c
}

/// The first place at or after `from` where `c` stands in `s`.
pub open spec fn first_at(s: Seq<char>, c: char, from: int) -> Option<int>
    decreases s.len() - from,
{
    if from < 0 || from >= s.len() {
        None
    } else if s[from] == c {
        Some(from)
    } else {
        first_at(s, c, from + 1)
    }
}

/// `first_at` finds the first occurrence, and misses none.
pub proof fn lemma_first_at(s: Seq<char>, c: char, from: int)
    requires
        0 <= from,
    ensures
        first_at(s, c, from) matches Some(i) ==> is_first_at(s, c, from, i),
        first_at(s, c, from) is None ==> forall|j: int| from <= j < s.len() ==> s[j] != c,
    decreases s.len() - from,
{
    if from < s.len() && s[from] != c {
        lemma_first_at(s, c, from + 1);
    }
}

/// A first occurrence is the one that `first_at` gives.
pub proof fn lemma_first_at_is(s: Seq<char>, c: char, from: int, i: int)
    requires
        0 <= from,
        is_first_at(s, c, from, i),
    ensures
        first_at(s, c, from) == Some(i),
{
    lemma_first_at(s, c, from);
}

/// Find `c` at or after `from`.
pub fn find_char(chars: &Vec<char>, c: char, from: usize) -> (r: Option<usize>)
    ensures
        r matches Some(i) ==> first_at(chars@, c, from as int) == Some(i as int),
        r is None ==> first_at(chars@, c, from as int) is None,
{
    let mut i: usize = from;
    while i < chars.len()
        invariant
            from <= i,
            first_at(chars@, c, from as int) == first_at(chars@, c, i as int),
        decreases chars.len() - i,
    {
        if chars[i] == c {
            return Some(i);
        }
        i = i + 1;
    }
    None
}

/// `needle` stands in `s` at place `i`.
pub open spec fn stands_at(s: Seq<char>, needle: Seq<char>, i: int) -> bool {
    &&& 0 <= i
    &&& i + needle.len() <= s.len()
    &&& s.subrange(i, i + needle.len()) == needle
}

/// `needle` stands somewhere in `s`.
pub open spec fn contains_text(s: Seq<char>, needle: Seq<char>) -> bool {
    exists|i: int| stands_at(s, needle, i)
}

/// Whether `needle` stands somewhere in `hay`.
pub fn contains(hay: &str, needle: &str) -> (r: bool)
    ensures
        r == contains_text(hay@, needle@),
{
    let h = chars_of(hay);
    let n = chars_of(needle);
    let mut i: usize = 0;
    while h.len() - i >= n.len()
        invariant
            h@ == hay@,
            n@ == needle@,
            i <= h.len(),
            forall|k: int| 0 <= k < i ==> !stands_at(hay@, needle@, k),
        decreases h.len() - i,
    {
        let mut j: usize = 0;
        while j < n.len() && h[i + j] == n[j]
            invariant
                h@ == hay@,
                n@ == needle@,
                i <= h.len(),
                h.len() - i >= n.len(),
                j <= n.len(),
                forall|k: int| 0 <= k < j ==> hay@[i + k] == needle@[k],
            decreases n.len() - j,
        {
            j = j + 1;
        }
        if j == n.len() {
            assert(hay@.subrange(i as int, i + needle@.len()) =~= needle@);
            assert(stands_at(hay@, needle@, i as int));
            return true;
        }
        assert(!stands_at(hay@, needle@, i as int)) by {
            assert(hay@.subrange(i as int, i + needle@.len())[j as int] == hay@[i + j]);
        }
        i = i + 1;
    }
    false
}

// ---------------------------------------------------------------------------
// Lines
// ---------------------------------------------------------------------------

/// One line without the carriage return that a line feed would follow.
pub open spec fn without_cr(s: Seq<char>) -> Seq<char> {
    if s.len() > 0 && s.last() == '\r' {
        s.drop_last()
    } else {
        s
    }
}

/// The lines of `s`: what stands before each line feed, less one carriage
/// return directly before it, and what follows the last one, if anything does.
pub open spec fn lines_of(s: Seq<char>) -> Seq<Seq<char>> {
    lines_from(s, 0)
}

/// The lines of `s` from place `from` on.
pub open spec fn lines_from(s: Seq<char>, from: int) -> Seq<Seq<char>>
    decreases s.len() - from,
{
    if from < 0 || from >= s.len() {
        Seq::empty()
    } else {
        match first_at(s, '\n', from) {
            Some(i) => if from <= i < s.len() {
                seq![without_cr(s.subrange(from, i))] + lines_from(s, i + 1)
            } else {
                Seq::empty()
            },
            None => seq![s.subrange(from, s.len() as int)],
        }
    }
}

/// The lines of `s` from place `from` on, where a line feed follows `s`.
pub open spec fn closed_lines(s: Seq<char>, from: int) -> Seq<Seq<char>>
    decreases s.len() - from,
{
    match first_at(s, '\n', from) {
        Some(i) => if 0 <= from <= i < s.len() {
            seq![without_cr(s.subrange(from, i))] + closed_lines(s, i + 1)
        } else {
            Seq::empty()
        },
        None => seq![without_cr(s.subrange(from, s.len() as int))],
    }
}

proof fn lemma_first_at_shifted(a: Seq<char>, b: Seq<char>, c: char, from: int)
    requires
        0 <= from,
    ensures
        first_at(a + b, c, a.len() + from) == (match first_at(b, c, from) {
            Some(i) => Some(a.len() + i),
            None => None,
        }),
    decreases b.len() - from,
{
    if from < b.len() {
        assert((a + b)[a.len() + from] == b[from]);
        if b[from] != c {
            lemma_first_at_shifted(a, b, c, from + 1);
        }
    }
}

proof fn lemma_first_at_prefix(a: Seq<char>, b: Seq<char>, c: char, from: int)
    requires
        0 <= from,
        first_at(a, c, from) is Some,
    ensures
        first_at(a + b, c, from) == first_at(a, c, from),
    decreases a.len() - from,
{
    assert((a + b)[from] == a[from]);
    if a[from] != c {
        lemma_first_at_prefix(a, b, c, from + 1);
    }
}

proof fn lemma_lines_shifted(a: Seq<char>, b: Seq<char>, from: int)
    requires
        0 <= from,
    ensures
        lines_from(a + b, a.len() + from) == lines_from(b, from),
    decreases b.len() - from,
{
    if from < b.len() {
        lemma_first_at(b, '\n', from);
        lemma_first_at_shifted(a, b, '\n', from);
        match first_at(b, '\n', from) {
            Some(i) => {
                lemma_lines_shifted(a, b, i + 1);
                assert((a + b).subrange(a.len() + from, a.len() + i) =~= b.subrange(from, i));
            },
            None => {
                assert((a + b).subrange(a.len() + from, (a + b).len() as int) =~= b.subrange(
                    from,
                    b.len() as int,
                ));
            },
        }
    }
}

/// The lines of two texts with a line feed between them are the lines of the
/// first, closed by that line feed, and those of the second.
pub proof fn lemma_lines_joined(a: Seq<char>, b: Seq<char>, from: int)
    requires
        0 <= from <= a.len(),
    ensures
        lines_from(a + seq!['\n'] + b, from) == closed_lines(a, from) + lines_of(b),
    decreases a.len() - from,
{
    let s = a + seq!['\n'] + b;
    let tail = seq!['\n'] + b;
    assert(s =~= a + tail);
    lemma_first_at(a, '\n', from);
    match first_at(a, '\n', from) {
        Some(i) => {
            lemma_first_at_prefix(a, tail, '\n', from);
            lemma_lines_joined(a, b, i + 1);
            assert(s.subrange(from, i) =~= a.subrange(from, i));
            assert(lines_from(s, from) =~= closed_lines(a, from) + lines_of(b));
        },
        None => {
            assert(is_first_at(s, '\n', from, a.len() as int));
            lemma_first_at_is(s, '\n', from, a.len() as int);
            assert(s.subrange(from, a.len() as int) =~= a.subrange(from, a.len() as int));
            let head = a + seq!['\n'];
            assert(s =~= head + b);
            lemma_lines_shifted(head, b, 0);
            assert(head.len() == a.len() + 1);
            assert(lines_from(s, from) =~= closed_lines(a, from) + lines_of(b));
        },
    }
}

/// A line feed after a text closes its last line: a carriage return at its end
/// goes, and where the text is empty or ends in a line feed, a line without
/// characters comes.
pub proof fn lemma_closed_lines(s: Seq<char>, from: int)
    requires
        0 <= from <= s.len(),
    ensures
        from == s.len() || s.last() == '\n' ==> closed_lines(s, from) == lines_from(s, from).push(
            Seq::empty(),
        ),
        from < s.len() && s.last() != '\n' ==> {
            let l = lines_from(s, from);
            &&& l.len() > 0
            &&& closed_lines(s, from) == l.drop_last().push(without_cr(l.last()))
            &&& s.last() != '\r' ==> closed_lines(s, from) == l
        },
    decreases s.len() - from,
{
    lemma_first_at(s, '\n', from);
    match first_at(s, '\n', from) {
        Some(i) => {
            lemma_closed_lines(s, i + 1);
            let head = seq![without_cr(s.subrange(from, i))];
            let rest = lines_from(s, i + 1);
            assert(lines_from(s, from) == head + rest);
            if i + 1 == s.len() || s.last() == '\n' {
                assert(closed_lines(s, from) =~= lines_from(s, from).push(Seq::empty()));
            } else {
                assert((head + rest).last() == rest.last());
                assert((head + rest).drop_last() =~= head + rest.drop_last());
                assert(closed_lines(s, from) =~= (head + rest).drop_last().push(
                    without_cr(rest.last()),
                ));
            }
        },
        None => {
            let line = s.subrange(from, s.len() as int);
            if from == s.len() {
                assert(without_cr(line) =~= Seq::empty());
                assert(closed_lines(s, from) =~= lines_from(s, from).push(Seq::empty()));
            } else {
                assert(line.last() == s.last());
                assert(lines_from(s, from) =~= seq![line]);
                assert(seq![line].drop_last().push(without_cr(line)) =~= seq![without_cr(line)]);
            }
        },
    }
}

/// To drop a last character that is not `c` does not change where `c` is first.
pub proof fn lemma_first_at_shorter(s: Seq<char>, c: char, from: int)
    requires
        0 <= from,
        s.len() > 0,
        s.last() != c,
    ensures
        first_at(s.drop_last(), c, from) == first_at(s, c, from),
    decreases s.len() - from,
{
    if from < s.len() && s[from] != c {
        lemma_first_at_shorter(s, c, from + 1);
    }
}

/// The texts that a list of strings holds.
pub open spec fn texts(v: Seq<String>) -> Seq<Seq<char>> {
    Seq::new(v.len(), |i: int| v[i]@)
}

/// Split a text into its lines.
pub fn lines(s: &str) -> (r: Vec<String>)
    ensures
        texts(r@) == lines_of(s@),
{
    let chars = chars_of(s);
    let mut out: Vec<String> = Vec::new();
    let mut from: usize = 0;
    assert(texts(out@) + lines_from(s@, 0) =~= lines_of(s@));
    while from < chars.len()
        invariant
            chars@ == s@,
            from <= chars.len(),
            texts(out@) + lines_from(s@, from as int) == lines_of(s@),
        decreases chars.len() - from,
    {
        let ghost before = out@;
        proof {
            lemma_first_at(s@, '\n', from as int);
        }
        match find_char(&chars, '\n', from) {
            Some(i) => {
                let to: usize = if i > from && chars[i - 1] == '\r' {
                    i - 1
                } else {
                    i
                };
                let line = s.substring_char(from, to).to_owned();
                assert(line@ =~= without_cr(s@.subrange(from as int, i as int)));
                out.push(line);
                assert(texts(out@) =~= texts(before).push(line@));
                assert(texts(out@) + lines_from(s@, i + 1) =~= texts(before) + (seq![line@]
                    + lines_from(s@, i + 1)));
                from = i + 1;
            },
            None => {
                let line = s.substring_char(from, chars.len()).to_owned();
                out.push(line);
                assert(texts(out@) =~= texts(before).push(line@));
                assert(texts(before).push(line@) =~= texts(before) + seq![line@]);
                from = chars.len();
            },
        }
    }
    assert(texts(out@) + lines_from(s@, from as int) =~= texts(out@));
    out
}

// ---------------------------------------------------------------------------
// Numerals
// ---------------------------------------------------------------------------

/// The value of `c` as a digit in any base up to sixteen: `0`-`9`, then `a`-`f`
/// in either case. Every other character has a value out of reach.
pub open spec fn digit_value(c: char) -> int {
    let u = c as int;
    if 0x30 <= u <= 0x39 {
        u - 0x30
    } else if 0x61 <= u <= 0x66 {
        u - 0x61 + 10
    } else if 0x41 <= u <= 0x46 {
        u - 0x41 + 10
    } else {
        99
    }
}

/// Every character of `s` is a digit in base `radix`.
pub open spec fn all_digits(s: Seq<char>, radix: int) -> bool {
    forall|i: int| 0 <= i < s.len() ==> digit_value(#[trigger] s[i]) < radix
}

/// The number that the digits `s` denote in base `radix`.
pub open spec fn numeral_value(s: Seq<char>, radix: int) -> int
    decreases s.len(),
{
    if s.len() == 0 {
        0
    } else {
        numeral_value(s.drop_last(), radix) * radix + digit_value(s.last())
    }
}

/// A numeral less the plus sign that it may start with.
pub open spec fn without_plus(s: Seq<char>) -> Seq<char> {
    if s.len() > 0 && s[0] == '+' {
        s.skip(1)
    } else {
        s
    }
}

/// `s` is a numeral in base `radix`: an optional plus sign and then at least one
/// digit.
pub open spec fn is_numeral(s: Seq<char>, radix: int) -> bool {
    without_plus(s).len() > 0 && all_digits(without_plus(s), radix)
}

/// The number that `s` denotes: an optional plus sign and then at least one
/// digit in base `radix`, of a value up to `max`. Nothing else is a numeral.
pub open spec fn parse_of(s: Seq<char>, radix: int, max: int) -> Option<int> {
    let value = numeral_value(without_plus(s), radix);
    if is_numeral(s, radix) && value <= max {
        Some(value)
    } else {
        None
    }
}

fn char_digit(c: char) -> (r: u8)
    ensures
        r == digit_value(c),
{
    let u: u32 = c as u32;
    if 0x30 <= u && u <= 0x39 {
        (u - 0x30) as u8
    } else if 0x61 <= u && u <= 0x66 {
        (u - 0x61 + 10) as u8
    } else if 0x41 <= u && u <= 0x46 {
        (u - 0x41 + 10) as u8
    } else {
        99
    }
}

proof fn lemma_digits_value_grows(s: Seq<char>, radix: int)
    requires
        radix >= 2,
    ensures
        numeral_value(s, radix) >= 0,
    decreases s.len(),
{
    if s.len() > 0 {
        lemma_digits_value_grows(s.drop_last(), radix);
        let v = numeral_value(s.drop_last(), radix);
        assert(v * radix >= 0) by (nonlinear_arith)
            requires
                v >= 0,
                radix >= 2,
        ;
    }
}

/// Read an unsigned numeral in base 8, 10 or 16, of a value up to `max`.
pub fn parse_unsigned(s: &str, radix: u8, max: u64) -> (r: Option<u64>)
    requires
        radix == 8 || radix == 10 || radix == 16,
    ensures
        r matches Some(n) ==> parse_of(s@, radix as int, max as int) == Some(n as int),
        r is None ==> parse_of(s@, radix as int, max as int) is None,
{
    let chars = chars_of(s);
    let start: usize = if chars.len() > 0 && chars[0] == '+' {
        1
    } else {
        0
    };
    let ghost digits = without_plus(s@);
    assert(digits =~= s@.skip(start as int));
    if start == chars.len() {
        return None;
    }
    let top: u128 = max as u128 + 1;
    let mut value: u128 = 0;
    let mut i: usize = start;
    assert(digits.take(0) =~= Seq::<char>::empty());
    while i < chars.len()
        invariant
            radix == 8 || radix == 10 || radix == 16,
            chars@ == s@,
            start <= i <= chars.len(),
            start <= 1,
            digits == s@.skip(start as int),
            digits == without_plus(s@),
            top == max + 1,
            value <= top,
            all_digits(digits.take(i - start), radix as int),
            value < top ==> value == numeral_value(digits.take(i - start), radix as int),
            value == top ==> numeral_value(digits.take(i - start), radix as int) > max,
        decreases chars.len() - i,
    {
        let d: u8 = char_digit(chars[i]);
        let ghost before = digits.take(i - start);
        let ghost after = digits.take(i + 1 - start);
        assert(after.drop_last() =~= before);
        assert(after.last() == s@[i as int]);
        if d >= radix {
            assert(!all_digits(digits, radix as int)) by {
                assert(digits[i - start] == s@[i as int]);
            }
            return None;
        }
        assert(all_digits(after, radix as int)) by {
            assert forall|k: int| 0 <= k < after.len() implies digit_value(#[trigger] after[k])
                < radix by {
                if k < before.len() {
                    assert(after[k] == before[k]);
                }
            }
        }
        let ghost v = numeral_value(before, radix as int);
        let ghost rad = radix as int;
        proof {
            lemma_digits_value_grows(before, radix as int);
            assert(v * rad >= v) by (nonlinear_arith)
                requires
                    v >= 0,
                    rad >= 8,
            ;
        }
        let next: u128 = if value == top {
            top
        } else {
            assert(value * radix <= 0x1_0000_0000_0000_0000 * 16) by (nonlinear_arith)
                requires
                    0 <= value <= 0x1_0000_0000_0000_0000,
                    0 <= radix <= 16,
            ;
            let n: u128 = value * (radix as u128) + d as u128;
            if n >= top {
                top
            } else {
                n
            }
        };
        value = next;
        i = i + 1;
    }
    assert(digits.take(chars.len() - start) =~= digits);
    if value == top {
        None
    } else {
        Some(value as u64)
    }
}

/// The decimal digits of `n`, with no leading zero.
pub open spec fn decimal_of(n: nat) -> Seq<char>
    decreases n,
{
    if n < 10 {
        seq![digit_char(n as int)]
    } else {
        decimal_of(n / 10).push(digit_char((n % 10) as int))
    }
}

/// The character that stands for the digit `d`, of a value up to fifteen.
pub open spec fn digit_char(d: int) -> char {
    if d < 10 {
        (0x30 + d) as char
    } else {
        (0x61 + d - 10) as char
    }
}

fn digit_text(d: u8) -> (r: &'static str)
    requires
        d < 16,
    ensures
        r@ == seq![digit_char(d as int)],
{
    proof {
        reveal_strlit("0");
        reveal_strlit("1");
        reveal_strlit("2");
        reveal_strlit("3");
        reveal_strlit("4");
        reveal_strlit("5");
        reveal_strlit("6");
        reveal_strlit("7");
        reveal_strlit("8");
        reveal_strlit("9");
        reveal_strlit("a");
        reveal_strlit("b");
        reveal_strlit("c");
        reveal_strlit("d");
        reveal_strlit("e");
        reveal_strlit("f");
    }
    match d {
        0 => "0",
        1 => "1",
        2 => "2",
        3 => "3",
        4 => "4",
        5 => "5",
        6 => "6",
        7 => "7",
        8 => "8",
        9 => "9",
        10 => "a",
        11 => "b",
        12 => "c",
        13 => "d",
        14 => "e",
        _ => "f",
    }
}

/// Write a number in decimal.
pub fn decimal(n: u64) -> (r: String)
    ensures
        r@ == decimal_of(n as nat),
    decreases n,
{
    if n < 10 {
        digit_text(n as u8).to_owned()
    } else {
        let mut out = decimal(n / 10);
        out.append(digit_text((n % 10) as u8));
        assert(out@ =~= decimal_of((n / 10) as nat).push(digit_char((n % 10) as int)));
        out
    }
}

/// An optional index in decimal, or a text that stands for none.
pub open spec fn decimal_or(n: Option<u8>, otherwise: Seq<char>) -> Seq<char> {
    match n {
        Some(i) => decimal_of(i as nat),
        None => otherwise,
    }
}

/// A byte as two hexadecimal digits after `0x`.
pub open spec fn hex_byte_of(b: u8) -> Seq<char> {
    seq!['0', 'x', digit_char((b / 16) as int), digit_char((b % 16) as int)]
}

/// Write a byte as two hexadecimal digits after `0x`.
pub fn hex_byte(b: u8) -> (r: String)
    ensures
        r@ == hex_byte_of(b),
{
    let mut out = "0x".to_owned();
    out.append(digit_text(b / 16));
    out.append(digit_text(b % 16));
    proof {
        reveal_strlit("0x");
    }
    assert(out@ =~= hex_byte_of(b));
    out
}

/// What `decimal` writes, `parse_unsigned` reads back.
pub proof fn law_decimal_round_trip(n: nat, max: int)
    requires
        n <= max,
    ensures
        parse_of(decimal_of(n), 10, max) == Some(n as int),
{
    lemma_decimal(n);
}

/// The decimal digits of a number are digits, do not start with a sign, and
/// denote the number.
pub proof fn lemma_decimal(n: nat)
    ensures
        decimal_of(n).len() > 0,
        decimal_of(n)[0] != '+',
        all_digits(decimal_of(n), 10),
        numeral_value(decimal_of(n), 10) == n,
    decreases n,
{
    let s = decimal_of(n);
    if n < 10 {
        assert(s.drop_last() =~= Seq::<char>::empty());
        assert(numeral_value(s.drop_last(), 10) == 0);
    } else {
        lemma_decimal(n / 10);
        assert(s.drop_last() =~= decimal_of(n / 10));
        assert forall|k: int| 0 <= k < s.len() implies digit_value(#[trigger] s[k]) < 10 by {
            if k < s.len() - 1 {
                assert(s[k] == decimal_of(n / 10)[k]);
            }
        }
        assert(s[0] == decimal_of(n / 10)[0]);
    }
}

/// Whether `s` is a decimal numeral, of whatever value.
pub fn is_decimal(s: &str) -> (r: bool)
    ensures
        r == is_numeral(s@, 10),
{
    let chars = chars_of(s);
    let start: usize = if chars.len() > 0 && chars[0] == '+' {
        1
    } else {
        0
    };
    let ghost digits = without_plus(s@);
    assert(digits =~= s@.skip(start as int));
    if start == chars.len() {
        return false;
    }
    let mut i: usize = start;
    while i < chars.len()
        invariant
            chars@ == s@,
            start <= i <= chars.len(),
            digits == s@.skip(start as int),
            forall|k: int| 0 <= k < i - start ==> digit_value(#[trigger] digits[k]) < 10,
            start < chars.len(),
            digits == without_plus(s@),
        decreases chars.len() - i,
    {
        assert(digits[i - start] == chars@[i as int]);
        if char_digit(chars[i]) >= 10 {
            return false;
        }
        i = i + 1;
    }
    true
}

// ---------------------------------------------------------------------------
// Letter case
// ---------------------------------------------------------------------------

/// `c` in lower case if it is one of the letters `A`-`Z`, else `c`.
pub open spec fn ascii_lower_char(c: char) -> char {
    if 0x41 <= c as u32 && c as u32 <= 0x5a {
        (c as u32 + 0x20) as char
    } else {
        c
    }
}

/// `s` with each of the letters `A`-`Z` in lower case.
pub open spec fn ascii_lower_of(s: Seq<char>) -> Seq<char> {
    Seq::new(s.len(), |i: int| ascii_lower_char(s[i]))
}

/// The lower case that Unicode defines of a text with characters beyond ASCII.
pub uninterp spec fn unicode_lowercase(s: Seq<char>) -> Seq<char>;

/// `s` in lower case.
pub open spec fn lower_of(s: Seq<char>) -> Seq<char> {
    if is_ascii_chars(s) {
        ascii_lower_of(s)
    } else {
        unicode_lowercase(s)
    }
}

/// Calls `str::to_lowercase`. Trusted: on a text of ASCII characters alone it
/// maps `A`-`Z` to `a`-`z` and keeps the rest; on any other text its result is
/// a function of the text, which `unicode_lowercase` names.
#[verifier::external_body]
pub(crate) fn to_lowercase(s: &str) -> (r: String)
    ensures
        is_ascii_chars(s@) ==> r@ == ascii_lower_of(s@),
        !is_ascii_chars(s@) ==> r@ == unicode_lowercase(s@),
{
    s.to_lowercase()
}

/// The two texts are the same but for the case of the letters `A`-`Z`.
pub open spec fn same_but_ascii_case(a: Seq<char>, b: Seq<char>) -> bool {
    ascii_lower_of(a) == ascii_lower_of(b)
}

fn char_ascii_lower(c: char) -> (r: char)
    ensures
        r == ascii_lower_char(c),
{
    let u: u32 = c as u32;
    if 0x41 <= u && u <= 0x5a {
        ((u as u8) + 0x20) as char
    } else {
        c
    }
}

/// Whether two texts are the same but for the case of the letters `A`-`Z`.
pub fn eq_ignore_ascii_case(a: &str, b: &str) -> (r: bool)
    ensures
        r == same_but_ascii_case(a@, b@),
{
    let x = chars_of(a);
    let y = chars_of(b);
    if x.len() != y.len() {
        assert(ascii_lower_of(a@).len() != ascii_lower_of(b@).len());
        return false;
    }
    let mut i: usize = 0;
    while i < x.len()
        invariant
            x@ == a@,
            y@ == b@,
            x.len() == y.len(),
            i <= x.len(),
            forall|k: int| 0 <= k < i ==> ascii_lower_char(a@[k]) == ascii_lower_char(b@[k]),
        decreases x.len() - i,
    {
        if char_ascii_lower(x[i]) != char_ascii_lower(y[i]) {
            assert(ascii_lower_of(a@)[i as int] != ascii_lower_of(b@)[i as int]);
            return false;
        }
        i = i + 1;
    }
    assert(ascii_lower_of(a@) =~= ascii_lower_of(b@));
    true
}

// ---------------------------------------------------------------------------
// Lists of texts
// ---------------------------------------------------------------------------

/// The texts of `list` one after the other, with `separator` between them.
pub open spec fn joined(list: Seq<Seq<char>>, separator: Seq<char>) -> Seq<char>
    decreases list.len(),
{
    if list.len() == 0 {
        Seq::empty()
    } else if list.len() == 1 {
        list[0]
    } else {
        joined(list.drop_last(), separator) + separator + list.last()
    }
}

/// Join texts with a separator between them.
pub fn join(list: &Vec<String>, separator: &str) -> (r: String)
    ensures
        r@ == joined(texts(list@), separator@),
{
    let mut out = String::new();
    let mut i: usize = 0;
    assert(texts(list@).take(0) =~= Seq::<Seq<char>>::empty());
    while i < list.len()
        invariant
            i <= list.len(),
            out@ == joined(texts(list@).take(i as int), separator@),
        decreases list.len() - i,
    {
        assert(texts(list@).take(i + 1).drop_last() =~= texts(list@).take(i as int));
        if i > 0 {
            out.append(separator);
        }
        out.append(list[i].as_str());
        assert(Seq::<char>::empty() + list@[i as int]@ =~= list@[i as int]@);
        i = i + 1;
    }
    assert(texts(list@).take(list@.len() as int) =~= texts(list@));
    out
}

/// How the debug format of the standard library writes a list of texts.
pub uninterp spec fn debug_list_text(list: Seq<Seq<char>>) -> Seq<char>;

/// Calls the `Debug` format of a vector of strings. Trusted: what it writes is
/// a function of the texts alone, which `debug_list_text` names.
#[verifier::external_body]
pub(crate) fn debug_list(list: &Vec<String>) -> (r: String)
    ensures
        r@ == debug_list_text(texts(list@)),
{
    format!("{:?}", list)
}

// ---------------------------------------------------------------------------
// Bytes
// ---------------------------------------------------------------------------

/// The text that bytes stand for when what is not UTF-8 in them is replaced.
pub uninterp spec fn replaced_utf8(bytes: Seq<u8>) -> Seq<char>;

/// The text that bytes stand for.
pub open spec fn text_of_bytes(bytes: Seq<u8>) -> Seq<char> {
    if valid_utf8(bytes) {
        decode_utf8(bytes)
    } else {
        replaced_utf8(bytes)
    }
}

/// Calls `String::from_utf8_lossy`. Trusted: bytes that are UTF-8 give the text
/// that they encode; for other bytes the result is a function of the bytes,
/// which `replaced_utf8` names.
#[verifier::external_body]
pub(crate) fn from_utf8_lossy(bytes: &Vec<u8>) -> (r: String)
    ensures
        valid_utf8(bytes@) ==> r@ == decode_utf8(bytes@),
        !valid_utf8(bytes@) ==> r@ == replaced_utf8(bytes@),
{
    String::from_utf8_lossy(bytes).into_owned()
}

/// Texts are joined by a separator between any two of them, and none at either end.
pub proof fn law_joining_adds_one_separator(
    list: Seq<Seq<char>>,
    last: Seq<char>,
    separator: Seq<char>,
)
    ensures
        joined(Seq::empty(), separator).len() == 0,
        joined(seq![last], separator) == last,
        list.len() > 0 ==> joined(list.push(last), separator) == joined(list, separator)
            + separator + last,
{
    assert(list.push(last).drop_last() =~= list);
    assert(seq![last].drop_last() =~= Seq::<Seq<char>>::empty());
    reveal_with_fuel(joined, 3);
    assert(joined(seq![last], separator) =~= last);
}

} // verus!
