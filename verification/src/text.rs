//! Text as sequences of characters: decimal numerals and lines.

use vstd::prelude::*;

verus! {

/// The texts of a sequence of strings.
pub open spec fn texts(strings: Seq<String>) -> Seq<Seq<char>> {
    Seq::new(strings.len(), |i: int| strings[i]@)
}

/// The text of an optional string.
pub open spec fn opt_text(string: Option<String>) -> Option<Seq<char>> {
    match string {
        Some(s) => Some(s@),
        None => None,
    }
}

/// `n` blanks.
pub open spec fn blanks(n: nat) -> Seq<char> {
    Seq::new(n, |i: int| ' ')
}

/// Writes `n` blanks.
pub fn spaces(n: usize) -> (r: String)
    ensures
        r@ == blanks(n as nat),
        r@.len() == n,
        forall|i: int| 0 <= i < n ==> #[trigger] r@[i] == ' ',
{
    let mut out = String::new();
    let mut i: usize = 0;
    assert(out@ =~= blanks(0));
    while i < n
        invariant
            i <= n,
            out@ == blanks(i as nat),
        decreases n - i,
    {
        proof {
            reveal_strlit(" ");
        }
        out.append(" ");
        i = i + 1;
        assert(out@ =~= blanks(i as nat));
    }
    out
}

/// Whether two texts are the same.
pub fn same_text(a: &str, b: &str) -> (r: bool)
    ensures
        r == (a@ == b@),
{
    a.to_owned() == b.to_owned()
}

// ---------------------------------------------------------------------------
// Decimal numerals
// ---------------------------------------------------------------------------

/// The character of the decimal digit `d`.
pub open spec fn digit_char(d: nat) -> char
    recommends
        d < 10,
{
    ('0' as nat + d) as char
}

/// The decimal numeral of a natural number, without leading zeros.
pub open spec fn decimal_nat(n: nat) -> Seq<char>
    decreases n,
{
    if n < 10 {
        seq![digit_char(n)]
    } else {
        decimal_nat(n / 10).push(digit_char(n % 10))
    }
}

/// The decimal numeral of an integer, with a minus sign where it is negative.
pub open spec fn decimal(n: int) -> Seq<char> {
    if n < 0 {
        seq!['-'] + decimal_nat((-n) as nat)
    } else {
        decimal_nat(n as nat)
    }
}

/// The number that a sequence of decimal digits stands for.
pub open spec fn decimal_value(s: Seq<char>) -> int
    decreases s.len(),
{
    if s.len() == 0 {
        0
    } else {
        decimal_value(s.drop_last()) * 10 + (s.last() as int - '0' as int)
    }
}

fn digit_text(d: u128) -> (r: &'static str)
    requires
        d < 10,
    ensures
        r@ == seq![digit_char(d as nat)],
{
    proof {
        reveal_strlit("0");
        reveal_strlit("1");
        reveal_strlit("2");
        reveal_strlit("3");
        reveal_strlit("4");
        reveal_strlit("5");
        reveal_strlit("6");
        reveal_strlit("7");
        reveal_strlit("8");
        reveal_strlit("9");
    }
    let r = if d == 0 {
        "0"
    } else if d == 1 {
        "1"
    } else if d == 2 {
        "2"
    } else if d == 3 {
        "3"
    } else if d == 4 {
        "4"
    } else if d == 5 {
        "5"
    } else if d == 6 {
        "6"
    } else if d == 7 {
        "7"
    } else if d == 8 {
        "8"
    } else {
        "9"
    };
    assert(r@ =~= seq![digit_char(d as nat)]);
    r
}

/// Writes a natural number in decimal.
pub fn decimal_u128(n: u128) -> (r: String)
    ensures
        r@ == decimal_nat(n as nat),
    decreases n,
{
    let mut out = if n < 10 {
        String::new()
    } else {
        decimal_u128(n / 10)
    };
    out.append(digit_text(n % 10));
    assert(out@ =~= decimal_nat(n as nat));
    out
}

/// Writes an integer in decimal.
pub fn decimal_i128(n: i128) -> (r: String)
    ensures
        r@ == decimal(n as int),
{
    if n < 0 {
        let magnitude: u128 = (-(n + 1)) as u128 + 1;
        let mut out = "-".to_owned();
        proof {
            reveal_strlit("-");
        }
        out.append(decimal_u128(magnitude).as_str());
        assert(out@ =~= decimal(n as int));
        out
    } else {
        decimal_u128(n as u128)
    }
}

/// The numeral of a natural number is made of decimal digits and stands for that number.
pub proof fn lemma_decimal_nat_value(n: nat)
    ensures
        decimal_value(decimal_nat(n)) == n,
        decimal_nat(n).len() > 0,
        forall|i: int|
            0 <= i < decimal_nat(n).len() ==> '0' <= #[trigger] decimal_nat(n)[i] <= '9',
    decreases n,
{
    reveal_with_fuel(decimal_value, 2);
    if n >= 10 {
        lemma_decimal_nat_value(n / 10);
        assert(decimal_nat(n).drop_last() =~= decimal_nat(n / 10));
    } else {
        assert(decimal_nat(n).drop_last() =~= Seq::<char>::empty());
    }
}

/// A numeral grows by one digit at its end: that of ten times a number and a digit is the
/// numeral of the number with the digit behind it, and a single digit is its own numeral.
pub proof fn lemma_decimal_digits(n: nat, d: nat)
    requires
        d < 10,
    ensures
        n > 0 ==> decimal_nat(10 * n + d) == decimal_nat(n).push("0123456789"@[d as int]),
        decimal_nat(d) == seq!["0123456789"@[d as int]],
{
    reveal_strlit("0123456789");
    assert(digit_char(d) == "0123456789"@[d as int]) by {
        assert(d == 0 || d == 1 || d == 2 || d == 3 || d == 4 || d == 5 || d == 6 || d == 7 || d
            == 8 || d == 9);
    }
    assert((10 * n + d) / 10 == n);
    assert((10 * n + d) % 10 == d);
}

/// A negative number is written as a minus sign and its magnitude, and no other number has
/// a sign.
pub proof fn lemma_decimal_sign(n: int)
    ensures
        n < 0 ==> decimal(n) == seq!['-'] + decimal(-n),
        n >= 0 ==> decimal(n) == decimal_nat(n as nat),
        decimal(n)[0] == '-' <==> n < 0,
{
    lemma_decimal_nat_value(if n < 0 { -n } else { n } as nat);
}

/// Different integers have different numerals.
pub proof fn lemma_decimal_injective(a: int, b: int)
    requires
        decimal(a) == decimal(b),
    ensures
        a == b,
{
    let m = if a < 0 { -a } else { a } as nat;
    let n = if b < 0 { -b } else { b } as nat;
    lemma_decimal_nat_value(m);
    lemma_decimal_nat_value(n);
    assert(decimal(a)[0] == '-' <==> a < 0);
    assert(decimal(b)[0] == '-' <==> b < 0);
    if a < 0 {
        assert(decimal_nat(m) =~= decimal(a).skip(1));
        assert(decimal_nat(n) =~= decimal(b).skip(1));
    }
}

// ---------------------------------------------------------------------------
// Characters and lines
// ---------------------------------------------------------------------------

/// The characters of a text.
pub fn chars_of(text: &str) -> (r: Vec<char>)
    ensures
        r@ == text@,
{
    let mut out: Vec<char> = Vec::new();
    for c in it: text.chars()
        invariant
            it.seq() == text@,
            out@ == text@.take(it.index() as int),
    {
        assert(text@.take(it.index() as int + 1) =~= text@.take(it.index() as int).push(c));
        out.push(c);
    }
    assert(text@.take(text@.len() as int) =~= text@);
    out
}

/// Whether `line` holds no line feed.
pub open spec fn unbroken(line: Seq<char>) -> bool {
    forall|i: int| 0 <= i < line.len() ==> #[trigger] line[i] != '\n'
}

/// The position of the first line feed at or after `from`, or the length of the text.
pub open spec fn line_feed_from(text: Seq<char>, from: int) -> int
    decreases text.len() - from,
{
    if from < 0 || from >= text.len() {
        text.len() as int
    } else if text[from] == '\n' {
        from
    } else {
        line_feed_from(text, from + 1)
    }
}

/// A line without the carriage return that may stand before its line feed.
pub open spec fn without_return(line: Seq<char>) -> Seq<char> {
    if line.len() > 0 && line.last() == '\r' {
        line.drop_last()
    } else {
        line
    }
}

/// The lines of the text from position `from` on: each ends at a line feed, with or
/// without a carriage return before it, and the ending is not part of the line. The
/// last line needs no ending.
pub open spec fn lines_from(text: Seq<char>, from: int) -> Seq<Seq<char>>
    decreases text.len() - from,
    when 0 <= from
{
    if from >= text.len() {
        Seq::empty()
    } else {
        let end = line_feed_from(text, from);
        if from <= end < text.len() {
            seq![without_return(text.subrange(from, end))] + lines_from(text, end + 1)
        } else {
            seq![text.skip(from)]
        }
    }
}

/// The lines of a text.
pub open spec fn lines(text: Seq<char>) -> Seq<Seq<char>> {
    lines_from(text, 0)
}

proof fn lemma_line_feed_from(text: Seq<char>, from: int, at: int)
    requires
        0 <= from <= at <= text.len(),
        forall|i: int| from <= i < at ==> #[trigger] text[i] != '\n',
        at < text.len() ==> text[at] == '\n',
    ensures
        line_feed_from(text, from) == at,
    decreases at - from,
{
    if from < at {
        lemma_line_feed_from(text, from + 1, at);
    }
}

/// Splits a text into its lines.
pub fn split_lines(text: &str) -> (r: Vec<String>)
    ensures
        texts(r@) == lines(text@),
{
    let chars = chars_of(text);
    let mut out: Vec<String> = Vec::new();
    let mut start: usize = 0;
    let mut i: usize = 0;
    assert(texts(out@) + lines_from(text@, 0) =~= lines(text@));
    while i < chars.len()
        invariant
            chars@ == text@,
            start <= i <= chars.len(),
            forall|k: int| start <= k < i ==> #[trigger] text@[k] != '\n',
            texts(out@) + lines_from(text@, start as int) == lines(text@),
        decreases chars.len() - i,
    {
        if chars[i] == '\n' {
            let ghost before = texts(out@);
            let end: usize = if i > start && chars[i - 1] == '\r' {
                i - 1
            } else {
                i
            };
            let line = text.substring_char(start, end).to_owned();
            proof {
                lemma_line_feed_from(text@, start as int, i as int);
                assert(line@ =~= without_return(text@.subrange(start as int, i as int)));
            }
            out.push(line);
            proof {
                assert(texts(out@) =~= before.push(line@));
                assert(before + (seq![line@] + lines_from(text@, i + 1)) =~= before.push(line@)
                    + lines_from(text@, i + 1));
            }
            start = i + 1;
        }
        i = i + 1;
    }
    if start < chars.len() {
        let ghost before = texts(out@);
        let line = text.substring_char(start, chars.len()).to_owned();
        proof {
            lemma_line_feed_from(text@, start as int, text@.len() as int);
            assert(line@ =~= text@.skip(start as int));
        }
        out.push(line);
        assert(texts(out@) =~= before + seq![line@]);
    } else {
        assert(texts(out@) =~= texts(out@) + lines_from(text@, start as int));
    }
    out
}

/// No line holds a line feed.
pub proof fn lemma_lines_unbroken(text: Seq<char>, from: int)
    requires
        0 <= from,
    ensures
        forall|k: int|
            0 <= k < lines_from(text, from).len() ==> unbroken(#[trigger] lines_from(text, from)[k]),
    decreases text.len() - from,
{
    if from < text.len() {
        lemma_first_line_feed(text, from);
        let end = line_feed_from(text, from);
        if end < text.len() {
            let line = without_return(text.subrange(from, end));
            assert(unbroken(line)) by {
                assert forall|i: int| 0 <= i < line.len() implies #[trigger] line[i] != '\n' by {
                    assert(line[i] == text[from + i]);
                }
            }
            lemma_lines_unbroken(text, end + 1);
            assert forall|k: int| 0 <= k < lines_from(text, from).len() implies unbroken(
                #[trigger] lines_from(text, from)[k],
            ) by {
                if k > 0 {
                    assert(lines_from(text, from)[k] == lines_from(text, end + 1)[k - 1]);
                }
            }
        } else {
            assert(unbroken(text.skip(from))) by {
                assert forall|i: int| 0 <= i < text.skip(from).len() implies #[trigger] text.skip(
                    from,
                )[i] != '\n' by {
                    assert(text.skip(from)[i] == text[from + i]);
                }
            }
        }
    }
}

proof fn lemma_first_line_feed(text: Seq<char>, from: int)
    requires
        0 <= from <= text.len(),
    ensures
        from <= line_feed_from(text, from) <= text.len(),
        forall|i: int| from <= i < line_feed_from(text, from) ==> #[trigger] text[i] != '\n',
        line_feed_from(text, from) < text.len() ==> text[line_feed_from(text, from)] == '\n',
    decreases text.len() - from,
{
    if from < text.len() && text[from] != '\n' {
        lemma_first_line_feed(text, from + 1);
    }
}

proof fn lemma_line_feed_in_prefix(a: Seq<char>, b: Seq<char>, from: int)
    requires
        0 <= from < a.len(),
        a.last() == '\n',
    ensures
        line_feed_from(a + b, from) == line_feed_from(a, from) < a.len(),
    decreases a.len() - from,
{
    assert((a + b)[from] == a[from]);
    if a[from] != '\n' {
        lemma_line_feed_in_prefix(a, b, from + 1);
    }
}

proof fn lemma_line_feed_in_suffix(a: Seq<char>, b: Seq<char>, from: int)
    requires
        0 <= from,
    ensures
        line_feed_from(a + b, a.len() + from) == a.len() + line_feed_from(b, from),
    decreases b.len() - from,
{
    if from < b.len() {
        assert((a + b)[a.len() + from] == b[from]);
        if b[from] != '\n' {
            lemma_line_feed_in_suffix(a, b, from + 1);
        }
    }
}

proof fn lemma_lines_in_suffix(a: Seq<char>, b: Seq<char>, from: int)
    requires
        0 <= from,
    ensures
        lines_from(a + b, a.len() + from) == lines_from(b, from),
    decreases b.len() - from,
{
    if from < b.len() {
        lemma_line_feed_in_suffix(a, b, from);
        lemma_first_line_feed(b, from);
        let end = line_feed_from(b, from);
        assert((a + b).skip(a.len() + from) =~= b.skip(from));
        if end < b.len() {
            assert((a + b).subrange(a.len() + from, a.len() + end) =~= b.subrange(from, end));
            lemma_lines_in_suffix(a, b, end + 1);
        }
    }
}

proof fn lemma_lines_concat_from(a: Seq<char>, b: Seq<char>, from: int)
    requires
        0 <= from <= a.len(),
        a.len() > 0 ==> a.last() == '\n',
    ensures
        lines_from(a + b, from) == lines_from(a, from) + lines(b),
    decreases a.len() - from,
{
    if from == a.len() {
        lemma_lines_in_suffix(a, b, 0);
        assert(lines_from(a, from) + lines(b) =~= lines(b));
    } else {
        lemma_line_feed_in_prefix(a, b, from);
        lemma_first_line_feed(a, from);
        let end = line_feed_from(a, from);
        assert((a + b).subrange(from, end) =~= a.subrange(from, end));
        lemma_lines_concat_from(a, b, end + 1);
        let line = without_return(a.subrange(from, end));
        assert((seq![line] + lines_from(a, end + 1)) + lines(b) =~= seq![line] + (lines_from(
            a,
            end + 1,
        ) + lines(b)));
    }
}

/// The lines of a text that ends with a line feed, with another text behind it, are the
/// lines of the one and the lines of the other.
pub proof fn lemma_lines_concat(a: Seq<char>, b: Seq<char>)
    requires
        a.len() > 0 ==> a.last() == '\n',
    ensures
        lines(a + b) == lines(a) + lines(b),
{
    lemma_lines_concat_from(a, b, 0);
}

/// A text with one line feed, at its end, is one line.
pub proof fn lemma_one_line(line: Seq<char>)
    requires
        unbroken(line),
    ensures
        lines(line.push('\n')) == seq![without_return(line)],
{
    let text = line.push('\n');
    lemma_line_feed_from(text, 0, line.len() as int);
    assert(text.subrange(0, line.len() as int) =~= line);
    assert(lines_from(text, text.len() as int) =~= Seq::<Seq<char>>::empty());
    assert(lines(text) =~= seq![without_return(line)]);
}

/// A last line needs no line feed and is kept as it is, a carriage return at its end
/// included; an empty text has no line.
pub proof fn lemma_last_line(line: Seq<char>)
    requires
        unbroken(line),
    ensures
        line.len() > 0 ==> lines(line) == seq![line],
        line.len() == 0 ==> lines(line).len() == 0,
{
    if line.len() > 0 {
        lemma_line_feed_from(line, 0, line.len() as int);
        assert(line.skip(0) =~= line);
    }
}

/// A line feed ends a line, and so does a carriage return with a line feed behind it: the
/// line comes back without either.
pub proof fn lemma_line_endings(line: Seq<char>)
    requires
        unbroken(line),
    ensures
        line.len() == 0 || line.last() != '\r' ==> lines(line + seq!['\n']) == seq![line],
        lines(line + seq!['\r', '\n']) == seq![line],
{
    let returned = line.push('\r');
    assert(line + seq!['\n'] =~= line.push('\n'));
    assert(line + seq!['\r', '\n'] =~= returned.push('\n'));
    assert(returned.drop_last() =~= line);
    lemma_one_line(line);
    lemma_one_line(returned);
}

/// `n` blanks are `n` characters, each of them a blank.
pub proof fn lemma_blanks(n: nat)
    ensures
        blanks(n).len() == n,
        forall|i: int| 0 <= i < n ==> #[trigger] blanks(n)[i] == ' ',
{
}

/// The texts of strings are as many as the strings and stand in their order.
pub proof fn lemma_texts(strings: Seq<String>, i: int)
    requires
        0 <= i < strings.len(),
    ensures
        texts(strings).len() == strings.len(),
        texts(strings)[i] == strings[i]@,
        opt_text(Some(strings[i])) == Some(strings[i]@),
{
}

} // verus!
