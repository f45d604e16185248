//! Text helpers shared by the collectors: decimal rendering and the
//! line structure of a metric fragment.

use vstd::prelude::*;
use vstd::string::*;

verus! {

/// The character that stands for the digit `d`, for `d < 10`.
pub open spec fn digit_char(d: nat) -> char {
    if d == 0 {
        '0'
    } else if d == 1 {
        '1'
    } else if d == 2 {
        '2'
    } else if d == 3 {
        '3'
    } else if d == 4 {
        '4'
    } else if d == 5 {
        '5'
    } else if d == 6 {
        '6'
    } else if d == 7 {
        '7'
    } else if d == 8 {
        '8'
    } else {
        '9'
    }
}

/// The decimal numeral of `n`, without sign and without leading zeros.
pub open spec fn decimal(n: nat) -> Seq<char>
    decreases n,
{
    if n < 10 {
        seq![digit_char(n)]
    } else {
        decimal(n / 10).push(digit_char(n % 10))
    }
}

/// The one-character string of a single digit.
fn digit_str(d: u64) -> (s: &'static str)
    requires
        d < 10,
    ensures
        s@ == seq![digit_char(d as nat)],
{
    proof {
        reveal_strlit("0");
        reveal_strlit("1");
        reveal_strlit("2");
        reveal_strlit("3");
        reveal_strlit("4");
        reveal_strlit("5");
        reveal_strlit("6");
        reveal_strlit("7");
        reveal_strlit("8");
        reveal_strlit("9");
    }
    let s: &'static str = if d == 0 {
        "0"
    } else if d == 1 {
        "1"
    } else if d == 2 {
        "2"
    } else if d == 3 {
        "3"
    } else if d == 4 {
        "4"
    } else if d == 5 {
        "5"
    } else if d == 6 {
        "6"
    } else if d == 7 {
        "7"
    } else if d == 8 {
        "8"
    } else {
        "9"
    };
    assert(s@ =~= seq![digit_char(d as nat)]);
    s
}

/// Appends the decimal numeral of `n` to `out`.
pub fn push_decimal(out: &mut String, n: u64)
    ensures
        final(out)@ == old(out)@ + decimal(n as nat),
    decreases n,
{
    if n >= 10 {
        push_decimal(out, n / 10);
    }
    out.append(digit_str(n % 10));
    assert(out@ =~= old(out)@ + decimal(n as nat));
}

/// The decimal numeral of `n` as a string.
pub fn decimal_string(n: u64) -> (s: String)
    ensures
        s@ == decimal(n as nat),
{
    let mut s = String::new();
    push_decimal(&mut s, n);
    assert(s@ =~= decimal(n as nat));
    s
}

/// One line of a fragment: the metric name, a space, the value, a newline.
pub open spec fn metric_line(name: Seq<char>, value: Seq<char>) -> Seq<char> {
    name + " "@ + value + "\n"@
}

/// A text that ends with a line of a fragment is a block of whole lines.
pub proof fn lemma_line_ends_block(before: Seq<char>, name: Seq<char>, value: Seq<char>)
    ensures
        is_block(before + metric_line(name, value)),
        is_block(metric_line(name, value)),
{
    reveal_strlit("\n");
    let line = metric_line(name, value);
    assert(line.last() == '\n');
    assert((before + line).last() == line.last());
}

/// Appends one line of a fragment to `out`.
pub fn push_line(out: &mut String, name: &str, value: &str)
    ensures
        final(out)@ == old(out)@ + metric_line(name@, value@),
        is_block(final(out)@),
{
    out.append(name);
    out.append(" ");
    out.append(value);
    out.append("\n");
    proof {
        assert(out@ =~= old(out)@ + metric_line(name@, value@));
        lemma_line_ends_block(old(out)@, name@, value@);
    }
}

/// Whether two strings hold the same text.
pub fn same_text(a: &str, b: &str) -> (r: bool)
    ensures
        r == (a@ == b@),
{
    let left = String::from_str(a);
    let right = String::from_str(b);
    left == right
}

/// The texts of a list in which some places are empty, as mathematical values.
pub open spec fn optional_texts(items: Seq<Option<String>>) -> Seq<Option<Seq<char>>> {
    items.map_values(
        |item: Option<String>|
            match item {
                Some(text) => Some(text@),
                None => None,
            },
    )
}

/// Whether `at` places the items of `a` in `b`: item `i` of `a` stands at
/// `at[i]` in `b`, and the places rise with `i`.
pub open spec fn is_embedding<T>(a: Seq<T>, b: Seq<T>, at: Seq<int>) -> bool {
    &&& at.len() == a.len()
    &&& forall|i: int| 0 <= i < a.len() ==> 0 <= #[trigger] at[i] < b.len() && b[at[i]] == a[i]
    &&& forall|i: int, j: int| 0 <= i < j < a.len() ==> #[trigger] at[i] < #[trigger] at[j]
}

/// Whether `a` is a subsequence of `b`: the items of `a` all stand in `b`,
/// in the same relative order.
pub open spec fn is_subsequence<T>(a: Seq<T>, b: Seq<T>) -> bool {
    exists|at: Seq<int>| is_embedding(a, b, at)
}

/// Every sequence is a subsequence of itself.
pub proof fn lemma_subsequence_refl<T>(a: Seq<T>)
    ensures
        is_subsequence(a, a),
{
    let at = Seq::new(a.len(), |i: int| i);
    assert(is_embedding(a, a, at));
}

/// The empty sequence is a subsequence of every sequence.
pub proof fn lemma_subsequence_empty<T>(b: Seq<T>)
    ensures
        is_subsequence(Seq::<T>::empty(), b),
{
    assert(is_embedding(Seq::<T>::empty(), b, Seq::<int>::empty()));
}

/// Subsequences join: where `a1` is one of `b1` and `a2` one of `b2`, `a1`
/// followed by `a2` is one of `b1` followed by `b2`.
pub proof fn lemma_subsequence_concat<T>(a1: Seq<T>, b1: Seq<T>, a2: Seq<T>, b2: Seq<T>)
    requires
        is_subsequence(a1, b1),
        is_subsequence(a2, b2),
    ensures
        is_subsequence(a1 + a2, b1 + b2),
{
    let at1 = choose|at: Seq<int>| is_embedding(a1, b1, at);
    let at2 = choose|at: Seq<int>| is_embedding(a2, b2, at);
    let a = a1 + a2;
    let b = b1 + b2;
    let at = Seq::new(
        a.len(),
        |i: int|
            if i < a1.len() {
                at1[i]
            } else {
                at2[i - a1.len()] + b1.len()
            },
    );
    assert forall|i: int| 0 <= i < a.len() implies 0 <= #[trigger] at[i] < b.len() && b[at[i]]
        == a[i] by {
        if i < a1.len() {
            assert(0 <= at1[i] < b1.len());
        } else {
            assert(0 <= at2[i - a1.len()] < b2.len());
        }
    }
    assert forall|i: int, j: int| 0 <= i < j < a.len() implies #[trigger] at[i] < #[trigger] at[j] by {
        if j < a1.len() {
            assert(at1[i] < at1[j]);
        } else if i < a1.len() {
            assert(0 <= at1[i] < b1.len());
            assert(0 <= at2[j - a1.len()]);
        } else {
            assert(at2[i - a1.len()] < at2[j - a1.len()]);
        }
    }
    assert(is_embedding(a, b, at));
}

/// Whether a text is a block of whole lines: it is empty or ends in a
/// newline.
pub open spec fn is_block(s: Seq<char>) -> bool {
    s.len() == 0 || s.last() == '\n'
}

/// The length of the first line of a text: the number of characters before
/// its first newline, or its whole length where it has none.
pub open spec fn first_line_len(s: Seq<char>) -> int
    decreases s.len(),
{
    if s.len() == 0 || s[0] == '\n' {
        0
    } else {
        1 + first_line_len(s.skip(1))
    }
}

/// The lines of a text: the text before the first newline, then the lines
/// of what follows that newline. A text that does not end in a newline has
/// its rest as last line.
pub open spec fn lines(s: Seq<char>) -> Seq<Seq<char>>
    decreases s.len(),
    via lines_decreases
{
    if s.len() == 0 {
        Seq::empty()
    } else {
        let k = first_line_len(s);
        if k < s.len() {
            seq![s.take(k)] + lines(s.skip(k + 1))
        } else {
            seq![s]
        }
    }
}

#[via_fn]
proof fn lines_decreases(s: Seq<char>) {
    lemma_first_line_len(s);
}

/// The first line ends at the first newline: no character before its end is
/// a newline, and where it ends inside the text a newline stands there.
pub proof fn lemma_first_line_len(s: Seq<char>)
    ensures
        0 <= first_line_len(s) <= s.len(),
        first_line_len(s) < s.len() ==> s[first_line_len(s)] == '\n',
        forall|i: int| 0 <= i < first_line_len(s) ==> s[i] != '\n',
    decreases s.len(),
{
    if s.len() == 0 || s[0] == '\n' {
    } else {
        let rest = s.skip(1);
        lemma_first_line_len(rest);
        let k = first_line_len(rest);
        assert forall|i: int| 0 <= i < k + 1 implies s[i] != '\n' by {
            if i > 0 {
                assert(rest[i - 1] == s[i]);
            }
        }
        if k < rest.len() {
            assert(rest[k] == s[k + 1]);
        }
    }
}

/// The place of the first newline decides the length of the first line.
pub proof fn lemma_first_line_len_is(s: Seq<char>, k: int)
    requires
        0 <= k < s.len(),
        s[k] == '\n',
        forall|i: int| 0 <= i < k ==> s[i] != '\n',
    ensures
        first_line_len(s) == k,
{
    lemma_first_line_len(s);
    let f = first_line_len(s);
    if f < k {
        assert(s[f] == '\n');
    } else if f > k {
        assert(s[k] != '\n');
    }
}

/// The lines of a block followed by a text are the lines of the block
/// followed by the lines of the text.
pub proof fn lemma_lines_concat(a: Seq<char>, b: Seq<char>)
    requires
        is_block(a),
    ensures
        lines(a + b) == lines(a) + lines(b),
    decreases a.len(),
{
    if a.len() == 0 {
        assert(a + b =~= b);
        assert(lines(a) + lines(b) =~= lines(b));
    } else {
        lemma_first_line_len(a);
        let k = first_line_len(a);
        if k == a.len() {
            assert(a[a.len() - 1] != '\n');
        }
        let ab = a + b;
        assert forall|i: int| 0 <= i < k implies ab[i] != '\n' by {
            assert(ab[i] == a[i]);
        }
        assert(ab[k] == a[k]);
        lemma_first_line_len_is(ab, k);
        let rest = a.skip(k + 1);
        assert(ab.take(k) =~= a.take(k));
        assert(ab.skip(k + 1) =~= rest + b);
        if rest.len() > 0 {
            assert(rest.last() == a.last());
        }
        lemma_lines_concat(rest, b);
        assert(lines(ab) == seq![a.take(k)] + lines(rest + b));
        assert(lines(a) == seq![a.take(k)] + lines(rest));
        assert(seq![a.take(k)] + (lines(rest) + lines(b)) =~= (seq![a.take(k)] + lines(rest))
            + lines(b));
    }
}

/// Blocks join to a block.
pub proof fn lemma_block_concat(a: Seq<char>, b: Seq<char>)
    requires
        is_block(a),
        is_block(b),
    ensures
        is_block(a + b),
{
    if b.len() == 0 {
        assert(a + b =~= a);
    } else {
        assert((a + b).last() == b.last());
    }
}

/// The characters of a string.
pub fn chars_of(s: &str) -> (out: Vec<char>)
    ensures
        out@ == s@,
{
    let mut out: Vec<char> = Vec::new();
    for c in it: s.chars()
        invariant
            it.seq() == s@,
            out@ == it.seq().take(it.index()),
    {
        out.push(c);
    }
    assert(out@ =~= s@);
    out
}

/// Whether a character is ASCII whitespace: space, tab, line feed, form
/// feed or carriage return.
pub open spec fn is_space(c: char) -> bool {
    c == ' ' || c == '\t' || c == '\n' || c == '\x0C' || c == '\r'
}

/// The length of the run at the start of a text whose characters are all
/// whitespace (`space`) or all not.
pub open spec fn run_len(s: Seq<char>, space: bool) -> int
    decreases s.len(),
{
    if s.len() == 0 || is_space(s[0]) != space {
        0
    } else {
        1 + run_len(s.skip(1), space)
    }
}

/// The words of a text: its maximal runs of characters that are not ASCII
/// whitespace, in order.
pub open spec fn words(s: Seq<char>) -> Seq<Seq<char>>
    decreases s.len(),
    via words_decreases
{
    let a = run_len(s, true);
    if a >= s.len() {
        Seq::empty()
    } else {
        let b = run_len(s.skip(a), false);
        seq![s.subrange(a, a + b)] + words(s.skip(a + b))
    }
}

#[via_fn]
proof fn words_decreases(s: Seq<char>) {
    let a = run_len(s, true);
    lemma_run_len(s, true);
    if a < s.len() {
        lemma_run_len(s.skip(a), false);
        assert(s.skip(a)[0] == s[a]);
    }
}

/// A run ends where the kind of character changes or the text ends.
pub proof fn lemma_run_len(s: Seq<char>, space: bool)
    ensures
        0 <= run_len(s, space) <= s.len(),
        run_len(s, space) < s.len() ==> is_space(s[run_len(s, space)]) != space,
        forall|i: int| 0 <= i < run_len(s, space) ==> is_space(s[i]) == space,
        s.len() > 0 && is_space(s[0]) == space ==> run_len(s, space) > 0,
    decreases s.len(),
{
    if s.len() == 0 || is_space(s[0]) != space {
    } else {
        let rest = s.skip(1);
        lemma_run_len(rest, space);
        let r = run_len(rest, space);
        assert forall|i: int| 0 <= i < r + 1 implies is_space(s[i]) == space by {
            if i > 0 {
                assert(rest[i - 1] == s[i]);
            }
        }
        if r < rest.len() {
            assert(rest[r] == s[r + 1]);
        }
    }
}

/// The place where the kind of character changes decides the length of the
/// run.
pub proof fn lemma_run_len_is(s: Seq<char>, space: bool, r: int)
    requires
        0 <= r <= s.len(),
        forall|i: int| 0 <= i < r ==> is_space(s[i]) == space,
        r < s.len() ==> is_space(s[r]) != space,
    ensures
        run_len(s, space) == r,
{
    lemma_run_len(s, space);
    let f = run_len(s, space);
    if f < r {
        assert(is_space(s[f]) == space);
    } else if f > r {
        assert(is_space(s[r]) == space);
    }
}

/// The texts of a list of strings.
pub open spec fn texts(items: Seq<String>) -> Seq<Seq<char>> {
    items.map_values(|item: String| item@)
}

/// Whether a character is ASCII whitespace.
pub fn is_space_char(c: char) -> (r: bool)
    ensures
        r == is_space(c),
{
    c == ' ' || c == '\t' || c == '\n' || c == '\x0C' || c == '\r'
}

/// Splits a text into its words.
pub fn split_words(line: &str) -> (out: Vec<String>)
    ensures
        texts(out@) == words(line@),
{
    let chars = chars_of(line);
    let n: usize = chars.len();
    let mut out: Vec<String> = Vec::new();
    let mut i: usize = 0;
    proof {
        assert(chars@.skip(0) =~= chars@);
        assert(texts(out@) + words(chars@) =~= words(chars@));
    }
    while i < n
        invariant
            i <= n,
            n == chars@.len(),
            chars@ == line@,
            texts(out@) + words(chars@.skip(i as int)) == words(chars@),
        decreases n - i,
    {
        let ghost rest = chars@.skip(i as int);
        let mut a: usize = i;
        while a < n && is_space_char(chars[a])
            invariant
                i <= a <= n,
                n == chars@.len(),
                forall|k: int| i <= k < a ==> is_space(chars@[k]),
            decreases n - a,
        {
            a += 1;
        }
        proof {
            assert forall|k: int| 0 <= k < a - i implies is_space(rest[k]) == true by {
                assert(rest[k] == chars@[k + i]);
            }
            if a < n {
                assert(rest[a - i] == chars@[a as int]);
            }
            lemma_run_len_is(rest, true, a - i);
        }
        if a == n {
            proof {
                assert(words(rest) =~= Seq::<Seq<char>>::empty());
                assert(chars@.skip(n as int) =~= Seq::<char>::empty());
                assert(words(chars@.skip(n as int)) =~= Seq::<Seq<char>>::empty());
            }
            i = n;
        } else {
            let mut b: usize = a + 1;
            while b < n && !is_space_char(chars[b])
                invariant
                    a < b <= n,
                    n == chars@.len(),
                    forall|k: int| a <= k < b ==> !is_space(chars@[k]),
                decreases n - b,
            {
                b += 1;
            }
            let word = String::from_str(line.substring_char(a, b));
            proof {
                let tail = rest.skip(a - i);
                assert(tail =~= chars@.skip(a as int));
                assert forall|k: int| 0 <= k < b - a implies is_space(tail[k]) == false by {
                    assert(tail[k] == chars@[k + a]);
                }
                if b < n {
                    assert(tail[b - a] == chars@[b as int]);
                }
                lemma_run_len_is(tail, false, b - a);
                assert(rest.subrange(a - i, b - i) =~= chars@.subrange(a as int, b as int));
                assert(rest.skip(b - i) =~= chars@.skip(b as int));
                assert(words(rest) == seq![chars@.subrange(a as int, b as int)] + words(
                    chars@.skip(b as int),
                ));
                assert(texts(out@.push(word)) =~= texts(out@) + seq![word@]);
                assert(texts(out@.push(word)) + words(chars@.skip(b as int)) =~= texts(out@) + words(
                    rest,
                ));
            }
            out.push(word);
            i = b;
        }
    }
    proof {
        assert(chars@.skip(n as int) =~= Seq::<char>::empty());
        assert(words(chars@.skip(n as int)) =~= Seq::<Seq<char>>::empty());
        assert(texts(out@) + Seq::<Seq<char>>::empty() =~= texts(out@));
    }
    out
}

/// Whether a text begins with another.
pub open spec fn has_prefix(s: Seq<char>, prefix: Seq<char>) -> bool {
    prefix.len() <= s.len() && s.take(prefix.len() as int) == prefix
}

/// Whether a text begins with another.
pub fn starts_with(s: &str, prefix: &str) -> (r: bool)
    ensures
        r == has_prefix(s@, prefix@),
{
    let text = chars_of(s);
    let head = chars_of(prefix);
    if head.len() > text.len() {
        return false;
    }
    let mut i: usize = 0;
    while i < head.len()
        invariant
            i <= head.len() <= text.len(),
            text@ == s@,
            head@ == prefix@,
            forall|k: int| 0 <= k < i ==> text@[k] == head@[k],
        decreases head.len() - i,
    {
        if text[i] != head[i] {
            proof {
                assert(text@.take(head@.len() as int)[i as int] == text@[i as int]);
            }
            return false;
        }
        i += 1;
    }
    proof {
        assert(text@.take(head@.len() as int) =~= head@);
    }
    true
}

/// Whether a character is a decimal digit.
pub open spec fn is_digit(c: char) -> bool {
    '0' <= c && c <= '9'
}

/// Whether a text is made of decimal digits alone.
pub open spec fn all_digits(s: Seq<char>) -> bool {
    forall|i: int| 0 <= i < s.len() ==> is_digit(#[trigger] s[i])
}

/// The number that a text of decimal digits writes.
pub open spec fn digits_value(s: Seq<char>) -> nat
    decreases s.len(),
{
    if s.len() == 0 {
        0
    } else {
        digits_value(s.drop_last()) * 10 + ((s.last() as u32 - '0' as u32) as nat)
    }
}

/// The number that a text writes as an unsigned decimal numeral: digits,
/// at least one, after at most one plus sign. `None` for any other text.
pub open spec fn unsigned_value(s: Seq<char>) -> Option<nat> {
    let body = if s.len() > 0 && s[0] == '+' {
        s.skip(1)
    } else {
        s
    };
    if body.len() > 0 && all_digits(body) {
        Some(digits_value(body))
    } else {
        None
    }
}

/// A numeral is at least as large as each of its beginnings.
pub proof fn lemma_digits_value_grows(s: Seq<char>, k: int)
    requires
        0 <= k <= s.len(),
    ensures
        digits_value(s.take(k)) <= digits_value(s),
    decreases s.len(),
{
    if k == s.len() {
        assert(s.take(k) =~= s);
    } else {
        lemma_digits_value_grows(s.drop_last(), k);
        assert(s.drop_last().take(k) =~= s.take(k));
    }
}

/// Reads an unsigned decimal numeral that fits 64 bits.
pub fn parse_u64(s: &str) -> (out: Option<u64>)
    ensures
        out == match unsigned_value(s@) {
            Some(v) => if v <= u64::MAX {
                Some(v as u64)
            } else {
                None
            },
            None => None,
        },
{
    let chars = chars_of(s);
    let n: usize = chars.len();
    let start: usize = if n > 0 && chars[0] == '+' {
        1
    } else {
        0
    };
    let ghost body = chars@.skip(start as int);
    proof {
        assert(chars@.skip(0) =~= chars@);
        assert(unsigned_value(s@) == if body.len() > 0 && all_digits(body) {
            Some(digits_value(body))
        } else {
            None
        });
    }
    if start == n {
        return None;
    }
    let mut acc: u64 = 0;
    let mut i: usize = start;
    proof {
        assert(body.take(0) =~= Seq::<char>::empty());
    }
    while i < n
        invariant
            start <= i <= n,
            n == chars@.len(),
            body == chars@.skip(start as int),
            unsigned_value(s@) == if body.len() > 0 && all_digits(body) {
                Some(digits_value(body))
            } else {
                None::<nat>
            },
            all_digits(body.take(i - start)),
            acc == digits_value(body.take(i - start)),
        decreases n - i,
    {
        let c = chars[i];
        let ghost upto = body.take(i - start + 1);
        proof {
            assert(body[i - start] == c);
            assert(upto.drop_last() =~= body.take(i - start));
            assert(upto.last() == c);
        }
        if !(c >= '0' && c <= '9') {
            proof {
                assert(!is_digit(body[i - start]));
            }
            return None;
        }
        let d: u64 = (c as u32 - '0' as u32) as u64;
        if acc > (u64::MAX - d) / 10 {
            proof {
                assert(digits_value(upto) > u64::MAX);
                lemma_digits_value_grows(body, i - start + 1);
            }
            return None;
        }
        acc = acc * 10 + d;
        proof {
            assert forall|k: int| 0 <= k < upto.len() implies is_digit(#[trigger] upto[k]) by {
                if k < i - start {
                    assert(body.take(i - start)[k] == upto[k]);
                }
            }
        }
        i += 1;
    }
    proof {
        assert(body.take(n - start) =~= body);
    }
    Some(acc)
}

/// What is wrong with a line of input.
#[derive(Clone, Copy, Debug, PartialEq, Eq, Structural)]
pub enum ParseErrorKind {
    /// A field that the line must have is not there.
    MissingField,
    /// The unit after a value is not the expected one.
    BadUnit,
    /// A value is not an unsigned decimal number of 64 bits.
    BadNumber,
    /// A value is too large to be converted.
    TooLarge,
    /// The line has not the number of fields that its kind has.
    FieldCount,
}

/// The first line of an input that cannot be read, by its place, and what
/// is wrong with it.
#[derive(Clone, Copy, Debug, PartialEq, Eq, Structural)]
pub struct ParseError {
    pub line: usize,
    pub kind: ParseErrorKind,
}

/// Whether a character is white space in the sense of Unicode.
pub open spec fn is_whitespace(c: char) -> bool {
    ||| '\u{9}' <= c && c <= '\u{d}'
    ||| c == ' '
    ||| c == '\u{85}'
    ||| c == '\u{a0}'
    ||| c == '\u{1680}'
    ||| '\u{2000}' <= c && c <= '\u{200a}'
    ||| c == '\u{2028}'
    ||| c == '\u{2029}'
    ||| c == '\u{202f}'
    ||| c == '\u{205f}'
    ||| c == '\u{3000}'
}

/// Whether a character is white space in the sense of Unicode.
pub fn is_whitespace_char(c: char) -> (r: bool)
    ensures
        r == is_whitespace(c),
{
    (c >= '\u{9}' && c <= '\u{d}') || c == ' ' || c == '\u{85}' || c == '\u{a0}' || c
        == '\u{1680}' || (c >= '\u{2000}' && c <= '\u{200a}') || c == '\u{2028}' || c
        == '\u{2029}' || c == '\u{202f}' || c == '\u{205f}' || c == '\u{3000}'
}

/// Whether `[from, to)` is the first word of a text: white space before
/// it, none in it, and white space or the end of the text after it.
pub open spec fn is_first_word(s: Seq<char>, from: int, to: int) -> bool {
    &&& 0 <= from < to <= s.len()
    &&& forall|i: int| 0 <= i < from ==> is_whitespace(#[trigger] s[i])
    &&& forall|i: int| from <= i < to ==> !is_whitespace(#[trigger] s[i])
    &&& to < s.len() ==> is_whitespace(s[to])
}

/// Whether a text is white space throughout.
pub open spec fn is_blank(s: Seq<char>) -> bool {
    forall|i: int| 0 <= i < s.len() ==> is_whitespace(#[trigger] s[i])
}

/// The first word of a text: its first maximal run of characters that are
/// not white space. `None` for a text that is white space throughout.
pub open spec fn first_word(s: Seq<char>) -> Option<Seq<char>> {
    if is_blank(s) {
        None
    } else {
        let (from, to) = choose|from: int, to: int| is_first_word(s, from, to);
        Some(s.subrange(from, to))
    }
}

/// A text has at most one first word.
pub proof fn lemma_first_word_unique(s: Seq<char>, from: int, to: int, from2: int, to2: int)
    requires
        is_first_word(s, from, to),
        is_first_word(s, from2, to2),
    ensures
        from == from2,
        to == to2,
{
    if from < from2 {
        assert(is_whitespace(s[from]));
    } else if from2 < from {
        assert(is_whitespace(s[from2]));
    }
    if to < to2 {
        assert(!is_whitespace(s[to]));
    } else if to2 < to {
        assert(!is_whitespace(s[to2]));
    }
}

/// The first word of a text.
pub fn get_first_word(s: &str) -> (out: Option<String>)
    ensures
        match out {
            Some(word) => first_word(s@) == Some(word@),
            None => first_word(s@) is None,
        },
{
    let chars = chars_of(s);
    let n: usize = chars.len();
    let mut a: usize = 0;
    while a < n && is_whitespace_char(chars[a])
        invariant
            a <= n,
            n == chars@.len(),
            forall|k: int| 0 <= k < a ==> is_whitespace(#[trigger] chars@[k]),
        decreases n - a,
    {
        a += 1;
    }
    if a == n {
        return None;
    }
    let mut b: usize = a + 1;
    while b < n && !is_whitespace_char(chars[b])
        invariant
            a < b <= n,
            n == chars@.len(),
            forall|k: int| a <= k < b ==> !is_whitespace(#[trigger] chars@[k]),
        decreases n - b,
    {
        b += 1;
    }
    let word = String::from_str(s.substring_char(a, b));
    proof {
        assert(is_first_word(s@, a as int, b as int));
        assert(!is_whitespace(s@[a as int]));
        assert(!is_blank(s@));
        let (from, to) = choose|from: int, to: int| is_first_word(s@, from, to);
        lemma_first_word_unique(s@, a as int, b as int, from, to);
    }
    Some(word)
}

/// Whether a text is a decimal value: digits, at least one, with at most
/// one point among them.
pub open spec fn is_decimal_text(s: Seq<char>) -> bool {
    &&& forall|i: int| 0 <= i < s.len() ==> is_digit(#[trigger] s[i]) || s[i] == '.'
    &&& exists|i: int| 0 <= i < s.len() && is_digit(#[trigger] s[i])
    &&& forall|i: int, j: int|
        0 <= i < j < s.len() ==> !(#[trigger] s[i] == '.' && #[trigger] s[j] == '.')
}

/// Whether a text is a decimal value.
pub fn is_decimal(s: &str) -> (r: bool)
    ensures
        r == is_decimal_text(s@),
{
    let chars = chars_of(s);
    let n: usize = chars.len();
    let mut seen_digit = false;
    let mut seen_point = false;
    let ghost mut digit_at: int = 0;
    let ghost mut point_at: int = 0;
    let mut i: usize = 0;
    while i < n
        invariant
            i <= n,
            n == chars@.len(),
            chars@ == s@,
            forall|k: int| 0 <= k < i ==> is_digit(#[trigger] chars@[k]) || chars@[k] == '.',
            seen_digit ==> 0 <= digit_at < i && is_digit(chars@[digit_at]),
            !seen_digit ==> forall|k: int| 0 <= k < i ==> !is_digit(#[trigger] chars@[k]),
            seen_point ==> 0 <= point_at < i && chars@[point_at] == '.',
            seen_point ==> forall|k: int|
                0 <= k < i && k != point_at ==> #[trigger] chars@[k] != '.',
            !seen_point ==> forall|k: int| 0 <= k < i ==> #[trigger] chars@[k] != '.',
        decreases n - i,
    {
        let c = chars[i];
        if c >= '0' && c <= '9' {
            proof {
                digit_at = i as int;
            }
            seen_digit = true;
        } else if c == '.' {
            if seen_point {
                proof {
                    assert(chars@[point_at] == '.' && chars@[i as int] == '.');
                }
                return false;
            }
            proof {
                point_at = i as int;
            }
            seen_point = true;
        } else {
            proof {
                assert(!(is_digit(chars@[i as int]) || chars@[i as int] == '.'));
            }
            return false;
        }
        i += 1;
    }
    proof {
        if seen_digit {
            assert(is_digit(s@[digit_at]));
        }
    }
    seen_digit
}

} // verus!
