//! Building text: decimal numerals, runs of spaces, and the lines of a source.

use vstd::prelude::*;

verus! {

/// The character of a decimal digit `d < 10`.
pub open spec fn digit_char(d: nat) -> char {
    ((d + 48) as u32) as char
}

/// The decimal numeral of `n`, without leading zeros.
pub open spec fn decimal(n: nat) -> Seq<char>
    decreases n,
{
    if n < 10 {
        seq![digit_char(n)]
    } else {
        decimal(n / 10).push(digit_char(n % 10))
    }
}

/// The number a string of decimal digits denotes, read in base 10.
pub open spec fn numeral_value(digits: Seq<char>) -> int
    decreases digits.len(),
{
    if digits.len() == 0 {
        0
    } else {
        numeral_value(digits.drop_last()) * 10 + (digits.last() as int - 48)
    }
}

/// The numeral of `n` is a nonempty string of decimal digits, without a
/// leading zero unless it is `0` itself, that reads back as `n`.
pub proof fn lemma_decimal_reads_back(n: nat)
    ensures
        numeral_value(decimal(n)) == n,
        decimal(n).len() > 0,
        forall|i: int| 0 <= i < decimal(n).len() ==> 48 <= #[trigger] (decimal(n)[i] as int) <= 57,
        decimal(n)[0] == '0' ==> n == 0,
    decreases n,
{
    if n < 10 {
        assert(digit_char(n) as int == n + 48);
        assert(decimal(n).drop_last() =~= Seq::<char>::empty());
        assert(numeral_value(Seq::<char>::empty()) == 0);
        assert(numeral_value(decimal(n)) == 0 * 10 + (digit_char(n) as int - 48));
    } else {
        lemma_decimal_reads_back(n / 10);
        let d = digit_char(n % 10);
        assert(d as int == n % 10 + 48);
        assert(decimal(n).drop_last() =~= decimal(n / 10));
        assert((n / 10) * 10 + n % 10 == n) by (nonlinear_arith);
        assert(decimal(n).last() == d);
        assert(numeral_value(decimal(n)) == numeral_value(decimal(n / 10)) * 10 + (d as int - 48));
        assert forall|i: int| 0 <= i < decimal(n).len() implies 48 <= #[trigger] (
        decimal(n)[i] as int) <= 57 by {
            if i < decimal(n / 10).len() {
                assert(decimal(n)[i] == decimal(n / 10)[i]);
            }
        }
        assert(decimal(n)[0] == decimal(n / 10)[0]);
    }
}

/// A run of `n` spaces.
pub open spec fn spaces(n: nat) -> Seq<char> {
    Seq::new(n, |i: int| ' ')
}

/// `line` without one trailing carriage return, if it has one.
pub open spec fn strip_cr(line: Seq<char>) -> Seq<char> {
    if line.len() > 0 && line.last() == '\r' {
        line.drop_last()
    } else {
        line
    }
}

/// Reading `s` from the left: the lines closed by a line feed so far, and
/// the text read since the last line feed.
pub open spec fn split_state(s: Seq<char>) -> (Seq<Seq<char>>, Seq<char>)
    decreases s.len(),
{
    if s.len() == 0 {
        (seq![], seq![])
    } else {
        let (closed, current) = split_state(s.drop_last());
        if s.last() == '\n' {
            (closed.push(strip_cr(current)), seq![])
        } else {
            (closed, current.push(s.last()))
        }
    }
}

/// The lines of `s`: split at each `\n`, a `\r` right before a `\n` dropped
/// with it, and no empty line after a final line feed.
pub open spec fn lines(s: Seq<char>) -> Seq<Seq<char>> {
    let (closed, current) = split_state(s);
    if current.len() == 0 {
        closed
    } else {
        closed.push(current)
    }
}

/// The views of a sequence of strings.
pub open spec fn string_views(v: Seq<String>) -> Seq<Seq<char>> {
    v.map_values(|l: String| l@)
}

/// No line contains a line feed: line terminators are not part of the lines.
pub proof fn lemma_lines_have_no_line_feed(s: Seq<char>)
    ensures
        forall|i: int, j: int|
            0 <= i < lines(s).len() && 0 <= j < lines(s)[i].len() ==> #[trigger] lines(s)[i][j]
                != '\n',
{
    lemma_split_state_no_line_feed(s);
}

proof fn lemma_split_state_no_line_feed(s: Seq<char>)
    ensures
        forall|j: int| 0 <= j < split_state(s).1.len() ==> #[trigger] split_state(s).1[j] != '\n',
        forall|i: int, j: int|
            0 <= i < split_state(s).0.len() && 0 <= j < split_state(s).0[i].len()
                ==> #[trigger] split_state(s).0[i][j] != '\n',
    decreases s.len(),
{
    if s.len() > 0 {
        lemma_split_state_no_line_feed(s.drop_last());
        let (closed, current) = split_state(s.drop_last());
        if s.last() == '\n' {
            assert forall|i: int, j: int|
                0 <= i < split_state(s).0.len() && 0 <= j < split_state(s).0[i].len()
                    implies #[trigger] split_state(s).0[i][j] != '\n' by {
                if i == closed.len() {
                    assert(strip_cr(current)[j] == current[j]);
                } else {
                    assert(split_state(s).0[i] == closed[i]);
                }
            }
        } else {
            assert forall|j: int| 0 <= j < split_state(s).1.len() implies #[trigger] split_state(
                s,
            ).1[j] != '\n' by {
                if j < current.len() {
                    assert(split_state(s).1[j] == current[j]);
                }
            }
        }
    }
}

/// A final line ending is optional: a nonempty text that ends in neither a
/// line feed nor a carriage return has the same lines with `\n` or `\r\n`
/// appended, and one that does not end in a line feed has the same lines
/// with `\r\n` appended.
pub proof fn lemma_lines_final_line_ending_optional(s: Seq<char>)
    requires
        s.len() > 0,
        s.last() != '\n',
    ensures
        s.last() != '\r' ==> lines(s.push('\n')) == lines(s),
        lines(s.push('\r').push('\n')) == lines(s),
{
    let (closed, current) = split_state(s);
    assert(s.push('\n').drop_last() == s);
    assert(s.push('\r').drop_last() == s);
    assert(s.push('\r').push('\n').drop_last() == s.push('\r'));
    assert(current.len() > 0 && current.last() == s.last());
    assert(current.push('\r').drop_last() == current);
    assert(split_state(s.push('\r')) == (closed, current.push('\r')));
    assert(split_state(s.push('\r').push('\n')) == (closed.push(current), Seq::<char>::empty()));
}

proof fn lemma_split_state_no_line_feed_text(p: Seq<char>)
    requires
        forall|i: int| 0 <= i < p.len() ==> p[i] != '\n',
    ensures
        split_state(p) == (Seq::<Seq<char>>::empty(), p),
    decreases p.len(),
{
    if p.len() > 0 {
        lemma_split_state_no_line_feed_text(p.drop_last());
        assert(p.drop_last().push(p.last()) =~= p);
    }
}

proof fn lemma_split_state_after_first_line(p: Seq<char>, q: Seq<char>)
    requires
        forall|i: int| 0 <= i < p.len() ==> p[i] != '\n',
    ensures
        split_state(p.push('\n') + q) == (seq![strip_cr(p)] + split_state(q).0, split_state(q).1),
    decreases q.len(),
{
    let head = p.push('\n');
    if q.len() == 0 {
        assert(head + q =~= head);
        assert(head.drop_last() =~= p);
        lemma_split_state_no_line_feed_text(p);
        assert(seq![strip_cr(p)] + Seq::<Seq<char>>::empty() =~= seq![strip_cr(p)]);
    } else {
        lemma_split_state_after_first_line(p, q.drop_last());
        assert((head + q).drop_last() =~= head + q.drop_last());
        assert((head + q).last() == q.last());
        let (closed, current) = split_state(q.drop_last());
        assert((seq![strip_cr(p)] + closed).push(strip_cr(current)) =~= seq![strip_cr(p)]
            + closed.push(strip_cr(current)));
    }
}

/// A text without a line feed is a single line, or no line at all when it
/// is empty.
pub proof fn lemma_lines_single_line(p: Seq<char>)
    requires
        forall|i: int| 0 <= i < p.len() ==> p[i] != '\n',
    ensures
        lines(p) == if p.len() == 0 {
            Seq::<Seq<char>>::empty()
        } else {
            seq![p]
        },
{
    lemma_split_state_no_line_feed_text(p);
    if p.len() > 0 {
        assert(Seq::<Seq<char>>::empty().push(p) =~= seq![p]);
    }
}

/// The first line is the text before the first line feed, without one
/// carriage return right before that line feed (kept even when empty); the
/// lines after it are the lines of the rest of the text.
pub proof fn lemma_lines_first_line(p: Seq<char>, q: Seq<char>)
    requires
        forall|i: int| 0 <= i < p.len() ==> p[i] != '\n',
    ensures
        lines(p.push('\n') + q) == seq![
            if p.len() > 0 && p.last() == '\r' {
                p.drop_last()
            } else {
                p
            },
        ] + lines(q),
{
    lemma_split_state_after_first_line(p, q);
    let (closed, current) = split_state(q);
    if current.len() > 0 {
        assert((seq![strip_cr(p)] + closed).push(current) =~= seq![strip_cr(p)] + closed.push(
            current,
        ));
    }
}

/// Appends one character (`String::push`).
#[verifier::external_body]
fn push_char(text: &mut String, c: char)
    ensures
        final(text)@ == old(text)@.push(c),
{
    text.push(c);
}

/// Appends the decimal numeral of `n`.
pub fn push_decimal(text: &mut String, n: usize)
    ensures
        final(text)@ == old(text)@ + decimal(n as nat),
    decreases n,
{
    if n >= 10 {
        push_decimal(text, n / 10);
    }
    let d: u8 = (n % 10) as u8;
    let c: char = (d + 48u8) as char;
    push_char(text, c);
    assert(final(text)@ == old(text)@ + decimal(n as nat));
}

/// The number of digits in the decimal numeral of `n`.
pub fn decimal_width(n: usize) -> (width: usize)
    ensures
        width == decimal(n as nat).len(),
    decreases n,
{
    if n >= 10 {
        let w = decimal_width(n / 10);
        proof { lemma_decimal_len_bound(n as nat / 10); }
        w + 1
    } else {
        1
    }
}

/// A numeral is never longer than the number it stands for, plus one.
proof fn lemma_decimal_len_bound(n: nat)
    ensures
        decimal(n).len() <= n + 1,
    decreases n,
{
    if n >= 10 {
        lemma_decimal_len_bound(n / 10);
    }
}

/// Appends `n` spaces.
pub fn push_spaces(text: &mut String, n: usize)
    ensures
        final(text)@ == old(text)@ + spaces(n as nat),
{
    let ghost start = text@;
    let mut i: usize = 0;
    while i < n
        invariant
            i <= n,
            text@ == start + spaces(i as nat),
        decreases n - i,
    {
        push_char(text, ' ');
        i = i + 1;
        assert(text@ =~= start + spaces(i as nat));
    }
}

/// The lines of `source` (`str::lines`), each as an owned string.
pub fn source_lines(source: &str) -> (result: Vec<String>)
    ensures
        string_views(result@) == lines(source@),
{
    broadcast use vstd::string::group_string_axioms;

    let mut closed: Vec<String> = Vec::new();
    let mut current = String::new();
    let mut pending_cr = false;
    let ghost mut read: Seq<char> = seq![];
    for c in it: source.chars()
        invariant
            read == it.seq().take(it.index() as int),
            it.seq() == source@,
            string_views(closed@) == split_state(read).0,
            (if pending_cr { current@.push('\r') } else { current@ }) == split_state(read).1,
            !pending_cr ==> (current@.len() == 0 || current@.last() != '\r'),
    {
        proof {
            assert(read.push(c).drop_last() == read);
        }
        if c == '\n' {
            proof {
                lemma_string_views_push(closed@, current);
                if pending_cr {
                    assert(current@.push('\r').drop_last() == current@);
                }
            }
            closed.push(current);
            current = String::new();
            pending_cr = false;
        } else {
            if pending_cr {
                push_char(&mut current, '\r');
            }
            if c == '\r' {
                pending_cr = true;
            } else {
                push_char(&mut current, c);
                pending_cr = false;
            }
        }
        proof {
            read = read.push(c);
        }
    }
    if pending_cr {
        push_char(&mut current, '\r');
    }
    assert(read == source@);
    if !current.as_str().is_empty() {
        proof { lemma_string_views_push(closed@, current); }
        closed.push(current);
    }
    closed
}

proof fn lemma_string_views_push(v: Seq<String>, s: String)
    ensures
        string_views(v.push(s)) == string_views(v).push(s@),
{
    assert(string_views(v.push(s)) =~= string_views(v).push(s@));
}

} // verus!
