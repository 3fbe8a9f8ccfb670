//! Character-level text operations: white space, trimming, prefixes and
//! the splitting of a text into lines.

use vstd::prelude::*;

verus! {

/// The Unicode `White_Space` property (the characters that
/// `char::is_whitespace` accepts).
pub open spec fn is_white_space(c: char) -> bool {
    let u = c as u32;
    ||| 0x09 <= u <= 0x0D
    ||| u == 0x20
    ||| u == 0x85
    ||| u == 0xA0
    ||| u == 0x1680
    ||| 0x2000 <= u <= 0x200A
    ||| u == 0x2028
    ||| u == 0x2029
    ||| u == 0x202F
    ||| u == 0x205F
    ||| u == 0x3000
}

/// `s` without its leading white space.
pub open spec fn trim_start(s: Seq<char>) -> Seq<char>
    decreases s.len(),
{
    if s.len() > 0 && is_white_space(s[0]) {
        trim_start(s.drop_first())
    } else {
        s
    }
}

/// `s` without its trailing white space.
pub open spec fn trim_end(s: Seq<char>) -> Seq<char>
    decreases s.len(),
{
    if s.len() > 0 && is_white_space(s.last()) {
        trim_end(s.drop_last())
    } else {
        s
    }
}

/// `s` without leading and trailing white space (what `str::trim` gives).
pub open spec fn trim(s: Seq<char>) -> Seq<char> {
    trim_end(trim_start(s))
}

/// `p` is a prefix of `s`.
pub open spec fn starts_with(s: Seq<char>, p: Seq<char>) -> bool {
    p.len() <= s.len() && s.take(p.len() as int) == p
}

/// A line that was ended by a line feed loses one carriage return before it.
pub open spec fn strip_cr(line: Seq<char>) -> Seq<char> {
    if line.len() > 0 && line.last() == '\r' {
        line.drop_last()
    } else {
        line
    }
}

/// Reading `s` from the left: the lines already ended by a line feed, and
/// the text read since the last line feed.
pub open spec fn line_split(s: Seq<char>) -> (Seq<Seq<char>>, Seq<char>)
    decreases s.len(),
{
    if s.len() == 0 {
        (seq![], seq![])
    } else {
        let (done, cur) = line_split(s.drop_last());
        if s.last() == '\n' {
            (done.push(strip_cr(cur)), seq![])
        } else {
            (done, cur.push(s.last()))
        }
    }
}

/// The lines of `s`, as `str::lines` yields them: split at `\n` or `\r\n`;
/// a last line without a line feed is kept as it is, an empty one is dropped.
pub open spec fn lines(s: Seq<char>) -> Seq<Seq<char>> {
    let (done, cur) = line_split(s);
    if cur.len() > 0 {
        done.push(cur)
    } else {
        done
    }
}

/// `p` is a prefix of `s` (for sequences of lines).
pub open spec fn is_prefix_of<A>(p: Seq<A>, s: Seq<A>) -> bool {
    p.len() <= s.len() && s.take(p.len() as int) == p
}

/// The lines completed in a prefix of a text stay the first lines of the text.
pub proof fn lemma_line_split_prefix(s: Seq<char>, i: int)
    requires
        0 <= i <= s.len(),
    ensures
        is_prefix_of(line_split(s.take(i)).0, line_split(s).0),
        is_prefix_of(line_split(s.take(i)).0, lines(s)),
    decreases s.len(),
{
    if i == s.len() {
        assert(s.take(i) =~= s);
        assert(line_split(s).0.take(line_split(s).0.len() as int) =~= line_split(s).0);
    } else {
        let t = s.drop_last();
        assert(t.take(i) =~= s.take(i));
        lemma_line_split_prefix(t, i);
        let p = line_split(s.take(i)).0;
        let d = line_split(t).0;
        assert(line_split(s).0.take(p.len() as int) =~= d.take(p.len() as int));
    }
    let p = line_split(s.take(i)).0;
    let d = line_split(s).0;
    if line_split(s).1.len() > 0 {
        assert(d.push(line_split(s).1).take(p.len() as int) =~= d.take(p.len() as int));
    }
}

/// Splitting a text that ends a line, then more text: the lines of each, in order.
pub proof fn lemma_line_split_concat(a: Seq<char>, b: Seq<char>)
    requires
        line_split(a).1.len() == 0,
    ensures
        line_split(a + b) == (line_split(a).0 + line_split(b).0, line_split(b).1),
    decreases b.len(),
{
    if b.len() == 0 {
        assert(a + b =~= a);
        assert(line_split(a).0 + line_split(b).0 =~= line_split(a).0);
    } else {
        lemma_line_split_concat(a, b.drop_last());
        assert((a + b).drop_last() =~= a + b.drop_last());
        assert((a + b).last() == b.last());
        let la = line_split(a).0;
        let lb = line_split(b.drop_last()).0;
        if b.last() == '\n' {
            assert((la + lb).push(strip_cr(line_split(b.drop_last()).1)) =~= la + lb.push(
                strip_cr(line_split(b.drop_last()).1),
            ));
        }
    }
}

/// The lines of a text that ends a line, then more text: the lines of each, in order.
pub proof fn lemma_lines_concat(a: Seq<char>, b: Seq<char>)
    requires
        line_split(a).1.len() == 0,
    ensures
        lines(a + b) == lines(a) + lines(b),
{
    lemma_line_split_concat(a, b);
    let la = line_split(a).0;
    let (lb, cb) = line_split(b);
    if cb.len() > 0 {
        assert((la + lb).push(cb) =~= la + lb.push(cb));
    }
}

/// A text without a line feed is read as one pending line.
pub proof fn lemma_line_split_no_newline(s: Seq<char>)
    requires
        !s.contains('\n'),
    ensures
        line_split(s) == (Seq::<Seq<char>>::empty(), s),
    decreases s.len(),
{
    if s.len() > 0 {
        assert(!s.drop_last().contains('\n')) by {
            if s.drop_last().contains('\n') {
                let k = choose|k: int| 0 <= k < s.drop_last().len() && s.drop_last()[k] == '\n';
                assert(s[k] == '\n');
            }
        }
        lemma_line_split_no_newline(s.drop_last());
        assert(s[s.len() - 1] == s.last());
        assert(s.drop_last().push(s.last()) =~= s);
    }
}

/// A text without a line feed, then a line feed: one line, less a final carriage return.
pub proof fn lemma_single_line(s: Seq<char>)
    requires
        !s.contains('\n'),
    ensures
        line_split(s.push('\n')) == (seq![strip_cr(s)], Seq::<char>::empty()),
        lines(s.push('\n')) == seq![strip_cr(s)],
{
    lemma_line_split_no_newline(s);
    assert(s.push('\n').drop_last() =~= s);
    assert(Seq::<Seq<char>>::empty().push(strip_cr(s)) =~= seq![strip_cr(s)]);
}

/// Two spaces, then a text with no white space at either end: trimming gives the text.
pub proof fn lemma_trim_after_spaces(x: Seq<char>)
    requires
        x.len() > 0 ==> !is_white_space(x[0]) && !is_white_space(x.last()),
    ensures
        trim(seq![' ', ' '] + x) == x,
{
    let s = seq![' ', ' '] + x;
    assert(s.drop_first() =~= seq![' '] + x);
    assert((seq![' '] + x).drop_first() =~= x);
    assert(is_white_space(' '));
    assert(trim_start(seq![' '] + x) == trim_start(x));
    assert(trim_start(x) == x);
    assert(trim_end(x) == x);
}

/// The characters of `s`, in order.
pub fn str_chars(s: &str) -> (v: Vec<char>)
    ensures
        v@ == s@,
{
    let mut v: Vec<char> = Vec::new();
    for c in it: s.chars()
        invariant
            v@ == it.seq().take(it.index() as int),
    {
        v.push(c);
    }
    v
}

/// Whether `c` is white space.
pub fn is_white_space_char(c: char) -> (r: bool)
    ensures
        r == is_white_space(c),
{
    let u = c as u32;
    (0x09 <= u && u <= 0x0D) || u == 0x20 || u == 0x85 || u == 0xA0 || u == 0x1680 || (0x2000
        <= u && u <= 0x200A) || u == 0x2028 || u == 0x2029 || u == 0x202F || u == 0x205F || u
        == 0x3000
}

/// The bounds of `chars[start..end]` with its leading and trailing white space removed.
pub fn trim_range(chars: &Vec<char>, start: usize, end: usize) -> (r: (usize, usize))
    requires
        start <= end <= chars@.len(),
    ensures
        start <= r.0 <= r.1 <= end,
        chars@.subrange(r.0 as int, r.1 as int) == trim(chars@.subrange(start as int, end as int)),
{
    let mut a = start;
    while a < end && is_white_space_char(chars[a])
        invariant
            start <= a <= end,
            end <= chars@.len(),
            trim_start(chars@.subrange(a as int, end as int)) == trim_start(
                chars@.subrange(start as int, end as int),
            ),
        decreases end - a,
    {
        assert(chars@.subrange(a as int, end as int).drop_first() =~= chars@.subrange(
            a + 1,
            end as int,
        ));
        a = a + 1;
    }
    let mut b = end;
    while b > a && is_white_space_char(chars[b - 1])
        invariant
            start <= a <= b <= end,
            end <= chars@.len(),
            trim_start(chars@.subrange(a as int, end as int)) == chars@.subrange(
                a as int,
                end as int,
            ),
            trim_end(chars@.subrange(a as int, b as int)) == trim_end(
                chars@.subrange(a as int, end as int),
            ),
        decreases b - a,
    {
        assert(chars@.subrange(a as int, b as int).drop_last() =~= chars@.subrange(
            a as int,
            b - 1,
        ));
        b = b - 1;
    }
    (a, b)
}

/// Whether `chars[start..end]` begins with `pat`.
pub fn range_starts_with(chars: &Vec<char>, start: usize, end: usize, pat: &Vec<char>) -> (r:
    bool)
    requires
        start <= end <= chars@.len(),
    ensures
        r == starts_with(chars@.subrange(start as int, end as int), pat@),
{
    if end - start < pat.len() {
        return false;
    }
    let mut j: usize = 0;
    while j < pat.len()
        invariant
            j <= pat@.len(),
            start + pat@.len() <= end,
            end <= chars@.len(),
            forall|k: int| 0 <= k < j ==> chars@[start + k] == pat@[k],
        decreases pat@.len() - j,
    {
        if chars[start + j] != pat[j] {
            assert(chars@.subrange(start as int, end as int).take(pat@.len() as int)[j as int]
                != pat@[j as int]);
            return false;
        }
        j = j + 1;
    }
    assert(chars@.subrange(start as int, end as int).take(pat@.len() as int) =~= pat@);
    true
}

/// The decimal digit `d` (for `d < 10`).
pub open spec fn digit_char(d: nat) -> char {
    seq!['0', '1', '2', '3', '4', '5', '6', '7', '8', '9'][d as int]
}

/// The decimal notation of `n`, without leading zeros.
pub open spec fn decimal(n: nat) -> Seq<char>
    decreases n,
{
    if n < 10 {
        seq![digit_char(n)]
    } else {
        decimal(n / 10).push(digit_char(n % 10))
    }
}

/// The one-character text of the decimal digit `d`.
fn digit_str(d: u64) -> (r: &'static str)
    requires
        d < 10,
    ensures
        r@ == seq![digit_char(d as nat)],
{
    proof {
        reveal_strlit("0");
        reveal_strlit("1");
        reveal_strlit("2");
        reveal_strlit("3");
        reveal_strlit("4");
        reveal_strlit("5");
        reveal_strlit("6");
        reveal_strlit("7");
        reveal_strlit("8");
        reveal_strlit("9");
    }
    let r = if d == 0 {
        "0"
    } else if d == 1 {
        "1"
    } else if d == 2 {
        "2"
    } else if d == 3 {
        "3"
    } else if d == 4 {
        "4"
    } else if d == 5 {
        "5"
    } else if d == 6 {
        "6"
    } else if d == 7 {
        "7"
    } else if d == 8 {
        "8"
    } else {
        "9"
    };
    assert(r@ =~= seq![digit_char(d as nat)]);
    r
}

/// Appends the decimal notation of `n` to `s`.
pub fn push_decimal(s: &mut String, n: u64)
    ensures
        final(s)@ == old(s)@ + decimal(n as nat),
    decreases n,
{
    if n >= 10 {
        push_decimal(s, n / 10);
    }
    let ghost before = s@;
    s.append(digit_str(n % 10));
    proof {
        if n >= 10 {
            assert(old(s)@ + decimal(n as nat) =~= old(s)@ + decimal((n / 10) as nat) + seq![
                digit_char((n % 10) as nat),
            ]);
        } else {
            assert(n % 10 == n);
        }
    }
}

/// The lower-case hexadecimal digit `d` (for `d < 16`).
pub open spec fn hex_digit_char(d: nat) -> char {
    seq!['0', '1', '2', '3', '4', '5', '6', '7', '8', '9', 'a', 'b', 'c', 'd', 'e', 'f'][d as int]
}

/// The lower-case hexadecimal notation of `n`, padded with zeros to at least `width` digits.
pub open spec fn hex_padded(n: nat, width: nat) -> Seq<char>
    decreases n + width,
{
    if n < 16 && width <= 1 {
        seq![hex_digit_char(n)]
    } else {
        hex_padded(
            n / 16,
            if width > 0 {
                (width - 1) as nat
            } else {
                0
            },
        ).push(hex_digit_char(n % 16))
    }
}

/// The one-character text of the hexadecimal digit `d`.
fn hex_digit_str(d: u64) -> (r: &'static str)
    requires
        d < 16,
    ensures
        r@ == seq![hex_digit_char(d as nat)],
{
    proof {
        reveal_strlit("0");
        reveal_strlit("1");
        reveal_strlit("2");
        reveal_strlit("3");
        reveal_strlit("4");
        reveal_strlit("5");
        reveal_strlit("6");
        reveal_strlit("7");
        reveal_strlit("8");
        reveal_strlit("9");
        reveal_strlit("a");
        reveal_strlit("b");
        reveal_strlit("c");
        reveal_strlit("d");
        reveal_strlit("e");
        reveal_strlit("f");
    }
    let r = if d == 0 {
        "0"
    } else if d == 1 {
        "1"
    } else if d == 2 {
        "2"
    } else if d == 3 {
        "3"
    } else if d == 4 {
        "4"
    } else if d == 5 {
        "5"
    } else if d == 6 {
        "6"
    } else if d == 7 {
        "7"
    } else if d == 8 {
        "8"
    } else if d == 9 {
        "9"
    } else if d == 10 {
        "a"
    } else if d == 11 {
        "b"
    } else if d == 12 {
        "c"
    } else if d == 13 {
        "d"
    } else if d == 14 {
        "e"
    } else {
        "f"
    };
    assert(r@ =~= seq![hex_digit_char(d as nat)]);
    r
}

/// Appends the lower-case hexadecimal notation of `n`, padded with zeros to
/// at least `width` digits, to `s`.
pub fn push_hex_padded(s: &mut String, n: u64, width: u64)
    ensures
        final(s)@ == old(s)@ + hex_padded(n as nat, width as nat),
    decreases n + width,
{
    if !(n < 16 && width <= 1) {
        let w = if width > 0 {
            width - 1
        } else {
            0
        };
        push_hex_padded(s, n / 16, w);
    }
    s.append(hex_digit_str(n % 16));
    proof {
        if n < 16 && width <= 1 {
            assert(n % 16 == n);
            assert(old(s)@ + hex_padded(n as nat, width as nat) =~= old(s)@ + seq![hex_digit_char(n as nat)]);
        } else {
            let w: nat = if width > 0 {
                (width - 1) as nat
            } else {
                0
            };
            assert(old(s)@ + hex_padded(n as nat, width as nat) =~= old(s)@ + hex_padded(
                (n / 16) as nat,
                w,
            ) + seq![hex_digit_char((n % 16) as nat)]);
        }
    }
}

} // verus!
