//! Character-level text handling shared by the assembler, the command reader
//! and the translator: conversions between `String` and `Vec<char>`, white
//! space, decimal numbers, and the splitting of a source text into lines,
//! cleaned lines and words.

use vstd::prelude::*;

verus! {

/// Appends one character to a string through `String::push`. The contract
/// states that the text afterwards is the text before followed by `c`.
#[verifier::external_body]
fn push_char(s: &mut String, c: char)
    ensures
        final(s)@ == old(s)@.push(c),
{
    s.push(c);
}

/// The characters of a string, in order.
pub fn to_chars(s: &str) -> (v: Vec<char>)
    ensures
        v@ == s@,
{
    broadcast use vstd::string::group_string_axioms;

    let mut v: Vec<char> = Vec::new();
    for c in it: s.chars()
        invariant
            it.seq() == s@,
            v@ == it.seq().take(it.index()),
    {
        v.push(c);
    }
    v
}

/// The string made of the given characters, in order.
pub fn to_text(v: &Vec<char>) -> (s: String)
    ensures
        s@ == v@,
{
    let mut s = String::new();
    let mut i: usize = 0;
    while i < v.len()
        invariant
            i <= v.len(),
            s@ == v@.take(i as int),
        decreases v.len() - i,
    {
        push_char(&mut s, v[i]);
        i += 1;
    }
    s
}

/// The texts of a list of character vectors.
pub open spec fn texts(v: Seq<Vec<char>>) -> Seq<Seq<char>> {
    Seq::new(v.len(), |i: int| v[i]@)
}

/// The texts of a list of strings.
pub open spec fn string_texts(v: Seq<String>) -> Seq<Seq<char>> {
    Seq::new(v.len(), |i: int| v[i]@)
}

/// The strings made of the given character vectors, one for one.
pub fn to_strings(v: &Vec<Vec<char>>) -> (r: Vec<String>)
    ensures
        string_texts(r@) == texts(v@),
{
    let mut r: Vec<String> = Vec::new();
    let mut i: usize = 0;
    while i < v.len()
        invariant
            i <= v.len(),
            r.len() == i,
            forall|j: int| 0 <= j < i ==> r[j]@ == v[j]@,
        decreases v.len() - i,
    {
        r.push(to_text(&v[i]));
        i += 1;
    }
    assert(string_texts(r@) =~= texts(v@));
    r
}

/// A copy of the characters `v[lo..hi]`.
pub fn slice_of(v: &Vec<char>, lo: usize, hi: usize) -> (r: Vec<char>)
    requires
        lo <= hi <= v.len(),
    ensures
        r@ == v@.subrange(lo as int, hi as int),
{
    let mut r: Vec<char> = Vec::new();
    let mut i: usize = lo;
    while i < hi
        invariant
            lo <= i <= hi <= v.len(),
            r@ == v@.subrange(lo as int, i as int),
        decreases hi - i,
    {
        r.push(v[i]);
        i += 1;
    }
    r
}

/// Appends the characters of a string.
pub fn push_str(out: &mut Vec<char>, s: &str)
    ensures
        final(out)@ == old(out)@ + s@,
{
    broadcast use vstd::string::group_string_axioms;

    for c in it: s.chars()
        invariant
            it.seq() == s@,
            out@ == old(out)@ + it.seq().take(it.index()),
    {
        out.push(c);
    }
}

/// Appends the characters of a vector.
pub fn push_chars(out: &mut Vec<char>, s: &Vec<char>)
    ensures
        final(out)@ == old(out)@ + s@,
{
    let mut i: usize = 0;
    while i < s.len()
        invariant
            i <= s.len(),
            out@ == old(out)@ + s@.take(i as int),
        decreases s.len() - i,
    {
        out.push(s[i]);
        i += 1;
    }
    assert(s@.take(i as int) =~= s@);
}

/// Whether a character vector spells the same text as a string.
pub fn same_text(v: &Vec<char>, s: &str) -> (b: bool)
    ensures
        b == (v@ == s@),
{
    let w = to_chars(s);
    same_chars(v, &w)
}

/// Whether two character vectors hold the same text.
pub fn same_chars(a: &Vec<char>, b: &Vec<char>) -> (r: bool)
    ensures
        r == (a@ == b@),
{
    if a.len() != b.len() {
        return false;
    }
    let mut i: usize = 0;
    while i < a.len()
        invariant
            i <= a.len(),
            a.len() == b.len(),
            forall|j: int| 0 <= j < i ==> a[j] == b[j],
        decreases a.len() - i,
    {
        if a[i] != b[i] {
            return false;
        }
        i += 1;
    }
    assert(a@ =~= b@);
    true
}

// ---------------------------------------------------------------------------
// White space

/// The characters that separate words and are trimmed from the ends of a
/// line: the Unicode characters with the property White_Space.
pub open spec fn is_space(c: char) -> bool {
    let n = c as u32;
    ||| 0x09 <= n <= 0x0D
    ||| n == 0x20
    ||| n == 0x85
    ||| n == 0xA0
    ||| n == 0x1680
    ||| 0x2000 <= n <= 0x200A
    ||| n == 0x2028
    ||| n == 0x2029
    ||| n == 0x202F
    ||| n == 0x205F
    ||| n == 0x3000
}

/// Tests a character for white space.
pub fn is_space_char(c: char) -> (b: bool)
    ensures
        b == is_space(c),
{
    let n: u32 = c as u32;
    (0x09 <= n && n <= 0x0D) || n == 0x20 || n == 0x85 || n == 0xA0 || n == 0x1680 || (0x2000 <= n
        && n <= 0x200A) || n == 0x2028 || n == 0x2029 || n == 0x202F || n == 0x205F || n == 0x3000
}

/// Whether `c` is one of the letters `a` to `z` and `A` to `Z`.
pub open spec fn is_letter(c: char) -> bool {
    ('a' <= c && c <= 'z') || ('A' <= c && c <= 'Z')
}

/// Tests a character for a letter.
pub fn is_letter_char(c: char) -> (b: bool)
    ensures
        b == is_letter(c),
{
    ('a' <= c && c <= 'z') || ('A' <= c && c <= 'Z')
}

// ---------------------------------------------------------------------------
// Decimal numbers

/// Whether `c` is one of the ten decimal digits.
pub open spec fn is_digit(c: char) -> bool {
    '0' <= c && c <= '9'
}

/// The value of a decimal digit.
pub open spec fn digit_value(c: char) -> nat {
    (c as u32 - 48) as nat
}

/// The digit that stands for `d`, for `d` below ten.
pub open spec fn digit_char(d: nat) -> char {
    (48 + d) as u8 as char
}

/// The decimal text of a natural number, without leading zeros.
pub open spec fn decimal(n: nat) -> Seq<char>
    decreases n,
{
    if n < 10 {
        seq![digit_char(n)]
    } else {
        decimal(n / 10).push(digit_char(n % 10))
    }
}

/// The decimal text of an integer: a minus sign before the digits of a
/// negative number.
pub open spec fn signed_decimal(i: int) -> Seq<char> {
    if i < 0 {
        seq!['-'] + decimal((-i) as nat)
    } else {
        decimal(i as nat)
    }
}

/// Whether every character of `s` is a decimal digit.
pub open spec fn all_digits(s: Seq<char>) -> bool {
    forall|i: int| 0 <= i < s.len() ==> is_digit(#[trigger] s[i])
}

/// The number that a sequence of decimal digits denotes, leading zeros
/// allowed; the empty sequence denotes zero.
pub open spec fn digits_value(s: Seq<char>) -> nat
    decreases s.len(),
{
    if s.len() == 0 {
        0
    } else {
        digits_value(s.drop_last()) * 10 + digit_value(s.last())
    }
}

/// The decimal text of a number is made of digits, at least one, and
/// denotes the number.
pub proof fn lemma_decimal(n: nat)
    ensures
        decimal(n).len() > 0,
        all_digits(decimal(n)),
        digits_value(decimal(n)) == n,
    decreases n,
{
    if n < 10 {
        assert(decimal(n).drop_last() =~= Seq::<char>::empty());
        assert(digits_value(decimal(n).drop_last()) == 0);
    } else {
        lemma_decimal(n / 10);
        let head = decimal(n / 10);
        assert(decimal(n).drop_last() =~= head);
        assert forall|i: int| 0 <= i < decimal(n).len() implies is_digit(
            #[trigger] decimal(n)[i],
        ) by {
            if i < head.len() {
                assert(decimal(n)[i] == head[i]);
            }
        }
    }
}

/// Tests a character for a decimal digit.
pub fn is_digit_char(c: char) -> (b: bool)
    ensures
        b == is_digit(c),
{
    '0' <= c && c <= '9'
}

/// Appends the decimal text of `n`.
pub fn push_decimal(out: &mut Vec<char>, n: u64)
    ensures
        final(out)@ == old(out)@ + decimal(n as nat),
    decreases n,
{
    if n >= 10 {
        push_decimal(out, n / 10);
    }
    let d: u8 = (n % 10) as u8;
    out.push((48u8 + d) as char);
}

/// Appends the decimal text of `i`, with a minus sign if it is negative.
pub fn push_signed_decimal(out: &mut Vec<char>, i: i64)
    ensures
        final(out)@ == old(out)@ + signed_decimal(i as int),
{
    if i < 0 {
        out.push('-');
        let m: u64 = if i == i64::MIN {
            9223372036854775808u64
        } else {
            (-i) as u64
        };
        push_decimal(out, m);
    } else {
        push_decimal(out, i as u64);
    }
}

/// Tests whether every character is a decimal digit.
pub fn all_digits_in(s: &Vec<char>) -> (b: bool)
    ensures
        b == all_digits(s@),
{
    let mut i: usize = 0;
    while i < s.len()
        invariant
            i <= s.len(),
            forall|j: int| 0 <= j < i ==> is_digit(#[trigger] s@[j]),
        decreases s.len() - i,
    {
        if !is_digit_char(s[i]) {
            return false;
        }
        i += 1;
    }
    true
}

/// A longer digit sequence denotes no smaller a number than its prefix.
pub proof fn lemma_digits_value_prefix(s: Seq<char>, k: int)
    requires
        0 <= k <= s.len(),
    ensures
        digits_value(s.take(k)) <= digits_value(s),
    decreases s.len(),
{
    if k == s.len() {
        assert(s.take(k) =~= s);
    } else {
        assert(s.drop_last().take(k) =~= s.take(k));
        lemma_digits_value_prefix(s.drop_last(), k);
    }
}

/// Reads a sequence of decimal digits as a number no greater than `max`.
/// The result is `None` exactly when a character is no digit or the number
/// is greater than `max`.
pub fn parse_digits(s: &Vec<char>, max: u64) -> (r: Option<u64>)
    requires
        max < 0x1000_0000_0000_0000,
    ensures
        r == if all_digits(s@) && digits_value(s@) <= max {
            Some(digits_value(s@) as u64)
        } else {
            None
        },
{
    if !all_digits_in(s) {
        return None;
    }
    let mut acc: u64 = 0;
    let mut i: usize = 0;
    while i < s.len()
        invariant
            i <= s.len(),
            all_digits(s@),
            max < 0x1000_0000_0000_0000,
            acc == digits_value(s@.take(i as int)),
            acc <= max,
        decreases s.len() - i,
    {
        let c = s[i];
        assert(is_digit(s@[i as int]));
        let d: u64 = (c as u32 - 48) as u64;
        proof {
            assert(s@.take(i + 1).drop_last() =~= s@.take(i as int));
            assert(s@.take(i + 1).last() == c);
        }
        acc = acc * 10 + d;
        i += 1;
        if acc > max {
            proof {
                lemma_digits_value_prefix(s@, i as int);
            }
            return None;
        }
    }
    assert(s@.take(i as int) =~= s@);
    Some(acc)
}

// ---------------------------------------------------------------------------
// Searching

/// The index of the first occurrence of `c` in `s`, or the length of `s`
/// where `c` does not occur.
pub open spec fn first_index(s: Seq<char>, c: char) -> int
    decreases s.len(),
{
    if s.len() == 0 || s[0] == c {
        0
    } else {
        1 + first_index(s.drop_first(), c)
    }
}

/// `first_index` lies within the sequence, names an occurrence unless it is
/// the length, and no occurrence comes before it.
pub proof fn lemma_first_index(s: Seq<char>, c: char)
    ensures
        0 <= first_index(s, c) <= s.len(),
        first_index(s, c) < s.len() ==> s[first_index(s, c)] == c,
        forall|j: int| 0 <= j < first_index(s, c) ==> s[j] != c,
        first_index(s, c) < s.len() <==> s.contains(c),
    decreases s.len(),
{
    if s.len() == 0 || s[0] == c {
    } else {
        let t = s.drop_first();
        lemma_first_index(t, c);
        assert forall|j: int| 0 <= j < first_index(s, c) implies s[j] != c by {
            if j > 0 {
                assert(s[j] == t[j - 1]);
            }
        }
        if first_index(s, c) < s.len() {
            assert(s[first_index(s, c)] == t[first_index(t, c)]);
        }
    }
    if s.contains(c) {
        let k = choose|k: int| 0 <= k < s.len() && s[k] == c;
        assert(first_index(s, c) <= k);
    }
}

/// The position `i` is `first_index` as soon as `c` does not occur before
/// it and either occurs at it or the sequence ends there.
pub proof fn lemma_first_index_is(s: Seq<char>, c: char, i: int)
    requires
        0 <= i <= s.len(),
        forall|j: int| 0 <= j < i ==> s[j] != c,
        i < s.len() ==> s[i] == c,
    ensures
        first_index(s, c) == i,
{
    lemma_first_index(s, c);
}

/// Finds the first occurrence of `c`; the length where there is none.
pub fn find_char(s: &Vec<char>, c: char) -> (i: usize)
    ensures
        i == first_index(s@, c),
        i <= s.len(),
{
    let mut i: usize = 0;
    while i < s.len() && s[i] != c
        invariant
            i <= s.len(),
            forall|j: int| 0 <= j < i ==> s@[j] != c,
        decreases s.len() - i,
    {
        i += 1;
    }
    proof {
        lemma_first_index_is(s@, c, i as int);
    }
    i
}

// ---------------------------------------------------------------------------
// Trimming and comments

/// `s` without the white space at its start.
pub open spec fn trim_start(s: Seq<char>) -> Seq<char>
    decreases s.len(),
{
    if s.len() > 0 && is_space(s[0]) {
        trim_start(s.drop_first())
    } else {
        s
    }
}

/// `s` without the white space at its end.
pub open spec fn trim_end(s: Seq<char>) -> Seq<char>
    decreases s.len(),
{
    if s.len() > 0 && is_space(s.last()) {
        trim_end(s.drop_last())
    } else {
        s
    }
}

/// `s` without the white space at either end.
pub open spec fn trim(s: Seq<char>) -> Seq<char> {
    trim_end(trim_start(s))
}

/// Whether the two-character comment marker stands at position `i`.
pub open spec fn comment_at(s: Seq<char>, i: int) -> bool {
    0 <= i && i + 1 < s.len() && s[i] == '/' && s[i + 1] == '/'
}

/// The position of the first comment marker in `s`, or the length of `s`
/// where it holds none.
pub open spec fn comment_start(s: Seq<char>) -> int
    decreases s.len(),
{
    if s.len() < 2 {
        s.len() as int
    } else if s[0] == '/' && s[1] == '/' {
        0
    } else {
        1 + comment_start(s.drop_first())
    }
}

/// `s` up to its first comment marker.
pub open spec fn strip_comment(s: Seq<char>) -> Seq<char> {
    s.subrange(0, comment_start(s))
}

/// `comment_start` lies within the sequence, the marker stands at it unless
/// it is the length, and the marker stands nowhere before it.
pub proof fn lemma_comment_start(s: Seq<char>)
    ensures
        0 <= comment_start(s) <= s.len(),
        comment_start(s) < s.len() ==> comment_at(s, comment_start(s)),
        forall|j: int| 0 <= j < comment_start(s) ==> !comment_at(s, j),
    decreases s.len(),
{
    if s.len() < 2 {
    } else if s[0] == '/' && s[1] == '/' {
    } else {
        let t = s.drop_first();
        lemma_comment_start(t);
        assert forall|j: int| 0 <= j < comment_start(s) implies !comment_at(s, j) by {
            if j > 0 {
                assert(!comment_at(t, j - 1));
                assert(s[j] == t[j - 1]);
                if j + 1 < s.len() {
                    assert(s[j + 1] == t[j]);
                }
            }
        }
        if comment_start(s) < s.len() {
            let r = comment_start(t);
            assert(s[r + 1] == t[r]);
            assert(s[r + 2] == t[r + 1]);
        }
    }
}

/// A trimmed sequence is a stretch of the original that neither starts nor
/// ends with white space.
pub proof fn lemma_trim(s: Seq<char>)
    ensures
        trim(s).len() <= s.len(),
        trim(s).len() > 0 ==> !is_space(trim(s)[0]) && !is_space(trim(s).last()),
        trim(trim(s)) == trim(s),
{
    lemma_trim_start(s);
    lemma_trim_end(trim_start(s));
    let t = trim(s);
    if t.len() > 0 {
        lemma_trim_end_keeps_start(trim_start(s));
    }
}

proof fn lemma_trim_start(s: Seq<char>)
    ensures
        trim_start(s).len() <= s.len(),
        trim_start(s).len() > 0 ==> !is_space(trim_start(s)[0]),
        trim_start(s) == s.subrange(s.len() - trim_start(s).len(), s.len() as int),
    decreases s.len(),
{
    if s.len() > 0 && is_space(s[0]) {
        lemma_trim_start(s.drop_first());
        let t = s.drop_first();
        assert(t.subrange(t.len() - trim_start(t).len(), t.len() as int) =~= s.subrange(
            s.len() - trim_start(s).len(),
            s.len() as int,
        ));
    } else {
        assert(s =~= s.subrange(0, s.len() as int));
    }
}

proof fn lemma_trim_end(s: Seq<char>)
    ensures
        trim_end(s).len() <= s.len(),
        trim_end(s).len() > 0 ==> !is_space(trim_end(s).last()),
        trim_end(s) == s.subrange(0, trim_end(s).len() as int),
    decreases s.len(),
{
    if s.len() > 0 && is_space(s.last()) {
        lemma_trim_end(s.drop_last());
        let t = s.drop_last();
        assert(t.subrange(0, trim_end(t).len() as int) =~= s.subrange(0, trim_end(s).len() as int));
    } else {
        assert(s =~= s.subrange(0, s.len() as int));
    }
}

proof fn lemma_trim_end_keeps_start(s: Seq<char>)
    ensures
        trim_end(s).len() > 0 ==> trim_end(s)[0] == s[0],
        s.len() > 0 && !is_space(s[0]) ==> trim_end(s).len() > 0,
        s.len() > 0 && !is_space(s.last()) ==> trim_end(s) == s,
    decreases s.len(),
{
    if s.len() > 0 && is_space(s.last()) {
        lemma_trim_end_keeps_start(s.drop_last());
    }
}

/// The copy of `s` without the white space at either end.
pub fn trimmed(s: &Vec<char>) -> (r: Vec<char>)
    ensures
        r@ == trim(s@),
{
    let n = s.len();
    let mut lo: usize = 0;
    assert(s@.subrange(0, n as int) =~= s@);
    while lo < n && is_space_char(s[lo])
        invariant
            lo <= n == s.len(),
            trim_start(s@) == trim_start(s@.subrange(lo as int, n as int)),
        decreases n - lo,
    {
        proof {
            assert(s@.subrange(lo as int, n as int).drop_first() =~= s@.subrange(
                lo + 1,
                n as int,
            ));
        }
        lo += 1;
    }
    let mut hi: usize = n;
    while hi > lo && is_space_char(s[hi - 1])
        invariant
            lo <= hi <= n == s.len(),
            trim_start(s@) == s@.subrange(lo as int, n as int),
            trim(s@) == trim_end(s@.subrange(lo as int, hi as int)),
        decreases hi - lo,
    {
        proof {
            assert(s@.subrange(lo as int, hi as int).drop_last() =~= s@.subrange(
                lo as int,
                hi - 1,
            ));
        }
        hi -= 1;
    }
    slice_of(s, lo, hi)
}

/// Finds the first comment marker; the length where there is none.
pub fn find_comment(s: &Vec<char>) -> (i: usize)
    ensures
        i == comment_start(s@),
        i <= s.len(),
{
    let n = s.len();
    let mut i: usize = 0;
    assert(s@.subrange(0, n as int) =~= s@);
    while n - i >= 2 && !(s[i] == '/' && s[i + 1] == '/')
        invariant
            i <= n == s.len(),
            comment_start(s@) == i + comment_start(s@.subrange(i as int, n as int)),
        decreases n - i,
    {
        proof {
            assert(s@.subrange(i as int, n as int).drop_first() =~= s@.subrange(i + 1, n as int));
        }
        i += 1;
    }
    if n - i >= 2 {
        i
    } else {
        proof {
            let t = s@.subrange(i as int, n as int);
            if t.len() == 1 {
                assert(t.drop_first().len() == 0);
            }
        }
        n
    }
}

// ---------------------------------------------------------------------------
// Lines and words

/// The lines of a text: the stretches between its newline characters. A
/// text with `n` newline characters has `n + 1` lines, some of which may be
/// empty.
pub open spec fn split_lines(s: Seq<char>) -> Seq<Seq<char>>
    decreases s.len(),
{
    if s.len() == 0 {
        seq![Seq::empty()]
    } else {
        let before = split_lines(s.drop_last());
        if s.last() == '\n' {
            before.push(Seq::empty())
        } else {
            before.drop_last().push(before.last().push(s.last()))
        }
    }
}

/// A text always has at least one line.
pub proof fn lemma_split_lines_len(s: Seq<char>)
    ensures
        split_lines(s).len() >= 1,
    decreases s.len(),
{
    if s.len() > 0 {
        lemma_split_lines_len(s.drop_last());
    }
}

/// The text made of the given lines, with a newline character between
/// neighbours.
pub open spec fn join_lines(lines: Seq<Seq<char>>) -> Seq<char>
    decreases lines.len(),
{
    if lines.len() == 0 {
        Seq::empty()
    } else if lines.len() == 1 {
        lines[0]
    } else {
        join_lines(lines.drop_last()) + seq!['\n'] + lines.last()
    }
}

/// Characters other than the newline go to the last line: the lines of a
/// text followed by such characters are the lines of the text, the last of
/// them followed by the characters.
pub proof fn lemma_split_lines_add(s: Seq<char>, t: Seq<char>)
    requires
        !t.contains('\n'),
    ensures
        split_lines(s + t) == split_lines(s).drop_last().push(split_lines(s).last() + t),
    decreases t.len(),
{
    lemma_split_lines_len(s);
    let before = split_lines(s);
    if t.len() == 0 {
        assert(s + t =~= s);
        assert(before.last() + t =~= before.last());
        assert(before.drop_last().push(before.last()) =~= before);
    } else {
        let head = t.drop_last();
        assert(!head.contains('\n')) by {
            if head.contains('\n') {
                let k = choose|k: int| 0 <= k < head.len() && head[k] == '\n';
                assert(t[k] == '\n');
            }
        }
        assert(t.last() != '\n') by {
            assert(t.contains(t[t.len() - 1]));
        }
        lemma_split_lines_add(s, head);
        assert((s + t).drop_last() =~= s + head);
        assert((s + t).last() == t.last());
        let mid = split_lines(s + head);
        assert(mid.last() == before.last() + head);
        assert(mid.drop_last() =~= before.drop_last());
        assert((before.last() + head).push(t.last()) =~= before.last() + t);
    }
}

/// Joining and splitting undo each other: the lines of the text made of
/// lines that hold no newline character are these lines. The text made of
/// no line at all is empty, and has one empty line.
pub proof fn lemma_split_join(lines: Seq<Seq<char>>)
    requires
        forall|i: int| 0 <= i < lines.len() ==> !(#[trigger] lines[i]).contains('\n'),
    ensures
        lines.len() > 0 ==> split_lines(join_lines(lines)) == lines,
        lines.len() == 0 ==> split_lines(join_lines(lines)) == seq![Seq::<char>::empty()],
    decreases lines.len(),
{
    let empty = Seq::<char>::empty();
    if lines.len() == 0 {
    } else if lines.len() == 1 {
        lemma_split_lines_add(empty, lines[0]);
        assert(empty + lines[0] =~= lines[0]);
        assert(split_lines(empty) =~= seq![empty]);
        assert(seq![empty].drop_last().push(empty + lines[0]) =~= lines);
    } else {
        let front = lines.drop_last();
        lemma_split_join(front);
        let text = join_lines(front) + seq!['\n'];
        assert(text.drop_last() =~= join_lines(front));
        assert(split_lines(text) == front.push(empty));
        lemma_split_lines_add(text, lines.last());
        assert(front.push(empty).drop_last() =~= front);
        assert(empty + lines.last() =~= lines.last());
        assert(front.push(lines.last()) =~= lines);
    }
}

/// Splits a text into its lines.
pub fn lines_of(s: &Vec<char>) -> (r: Vec<Vec<char>>)
    ensures
        texts(r@) == split_lines(s@),
{
    let mut done: Vec<Vec<char>> = Vec::new();
    let mut current: Vec<char> = Vec::new();
    let mut i: usize = 0;
    assert(texts(done@).push(current@) =~= split_lines(s@.take(0)));
    while i < s.len()
        invariant
            i <= s.len(),
            texts(done@).push(current@) == split_lines(s@.take(i as int)),
        decreases s.len() - i,
    {
        let c = s[i];
        let ghost before = texts(done@).push(current@);
        proof {
            assert(s@.take(i + 1).drop_last() =~= s@.take(i as int));
            assert(s@.take(i + 1).last() == c);
            assert(before.drop_last() =~= texts(done@));
        }
        if c == '\n' {
            done.push(current);
            current = Vec::new();
            assert(texts(done@).push(current@) =~= before.push(Seq::empty()));
        } else {
            current.push(c);
            assert(texts(done@).push(current@) =~= before.drop_last().push(
                before.last().push(c),
            ));
        }
        i += 1;
    }
    assert(s@.take(i as int) =~= s@);
    let ghost all = texts(done@).push(current@);
    done.push(current);
    assert(texts(done@) =~= all);
    done
}

/// The word that is still open at the end of `s`: its longest ending
/// without white space.
pub open spec fn open_word(s: Seq<char>) -> Seq<char>
    decreases s.len(),
{
    if s.len() == 0 || is_space(s.last()) {
        Seq::empty()
    } else {
        open_word(s.drop_last()).push(s.last())
    }
}

/// The words of `s` that white space has closed, in order.
pub open spec fn closed_words(s: Seq<char>) -> Seq<Seq<char>>
    decreases s.len(),
{
    if s.len() == 0 {
        Seq::empty()
    } else if is_space(s.last()) && open_word(s.drop_last()).len() > 0 {
        closed_words(s.drop_last()).push(open_word(s.drop_last()))
    } else {
        closed_words(s.drop_last())
    }
}

/// The words of `s`: its longest stretches without white space, in order.
pub open spec fn words(s: Seq<char>) -> Seq<Seq<char>> {
    if open_word(s).len() > 0 {
        closed_words(s).push(open_word(s))
    } else {
        closed_words(s)
    }
}

/// Whether `w` holds no white space.
pub open spec fn no_space(w: Seq<char>) -> bool {
    forall|j: int| 0 <= j < w.len() ==> !is_space(#[trigger] w[j])
}

/// Every word is non-empty and holds no white space.
pub proof fn lemma_words(s: Seq<char>)
    ensures
        forall|i: int|
            0 <= i < words(s).len() ==> (#[trigger] words(s)[i]).len() > 0 && no_space(
                words(s)[i],
            ),
{
    lemma_open_word(s);
    lemma_closed_words(s);
}

proof fn lemma_open_word(s: Seq<char>)
    ensures
        no_space(open_word(s)),
    decreases s.len(),
{
    if s.len() == 0 || is_space(s.last()) {
    } else {
        lemma_open_word(s.drop_last());
        let w = open_word(s.drop_last());
        assert forall|j: int| 0 <= j < open_word(s).len() implies !is_space(
            #[trigger] open_word(s)[j],
        ) by {
            if j < w.len() {
                assert(open_word(s)[j] == w[j]);
            }
        }
    }
}

proof fn lemma_closed_words(s: Seq<char>)
    ensures
        forall|i: int|
            0 <= i < closed_words(s).len() ==> (#[trigger] closed_words(s)[i]).len() > 0
                && no_space(closed_words(s)[i]),
    decreases s.len(),
{
    if s.len() > 0 {
        lemma_closed_words(s.drop_last());
        lemma_open_word(s.drop_last());
        let before = closed_words(s.drop_last());
        assert forall|i: int| 0 <= i < closed_words(s).len() implies (#[trigger] closed_words(
            s,
        )[i]).len() > 0 && no_space(closed_words(s)[i]) by {
            if i < before.len() {
                assert(closed_words(s)[i] == before[i]);
            }
        }
    }
}

/// Splits a text into its words.
pub fn words_of(s: &Vec<char>) -> (r: Vec<Vec<char>>)
    ensures
        texts(r@) == words(s@),
{
    let mut done: Vec<Vec<char>> = Vec::new();
    let mut current: Vec<char> = Vec::new();
    let mut i: usize = 0;
    assert(texts(done@) =~= closed_words(s@.take(0)));
    while i < s.len()
        invariant
            i <= s.len(),
            texts(done@) == closed_words(s@.take(i as int)),
            current@ == open_word(s@.take(i as int)),
        decreases s.len() - i,
    {
        let c = s[i];
        let ghost closed = texts(done@);
        proof {
            assert(s@.take(i + 1).drop_last() =~= s@.take(i as int));
            assert(s@.take(i + 1).last() == c);
        }
        if is_space_char(c) {
            if current.len() > 0 {
                let ghost word = current@;
                done.push(current);
                current = Vec::new();
                assert(texts(done@) =~= closed.push(word));
            }
        } else {
            current.push(c);
        }
        i += 1;
    }
    assert(s@.take(i as int) =~= s@);
    if current.len() > 0 {
        let ghost closed = texts(done@);
        let ghost word = current@;
        done.push(current);
        assert(texts(done@) =~= closed.push(word));
    }
    done
}

/// The given words with one blank between neighbours.
pub open spec fn join_words(ws: Seq<Seq<char>>) -> Seq<char>
    decreases ws.len(),
{
    if ws.len() == 0 {
        Seq::empty()
    } else if ws.len() == 1 {
        ws[0]
    } else {
        join_words(ws.drop_last()) + seq![' '] + ws.last()
    }
}

/// Joins words with one blank between neighbours.
pub fn joined(ws: &Vec<Vec<char>>) -> (r: Vec<char>)
    ensures
        r@ == join_words(texts(ws@)),
{
    let mut r: Vec<char> = Vec::new();
    let mut i: usize = 0;
    assert(texts(ws@).take(0) =~= Seq::<Seq<char>>::empty());
    while i < ws.len()
        invariant
            i <= ws.len(),
            r@ == join_words(texts(ws@).take(i as int)),
        decreases ws.len() - i,
    {
        let ghost before = r@;
        if i > 0 {
            r.push(' ');
        }
        let w = &ws[i];
        let mut j: usize = 0;
        let ghost start = r@;
        while j < w.len()
            invariant
                j <= w.len(),
                r@ == start + w@.take(j as int),
            decreases w.len() - j,
        {
            r.push(w[j]);
            j += 1;
        }
        proof {
            assert(w@.take(j as int) =~= w@);
            let t = texts(ws@).take(i + 1);
            assert(t.drop_last() =~= texts(ws@).take(i as int));
            assert(t.last() == w@);
            if i == 0 {
                assert(r@ =~= w@);
            } else {
                assert(r@ =~= before + seq![' '] + w@);
            }
        }
        i += 1;
    }
    assert(texts(ws@).take(i as int) =~= texts(ws@));
    r
}

// ---------------------------------------------------------------------------
// Signed numbers

/// The integer that a text denotes: decimal digits, at least one, behind an
/// optional sign.
pub open spec fn signed_value(s: Seq<char>) -> Option<int> {
    if s.len() > 0 && (s[0] == '-' || s[0] == '+') {
        let digits = s.subrange(1, s.len() as int);
        if digits.len() > 0 && all_digits(digits) {
            if s[0] == '-' {
                Some(-(digits_value(digits) as int))
            } else {
                Some(digits_value(digits) as int)
            }
        } else {
            None
        }
    } else if s.len() > 0 && all_digits(s) {
        Some(digits_value(s) as int)
    } else {
        None
    }
}

/// The 32-bit integer that a text denotes, if it denotes one.
pub open spec fn i32_value(s: Seq<char>) -> Option<i32> {
    match signed_value(s) {
        Some(v) => if i32::MIN <= v <= i32::MAX {
            Some(v as i32)
        } else {
            None
        },
        None => None,
    }
}

/// Reads a text as a 32-bit integer.
pub fn parse_i32(s: &Vec<char>) -> (r: Option<i32>)
    ensures
        r == i32_value(s@),
{
    let n = s.len();
    if n == 0 {
        return None;
    }
    let negative = s[0] == '-';
    let signed = negative || s[0] == '+';
    let digits = if signed {
        slice_of(s, 1, n)
    } else {
        slice_of(s, 0, n)
    };
    assert(s@.subrange(0, n as int) =~= s@);
    if digits.len() == 0 || !all_digits_in(&digits) {
        return None;
    }
    match parse_digits(&digits, 2147483648) {
        None => None,
        Some(v) => {
            if negative {
                if v == 2147483648 {
                    Some(i32::MIN)
                } else {
                    Some(-(v as i32))
                }
            } else if v == 2147483648 {
                None
            } else {
                Some(v as i32)
            }
        },
    }
}

} // verus!
