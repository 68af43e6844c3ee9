//! Character-level text scanning.
//!
//! Text is handled as a sequence of Unicode scalar values. Every
//! operation here is specified by a function on `Seq<char>` and
//! implemented on `&[char]`, so that the scanners built on top of them
//! can be stated exactly.

use vstd::prelude::*;
use vstd::slice::slice_subrange;

verus! {

/// The characters of `s`, in order.
pub fn to_chars(s: &str) -> (v: Vec<char>)
    ensures
        v@ == s@,
{
    let mut v: Vec<char> = Vec::new();
    for c in it: s.chars()
        invariant
            v@ == it.seq().take(it.index() as int),
    {
        v.push(c);
    }
    v
}

/// Whether `c` has the Unicode property `White_Space`.
pub open spec fn is_whitespace(c: char) -> bool {
    let u = c as u32;
    ||| 0x09 <= u <= 0x0D
    ||| u == 0x20
    ||| u == 0x85
    ||| u == 0xA0
    ||| u == 0x1680
    ||| 0x2000 <= u <= 0x200A
    ||| u == 0x2028
    ||| u == 0x2029
    ||| u == 0x202F
    ||| u == 0x205F
    ||| u == 0x3000
}

/// A set of characters that a trimming operation removes.
#[derive(Clone, Copy, Debug)]
pub enum CharSet {
    /// Every character with the property `White_Space`.
    Whitespace,
    /// The ten ASCII digits.
    Digits,
    /// One character.
    Just(char),
    /// Either of two characters.
    Either(char, char),
}

impl CharSet {
    /// Membership of `c` in the set.
    pub open spec fn has(self, c: char) -> bool {
        match self {
            CharSet::Whitespace => is_whitespace(c),
            CharSet::Digits => is_digit(c),
            CharSet::Just(a) => c == a,
            CharSet::Either(a, b) => c == a || c == b,
        }
    }

    /// Tests membership of `c` in the set.
    pub fn contains(&self, c: char) -> (r: bool)
        ensures
            r == self.has(c),
    {
        match self {
            CharSet::Whitespace => {
                let u: u32 = c as u32;
                (0x09 <= u && u <= 0x0D)
                    || u == 0x20
                    || u == 0x85
                    || u == 0xA0
                    || u == 0x1680
                    || (0x2000 <= u && u <= 0x200A)
                    || u == 0x2028
                    || u == 0x2029
                    || u == 0x202F
                    || u == 0x205F
                    || u == 0x3000
            },
            CharSet::Digits => char_is_digit(c),
            CharSet::Just(a) => c == *a,
            CharSet::Either(a, b) => c == *a || c == *b,
        }
    }
}

/// The least index `i >= from` with `s[i] == c`, or `s.len()` where there
/// is none.
pub open spec fn spec_find(s: Seq<char>, c: char, from: int) -> int
    decreases s.len() - from,
{
    if from >= s.len() {
        s.len() as int
    } else if s[from] == c {
        from
    } else {
        spec_find(s, c, from + 1)
    }
}

/// What `spec_find` returns lies between `from` and the end, names an
/// occurrence of `c` unless it is the end, and no occurrence comes before.
pub proof fn lemma_find(s: Seq<char>, c: char, from: int)
    requires
        0 <= from <= s.len(),
    ensures
        from <= spec_find(s, c, from) <= s.len(),
        spec_find(s, c, from) < s.len() ==> s[spec_find(s, c, from)] == c,
        forall|k: int| from <= k < spec_find(s, c, from) ==> s[k] != c,
    decreases s.len() - from,
{
    if from < s.len() && s[from] != c {
        lemma_find(s, c, from + 1);
    }
}

/// Finds the first occurrence of `c` at or after `from`; the length of
/// `text` where there is none.
pub fn find(text: &[char], c: char, from: usize) -> (r: usize)
    ensures
        r == spec_find(text@, c, from as int),
        r <= text@.len(),
        from <= text@.len() ==> from <= r,
{
    if from >= text.len() {
        return text.len();
    }
    let mut i: usize = from;
    while i < text.len() && text[i] != c
        invariant
            from <= i <= text@.len(),
            spec_find(text@, c, from as int) == spec_find(text@, c, i as int),
        decreases text@.len() - i,
    {
        i += 1;
    }
    i
}

/// Whether `pat` stands in `s` at index `i`.
pub open spec fn occurs_at(s: Seq<char>, pat: Seq<char>, i: int) -> bool {
    0 <= i && i + pat.len() <= s.len() && s.subrange(i, i + pat.len()) == pat
}

/// Whether `pat` is a contiguous part of `s`. The empty pattern is part of
/// every text.
pub open spec fn spec_contains(s: Seq<char>, pat: Seq<char>) -> bool {
    exists|i: int| occurs_at(s, pat, i)
}

fn matches_at(text: &[char], pat: &[char], at: usize) -> (r: bool)
    requires
        at + pat@.len() <= text@.len(),
    ensures
        r == occurs_at(text@, pat@, at as int),
{
    let n: usize = text.len();
    let mut j: usize = 0;
    while j < pat.len()
        invariant
            j <= pat@.len(),
            n == text@.len(),
            at + pat@.len() <= n,
            forall|k: int| 0 <= k < j ==> text@[at + k] == pat@[k],
        decreases pat@.len() - j,
    {
        if text[at + j] != pat[j] {
            proof {
                let sub = text@.subrange(at as int, at + pat@.len());
                assert(sub[j as int] == text@[at + j]);
            }
            return false;
        }
        j += 1;
    }
    assert(text@.subrange(at as int, at + pat@.len()) =~= pat@);
    true
}

/// Tests whether `pat` is a contiguous part of `text`.
pub fn contains(text: &[char], pat: &[char]) -> (r: bool)
    ensures
        r == spec_contains(text@, pat@),
{
    if pat.len() > text.len() {
        return false;
    }
    let last: usize = text.len() - pat.len();
    let mut i: usize = 0;
    loop
        invariant
            i <= last,
            last == text@.len() - pat@.len(),
            forall|k: int| 0 <= k < i ==> !occurs_at(text@, pat@, k),
        decreases last - i,
    {
        if matches_at(text, pat, i) {
            return true;
        }
        if i == last {
            return false;
        }
        i += 1;
    }
}

/// The second of the fields into which `sep` divides `s`: what stands
/// between the first `sep` and the next one, or the end. `None` where `s`
/// holds no `sep`.
pub open spec fn spec_second_field(s: Seq<char>, sep: char) -> Option<Seq<char>> {
    let first = spec_find(s, sep, 0);
    if first >= s.len() {
        None
    } else {
        Some(s.subrange(first + 1, spec_find(s, sep, first + 1)))
    }
}

/// Takes the second of the fields into which `sep` divides `text`.
pub fn second_field<'a>(text: &'a [char], sep: char) -> (r: Option<&'a [char]>)
    ensures
        match r {
            Some(field) => spec_second_field(text@, sep) == Some(field@),
            None => spec_second_field(text@, sep) is None,
        },
{
    let first = find(text, sep, 0);
    if first >= text.len() {
        None
    } else {
        let next = find(text, sep, first + 1);
        Some(slice_subrange(text, first + 1, next))
    }
}

/// The least index `i >= from` whose character is outside `set`, or
/// `s.len()` where there is none.
pub open spec fn spec_skip(s: Seq<char>, set: CharSet, from: int) -> int
    decreases s.len() - from,
{
    if from >= s.len() {
        s.len() as int
    } else if set.has(s[from]) {
        spec_skip(s, set, from + 1)
    } else {
        from
    }
}

/// The least index `i >= from` whose character is inside `set`, or
/// `s.len()` where there is none.
pub open spec fn spec_skip_until(s: Seq<char>, set: CharSet, from: int) -> int
    decreases s.len() - from,
{
    if from >= s.len() {
        s.len() as int
    } else if set.has(s[from]) {
        from
    } else {
        spec_skip_until(s, set, from + 1)
    }
}

/// The least end `e` with `lo <= e <= hi` such that every character of
/// `s` from `e` up to `hi` is inside `set`.
pub open spec fn spec_skip_back(s: Seq<char>, set: CharSet, lo: int, hi: int) -> int
    decreases hi,
{
    if hi <= lo || hi <= 0 {
        lo
    } else if set.has(s[hi - 1]) {
        spec_skip_back(s, set, lo, hi - 1)
    } else {
        hi
    }
}

/// `spec_skip` stays inside the text, passes over characters of the set
/// only, and stops at the first character outside it.
pub proof fn lemma_skip_bounds(s: Seq<char>, set: CharSet, from: int)
    requires
        0 <= from <= s.len(),
    ensures
        from <= spec_skip(s, set, from) <= s.len(),
        spec_skip(s, set, from) < s.len() ==> !set.has(s[spec_skip(s, set, from)]),
        forall|k: int| from <= k < spec_skip(s, set, from) ==> set.has(#[trigger] s[k]),
    decreases s.len() - from,
{
    if from < s.len() && set.has(s[from]) {
        lemma_skip_bounds(s, set, from + 1);
    }
}

/// `spec_skip_until` stays inside the text.
pub proof fn lemma_skip_until_bounds(s: Seq<char>, set: CharSet, from: int)
    requires
        0 <= from <= s.len(),
    ensures
        from <= spec_skip_until(s, set, from) <= s.len(),
        spec_skip_until(s, set, from) < s.len() ==> set.has(s[spec_skip_until(s, set, from)]),
    decreases s.len() - from,
{
    if from < s.len() && !set.has(s[from]) {
        lemma_skip_until_bounds(s, set, from + 1);
    }
}

/// `s` without its longest prefix made of characters of `set`.
pub open spec fn spec_trim_start_matches(s: Seq<char>, set: CharSet) -> Seq<char> {
    s.subrange(spec_skip(s, set, 0), s.len() as int)
}

/// `s` without its longest suffix made of characters of `set`.
pub open spec fn spec_trim_end_matches(s: Seq<char>, set: CharSet) -> Seq<char> {
    s.subrange(0, spec_skip_back(s, set, 0, s.len() as int))
}

/// `s` without its longest prefix and, of what is left, without its
/// longest suffix made of characters of `set`.
pub open spec fn spec_trim_matches(s: Seq<char>, set: CharSet) -> Seq<char> {
    let start = spec_skip(s, set, 0);
    s.subrange(start, spec_skip_back(s, set, start, s.len() as int))
}

/// `s` without leading and trailing whitespace.
pub open spec fn spec_trim(s: Seq<char>) -> Seq<char> {
    spec_trim_matches(s, CharSet::Whitespace)
}

/// Skips the characters of `set` that begin at `from`.
pub fn skip(text: &[char], set: &CharSet, from: usize) -> (r: usize)
    ensures
        r == spec_skip(text@, *set, from as int),
        r <= text@.len(),
        from <= text@.len() ==> from <= r,
{
    if from >= text.len() {
        return text.len();
    }
    let mut i: usize = from;
    while i < text.len() && set.contains(text[i])
        invariant
            from <= i <= text@.len(),
            spec_skip(text@, *set, from as int) == spec_skip(text@, *set, i as int),
        decreases text@.len() - i,
    {
        i += 1;
    }
    i
}

/// Skips the characters outside `set` that begin at `from`.
pub fn skip_until(text: &[char], set: &CharSet, from: usize) -> (r: usize)
    ensures
        r == spec_skip_until(text@, *set, from as int),
        r <= text@.len(),
        from <= text@.len() ==> from <= r,
{
    if from >= text.len() {
        return text.len();
    }
    let mut i: usize = from;
    while i < text.len() && !set.contains(text[i])
        invariant
            from <= i <= text@.len(),
            spec_skip_until(text@, *set, from as int) == spec_skip_until(text@, *set, i as int),
        decreases text@.len() - i,
    {
        i += 1;
    }
    i
}

/// Walks back from `hi` over the characters of `set`, no further than `lo`.
fn skip_back(text: &[char], set: &CharSet, lo: usize, hi: usize) -> (r: usize)
    requires
        lo <= hi <= text@.len(),
    ensures
        r == spec_skip_back(text@, *set, lo as int, hi as int),
        lo <= r <= hi,
{
    let mut j: usize = hi;
    while j > lo && set.contains(text[j - 1])
        invariant
            lo <= j <= hi,
            hi <= text@.len(),
            spec_skip_back(text@, *set, lo as int, hi as int) == spec_skip_back(
                text@,
                *set,
                lo as int,
                j as int,
            ),
        decreases j,
    {
        j -= 1;
    }
    j
}

/// Removes the characters of `set` from the start of `text`.
pub fn trim_start_matches<'a>(text: &'a [char], set: &CharSet) -> (r: &'a [char])
    ensures
        r@ == spec_trim_start_matches(text@, *set),
{
    let start = skip(text, set, 0);
    slice_subrange(text, start, text.len())
}

/// Removes the characters of `set` from the end of `text`.
pub fn trim_end_matches<'a>(text: &'a [char], set: &CharSet) -> (r: &'a [char])
    ensures
        r@ == spec_trim_end_matches(text@, *set),
{
    let end = skip_back(text, set, 0, text.len());
    slice_subrange(text, 0, end)
}

/// Removes the characters of `set` from both ends of `text`.
pub fn trim_matches<'a>(text: &'a [char], set: &CharSet) -> (r: &'a [char])
    ensures
        r@ == spec_trim_matches(text@, *set),
{
    let start = skip(text, set, 0);
    let end = skip_back(text, set, start, text.len());
    slice_subrange(text, start, end)
}

/// Removes whitespace from both ends of `text`.
pub fn trim<'a>(text: &'a [char]) -> (r: &'a [char])
    ensures
        r@ == spec_trim(text@),
{
    trim_matches(text, &CharSet::Whitespace)
}

/// The texts that the slices of `v` hold.
pub open spec fn views(v: Seq<&[char]>) -> Seq<Seq<char>> {
    Seq::new(v.len(), |i: int| v[i]@)
}

/// The line of `s` that begins at `start`: what stands before the next
/// line feed, without a carriage return that directly precedes that line
/// feed. A last line that no line feed ends is taken as it stands.
pub open spec fn line_at(s: Seq<char>, start: int) -> Seq<char> {
    let end = spec_find(s, '\n', start);
    if end < s.len() && start < end && s[end - 1] == '\r' {
        s.subrange(start, end - 1)
    } else {
        s.subrange(start, end)
    }
}

/// Where the line after the one that begins at `start` begins: behind the
/// next line feed, or at the end of the text.
pub open spec fn line_next(s: Seq<char>, start: int) -> int {
    let end = spec_find(s, '\n', start);
    if end < s.len() {
        end + 1
    } else {
        s.len() as int
    }
}

/// The lines of `s` from index `start` on.
pub open spec fn lines_from(s: Seq<char>, start: int) -> Seq<Seq<char>>
    decreases s.len() - start,
{
    if start < 0 || start >= s.len() {
        Seq::empty()
    } else {
        proof {
            lemma_find(s, '\n', start);
        }
        seq![line_at(s, start)] + lines_from(s, line_next(s, start))
    }
}

/// The lines of `s`. A line ends at a line feed or at the end of the text;
/// a line feed at the very end opens no further line.
pub open spec fn spec_lines(s: Seq<char>) -> Seq<Seq<char>> {
    lines_from(s, 0)
}

/// Splits `text` into its lines.
pub fn split_lines<'a>(text: &'a [char]) -> (r: Vec<&'a [char]>)
    ensures
        views(r@) == spec_lines(text@),
{
    let mut out: Vec<&'a [char]> = Vec::new();
    let n: usize = text.len();
    let mut pos: usize = 0;
    while pos < n
        invariant
            n == text@.len(),
            pos <= n,
            views(out@) + lines_from(text@, pos as int) == spec_lines(text@),
        decreases n - pos,
    {
        let end = find(text, '\n', pos);
        let line = if end < n && pos < end && text[end - 1] == '\r' {
            slice_subrange(text, pos, end - 1)
        } else {
            slice_subrange(text, pos, end)
        };
        let next: usize = if end < n {
            end + 1
        } else {
            n
        };
        proof {
            let rest = lines_from(text@, next as int);
            assert(line@ == line_at(text@, pos as int));
            assert(next == line_next(text@, pos as int));
            assert(lines_from(text@, pos as int) == seq![line@] + rest);
            assert(views(out@.push(line)) =~= views(out@) + seq![line@]);
            assert((views(out@) + seq![line@]) + rest =~= views(out@) + (seq![line@] + rest));
        }
        out.push(line);
        pos = next;
    }
    assert(views(out@) + Seq::<Seq<char>>::empty() =~= views(out@));
    out
}

/// The words of `s` from index `from` on.
pub open spec fn words_from(s: Seq<char>, from: int) -> Seq<Seq<char>>
    decreases s.len() - from,
{
    let start = spec_skip(s, CharSet::Whitespace, from);
    if from < 0 || start >= s.len() {
        Seq::empty()
    } else {
        let end = spec_skip_until(s, CharSet::Whitespace, start);
        proof {
            lemma_skip_bounds(s, CharSet::Whitespace, from);
            lemma_skip_until_bounds(s, CharSet::Whitespace, start + 1);
        }
        seq![s.subrange(start, end)] + words_from(s, end)
    }
}

/// The words of `s`: its longest parts that hold no whitespace and are not
/// empty, in order.
pub open spec fn spec_words(s: Seq<char>) -> Seq<Seq<char>> {
    words_from(s, 0)
}

/// Splits `text` at whitespace into its words.
pub fn split_whitespace<'a>(text: &'a [char]) -> (r: Vec<&'a [char]>)
    ensures
        views(r@) == spec_words(text@),
{
    let mut out: Vec<&'a [char]> = Vec::new();
    let n: usize = text.len();
    let mut pos: usize = 0;
    loop
        invariant
            n == text@.len(),
            pos <= n,
            views(out@) + words_from(text@, pos as int) == spec_words(text@),
        decreases n - pos,
    {
        let start = skip(text, &CharSet::Whitespace, pos);
        if start >= n {
            assert(views(out@) + Seq::<Seq<char>>::empty() =~= views(out@));
            return out;
        }
        let end = skip_until(text, &CharSet::Whitespace, start);
        let word = slice_subrange(text, start, end);
        proof {
            lemma_skip_bounds(text@, CharSet::Whitespace, pos as int);
            lemma_skip_until_bounds(text@, CharSet::Whitespace, start + 1);
            let rest = words_from(text@, end as int);
            assert(words_from(text@, pos as int) == seq![word@] + rest);
            assert(views(out@.push(word)) =~= views(out@) + seq![word@]);
            assert((views(out@) + seq![word@]) + rest =~= views(out@) + (seq![word@] + rest));
        }
        out.push(word);
        pos = end;
    }
}

/// The first value in `xs` at or after index `from`.
pub open spec fn first_some_from(xs: Seq<Option<u64>>, from: int) -> Option<u64>
    decreases xs.len() - from,
{
    if from < 0 || from >= xs.len() {
        None
    } else if xs[from] is Some {
        xs[from]
    } else {
        first_some_from(xs, from + 1)
    }
}

/// The first value in `xs`; `None` where `xs` holds none.
pub open spec fn first_some(xs: Seq<Option<u64>>) -> Option<u64> {
    first_some_from(xs, 0)
}

/// Entries that hold nothing do not change the first value.
pub proof fn lemma_first_some_skip(xs: Seq<Option<u64>>, from: int, upto: int)
    requires
        0 <= from <= upto <= xs.len(),
        forall|k: int| from <= k < upto ==> xs[k] is None,
    ensures
        first_some_from(xs, from) == first_some_from(xs, upto),
    decreases upto - from,
{
    if from < upto {
        lemma_first_some_skip(xs, from + 1, upto);
    }
}

/// The first value is the entry before which all entries hold nothing.
pub proof fn lemma_first_some_is(xs: Seq<Option<u64>>, at: int)
    requires
        0 <= at < xs.len(),
        xs[at] is Some,
        forall|k: int| 0 <= k < at ==> xs[k] is None,
    ensures
        first_some(xs) == xs[at],
{
    lemma_first_some_skip(xs, 0, at);
}

/// Whether `c` is one of the ten ASCII digits.
pub open spec fn is_digit(c: char) -> bool {
    '0' <= c <= '9'
}

/// The number that the digit `c` stands for.
pub open spec fn digit_value(c: char) -> nat {
    (c as u32 - '0' as u32) as nat
}

/// Whether every character of `s` is a digit.
pub open spec fn all_digits(s: Seq<char>) -> bool {
    forall|i: int| 0 <= i < s.len() ==> is_digit(#[trigger] s[i])
}

/// The number that the digits of `s` write in base ten; 0 for the empty
/// text.
pub open spec fn digits_value(s: Seq<char>) -> nat
    decreases s.len(),
{
    if s.len() == 0 {
        0
    } else {
        digits_value(s.drop_last()) * 10 + digit_value(s.last())
    }
}

/// `s` without a `+` at its start.
pub open spec fn unsigned_body(s: Seq<char>) -> Seq<char> {
    if s.len() > 0 && s[0] == '+' {
        s.drop_first()
    } else {
        s
    }
}

/// What an unsigned 64-bit number written as `s` is: an optional `+`, then
/// at least one digit, and a value that fits. `None` for any other text.
pub open spec fn spec_parse_u64(s: Seq<char>) -> Option<u64> {
    let body = unsigned_body(s);
    if body.len() > 0 && all_digits(body) && digits_value(body) <= u64::MAX {
        Some(digits_value(body) as u64)
    } else {
        None
    }
}

/// A longer run of digits writes a number that is no smaller.
pub proof fn lemma_digits_value_prefix(s: Seq<char>, n: int)
    requires
        0 <= n <= s.len(),
    ensures
        digits_value(s.take(n)) <= digits_value(s),
    decreases s.len(),
{
    if n < s.len() {
        lemma_digits_value_prefix(s.drop_last(), n);
        assert(s.drop_last().take(n) =~= s.take(n));
    } else {
        assert(s.take(n) =~= s);
    }
}

/// Tests whether `c` is a digit.
pub fn char_is_digit(c: char) -> (r: bool)
    ensures
        r == is_digit(c),
{
    let u: u32 = c as u32;
    0x30 <= u && u <= 0x39
}

/// Reads an unsigned 64-bit number.
pub fn parse_u64(text: &[char]) -> (r: Option<u64>)
    ensures
        r == spec_parse_u64(text@),
{
    let n: usize = text.len();
    let start: usize = if n > 0 && text[0] == '+' {
        1
    } else {
        0
    };
    let ghost body = text@.subrange(start as int, n as int);
    assert(body =~= unsigned_body(text@));
    if start >= n {
        return None;
    }
    let mut acc: u64 = 0;
    let mut i: usize = start;
    while i < n
        invariant
            n == text@.len(),
            start <= i <= n,
            body == text@.subrange(start as int, n as int),
            body == unsigned_body(text@),
            all_digits(body.take(i - start)),
            acc == digits_value(body.take(i - start)),
        decreases n - i,
    {
        let c = text[i];
        let ghost upto = body.take(i - start + 1);
        assert(upto.drop_last() =~= body.take(i - start));
        assert(upto.last() == c);
        if !char_is_digit(c) {
            assert(!is_digit(body[i - start]));
            return None;
        }
        let d: u64 = (c as u32 - 0x30) as u64;
        assert(d == digit_value(c));
        if acc > (u64::MAX - d) / 10 {
            proof {
                assert(digits_value(upto) > u64::MAX);
                lemma_digits_value_prefix(body, i - start + 1);
            }
            return None;
        }
        acc = acc * 10 + d;
        i += 1;
    }
    assert(body.take(n - start) =~= body);
    Some(acc)
}

} // verus!
