//! Character-level text operations with exact specifications.
//!
//! Every operation is specified over `Seq<char>` and implemented over
//! `Vec<char>`; strings are converted at the boundary with [`chars_of`] and
//! [`string_of`].

use vstd::prelude::*;

verus! {

/// `String::push` appends one character to the end of the string.
pub assume_specification[ String::push ](s: &mut String, ch: char)
    ensures
        final(s)@ == old(s)@.push(ch),
;

/// The characters of a string slice, in order.
pub fn chars_of(s: &str) -> (v: Vec<char>)
    ensures
        v@ == s@,
{
    let mut v: Vec<char> = Vec::new();
    for c in it: s.chars()
        invariant
            v@ == it.seq().take(it.index()),
            it.seq() == s@,
    {
        v.push(c);
    }
    v
}

/// The string made of the given characters.
pub fn string_of(v: &Vec<char>) -> (s: String)
    ensures
        s@ == v@,
{
    let mut s = String::new();
    let mut i: usize = 0;
    while i < v.len()
        invariant
            i <= v.len(),
            s@ == v@.take(i as int),
        decreases v.len() - i,
    {
        s.push(v[i]);
        i += 1;
    }
    s
}

/// The strings made of each row of characters.
pub fn strings_of(rows: &Vec<Vec<char>>) -> (out: Vec<String>)
    ensures
        texts_of(out@) == rows_of(rows@),
{
    let mut out: Vec<String> = Vec::new();
    let mut i: usize = 0;
    while i < rows.len()
        invariant
            i <= rows.len(),
            texts_of(out@) =~= rows_of(rows@).take(i as int),
        decreases rows.len() - i,
    {
        let s = string_of(&rows[i]);
        let ghost before = texts_of(out@);
        out.push(s);
        assert(texts_of(out@) =~= before.push(rows@[i as int]@));
        i += 1;
    }
    out
}

/// A copy of each string.
pub fn copy_texts(v: &Vec<String>) -> (out: Vec<String>)
    ensures
        texts_of(out@) == texts_of(v@),
{
    let mut out: Vec<String> = Vec::new();
    let mut i: usize = 0;
    while i < v.len()
        invariant
            i <= v.len(),
            texts_of(out@) =~= texts_of(v@).take(i as int),
        decreases v.len() - i,
    {
        let s = v[i].clone();
        let ghost before = texts_of(out@);
        out.push(s);
        assert(texts_of(out@) =~= before.push(v@[i as int]@));
        i += 1;
    }
    out
}

/// A copy of an optional string.
pub fn copy_opt_text(o: &Option<String>) -> (r: Option<String>)
    ensures
        crate::types::opt_text(r) == crate::types::opt_text(*o),
{
    match o {
        Some(s) => Some(s.clone()),
        None => None,
    }
}

/// Appends a copy of each string of `tail` to `out`.
pub fn extend_texts(out: &mut Vec<String>, tail: &Vec<String>)
    ensures
        texts_of(final(out)@) == texts_of(old(out)@) + texts_of(tail@),
{
    let ghost all = texts_of(tail@);
    let n = tail.len();
    let mut i: usize = 0;
    while i < n
        invariant
            i <= n == tail.len(),
            all == texts_of(tail@),
            texts_of(out@) == texts_of(old(out)@) + all.take(i as int),
        decreases n - i,
    {
        let unit = tail[i].clone();
        let ghost before = texts_of(out@);
        out.push(unit);
        assert(texts_of(out@) =~= before.push(all[i as int]));
        i += 1;
    }
}

/// Appends the characters of a string slice to `out`.
pub fn push_text(out: &mut Vec<char>, s: &str)
    ensures
        final(out)@ == old(out)@ + s@,
{
    let tail = chars_of(s);
    append_chars(out, &tail);
}

/// The lists written one after another.
pub open spec fn chained(parts: Seq<Seq<Seq<char>>>) -> Seq<Seq<char>>
    decreases parts.len(),
{
    if parts.len() == 0 {
        Seq::empty()
    } else {
        chained(parts.drop_last()) + parts.last()
    }
}

/// The character sequences that a vector of rows holds.
pub open spec fn rows_of(v: Seq<Vec<char>>) -> Seq<Seq<char>> {
    Seq::new(v.len(), |i: int| v[i]@)
}

/// The character sequences that a vector of strings holds.
pub open spec fn texts_of(v: Seq<String>) -> Seq<Seq<char>> {
    Seq::new(v.len(), |i: int| v[i]@)
}

/// The characters `s[from..to]`.
pub fn slice_of(v: &Vec<char>, from: usize, to: usize) -> (r: Vec<char>)
    requires
        from <= to <= v.len(),
    ensures
        r@ == v@.subrange(from as int, to as int),
{
    let mut r: Vec<char> = Vec::new();
    let mut i: usize = from;
    while i < to
        invariant
            from <= i <= to <= v.len(),
            r@ == v@.subrange(from as int, i as int),
        decreases to - i,
    {
        r.push(v[i]);
        i += 1;
    }
    r
}

/// Appends the characters of `tail` to `out`.
pub fn append_chars(out: &mut Vec<char>, tail: &Vec<char>)
    ensures
        final(out)@ == old(out)@ + tail@,
{
    let mut i: usize = 0;
    while i < tail.len()
        invariant
            i <= tail.len(),
            out@ == old(out)@ + tail@.take(i as int),
        decreases tail.len() - i,
    {
        out.push(tail[i]);
        i += 1;
    }
}

/// Whether two character sequences are equal.
pub fn same_chars(a: &Vec<char>, b: &Vec<char>) -> (r: bool)
    ensures
        r == (a@ == b@),
{
    if a.len() != b.len() {
        return false;
    }
    let mut i: usize = 0;
    while i < a.len()
        invariant
            i <= a.len(),
            a.len() == b.len(),
            a@.take(i as int) == b@.take(i as int),
        decreases a.len() - i,
    {
        if a[i] != b[i] {
            return false;
        }
        i += 1;
    }
    assert(a@.take(a.len() as int) == a@);
    assert(b@.take(b.len() as int) == b@);
    true
}

/// Whether the characters spell exactly the given string.
pub fn spells(a: &Vec<char>, word: &str) -> (r: bool)
    ensures
        r == (a@ == word@),
{
    let w = chars_of(word);
    same_chars(a, &w)
}

/// The characters with the Unicode `White_Space` property.
pub open spec fn spec_is_space(c: char) -> bool {
    let n = c as u32;
    ||| 0x09 <= n <= 0x0D
    ||| n == 0x20
    ||| n == 0x85
    ||| n == 0xA0
    ||| n == 0x1680
    ||| 0x2000 <= n <= 0x200A
    ||| n == 0x2028
    ||| n == 0x2029
    ||| n == 0x202F
    ||| n == 0x205F
    ||| n == 0x3000
}

pub fn is_space(c: char) -> (b: bool)
    ensures
        b == spec_is_space(c),
{
    let n: u32 = c as u32;
    (0x09 <= n && n <= 0x0D) || n == 0x20 || n == 0x85 || n == 0xA0 || n == 0x1680 || (0x2000 <= n
        && n <= 0x200A) || n == 0x2028 || n == 0x2029 || n == 0x202F || n == 0x205F || n == 0x3000
}

/// The first index at or after `i` that holds no whitespace (the length if
/// there is none).
pub open spec fn leading_spaces(s: Seq<char>, i: int) -> int
    decreases s.len() - i,
{
    if 0 <= i < s.len() && spec_is_space(s[i]) {
        leading_spaces(s, i + 1)
    } else {
        i
    }
}

/// The end of the content of `s[..j]`: the least `e` such that `s[e..j]` is
/// all whitespace.
pub open spec fn content_end(s: Seq<char>, j: int) -> int
    decreases j,
{
    if 0 < j <= s.len() && spec_is_space(s[j - 1]) {
        content_end(s, j - 1)
    } else {
        j
    }
}

/// `s` without its leading and trailing whitespace.
pub open spec fn trimmed(s: Seq<char>) -> Seq<char> {
    let b = leading_spaces(s, 0);
    let e = content_end(s, s.len() as int);
    if b < e {
        s.subrange(b, e)
    } else {
        Seq::empty()
    }
}

proof fn lemma_leading_spaces_bounds(s: Seq<char>, i: int)
    requires
        0 <= i <= s.len(),
    ensures
        i <= leading_spaces(s, i) <= s.len(),
        forall|k: int| i <= k < leading_spaces(s, i) ==> spec_is_space(s[k]),
        leading_spaces(s, i) < s.len() ==> !spec_is_space(s[leading_spaces(s, i)]),
    decreases s.len() - i,
{
    if i < s.len() && spec_is_space(s[i]) {
        lemma_leading_spaces_bounds(s, i + 1);
    }
}

proof fn lemma_content_end_bounds(s: Seq<char>, j: int)
    requires
        0 <= j <= s.len(),
    ensures
        0 <= content_end(s, j) <= j,
        forall|k: int| content_end(s, j) <= k < j ==> spec_is_space(s[k]),
        content_end(s, j) > 0 ==> !spec_is_space(s[content_end(s, j) - 1]),
    decreases j,
{
    if 0 < j && spec_is_space(s[j - 1]) {
        lemma_content_end_bounds(s, j - 1);
    }
}

proof fn lemma_content_end_prefix(a: Seq<char>, b: Seq<char>, j: int)
    requires
        0 <= j <= a.len(),
        j <= b.len(),
        forall|k: int| 0 <= k < j ==> a[k] == b[k],
    ensures
        content_end(a, j) == content_end(b, j),
    decreases j,
{
    if 0 < j && spec_is_space(a[j - 1]) {
        lemma_content_end_prefix(a, b, j - 1);
    }
}

proof fn lemma_content_end_padded(s: Seq<char>, ws: Seq<char>)
    requires
        forall|k: int| 0 <= k < ws.len() ==> spec_is_space(#[trigger] ws[k]),
    ensures
        content_end(s + ws, (s + ws).len() as int) == content_end(s, s.len() as int),
    decreases ws.len(),
{
    if ws.len() > 0 {
        let n = (s + ws).len() as int;
        lemma_content_end_padded(s, ws.drop_last());
        lemma_content_end_prefix(s + ws, s + ws.drop_last(), n - 1);
    }
}

proof fn lemma_leading_spaces_padded(s: Seq<char>, ws: Seq<char>, i: int)
    requires
        0 <= i <= s.len(),
    ensures
        leading_spaces(s, i) < s.len() ==> leading_spaces(s + ws, i) == leading_spaces(s, i),
        leading_spaces(s, i) >= s.len() ==> leading_spaces(s + ws, i) >= s.len(),
    decreases s.len() - i,
{
    if i < s.len() {
        if spec_is_space(s[i]) {
            lemma_leading_spaces_padded(s, ws, i + 1);
        }
    } else {
        lemma_leading_spaces_bounds(s + ws, i);
    }
}

/// Whitespace at the end of a line is no part of the trimmed line.
pub proof fn lemma_trimmed_ignores_padding(s: Seq<char>, ws: Seq<char>)
    requires
        forall|k: int| 0 <= k < ws.len() ==> spec_is_space(#[trigger] ws[k]),
    ensures
        trimmed(s + ws) == trimmed(s),
{
    lemma_content_end_padded(s, ws);
    lemma_leading_spaces_padded(s, ws, 0);
    lemma_leading_spaces_bounds(s, 0);
    lemma_content_end_bounds(s, s.len() as int);
    let b = leading_spaces(s, 0);
    let e = content_end(s, s.len() as int);
}

pub fn trim(v: &Vec<char>) -> (r: Vec<char>)
    ensures
        r@ == trimmed(v@),
{
    let n = v.len();
    let mut b: usize = 0;
    while b < n && is_space(v[b])
        invariant
            b <= n == v.len(),
            leading_spaces(v@, 0) == leading_spaces(v@, b as int),
        decreases n - b,
    {
        b += 1;
    }
    let mut e: usize = n;
    while e > 0 && is_space(v[e - 1])
        invariant
            e <= n == v.len(),
            content_end(v@, n as int) == content_end(v@, e as int),
        decreases e,
    {
        e -= 1;
    }
    if b < e {
        slice_of(v, b, e)
    } else {
        Vec::new()
    }
}

/// Whether `s` begins with `p`.
pub open spec fn has_prefix(s: Seq<char>, p: Seq<char>) -> bool {
    p.len() <= s.len() && s.take(p.len() as int) == p
}

/// Whether `s` ends with `p`.
pub open spec fn has_suffix(s: Seq<char>, p: Seq<char>) -> bool {
    p.len() <= s.len() && s.skip(s.len() - p.len()) == p
}

pub fn starts_with(v: &Vec<char>, p: &Vec<char>) -> (r: bool)
    ensures
        r == has_prefix(v@, p@),
{
    if p.len() > v.len() {
        return false;
    }
    let head = slice_of(v, 0, p.len());
    same_chars(&head, p)
}

pub fn ends_with(v: &Vec<char>, p: &Vec<char>) -> (r: bool)
    ensures
        r == has_suffix(v@, p@),
{
    if p.len() > v.len() {
        return false;
    }
    let tail = slice_of(v, v.len() - p.len(), v.len());
    same_chars(&tail, p)
}

/// Whether the character occurs in the sequence.
pub fn contains_char(v: &Vec<char>, c: char) -> (r: bool)
    ensures
        r == v@.contains(c),
{
    let mut i: usize = 0;
    while i < v.len()
        invariant
            i <= v.len(),
            forall|k: int| 0 <= k < i ==> v@[k] != c,
        decreases v.len() - i,
    {
        if v[i] == c {
            return true;
        }
        i += 1;
    }
    false
}

/// The first index at or after `i` that holds `c` (the length if there is
/// none).
pub open spec fn first_index_from(s: Seq<char>, c: char, i: int) -> int
    decreases s.len() - i,
{
    if 0 <= i < s.len() && s[i] != c {
        first_index_from(s, c, i + 1)
    } else {
        i
    }
}

/// The index of the first occurrence of `c` in `s` (the length if there is
/// none).
pub open spec fn first_index(s: Seq<char>, c: char) -> int {
    first_index_from(s, c, 0)
}

pub fn find_char(v: &Vec<char>, c: char) -> (k: usize)
    ensures
        k == first_index(v@, c),
        k <= v.len(),
        k < v.len() ==> v@[k as int] == c,
{
    let mut k: usize = 0;
    while k < v.len() && v[k] != c
        invariant
            k <= v.len(),
            first_index(v@, c) == first_index_from(v@, c, k as int),
        decreases v.len() - k,
    {
        k += 1;
    }
    k
}

/// The pieces of `s` between occurrences of `sep`, scanning from `i` with the
/// current piece starting at `start`.
pub open spec fn split_from(s: Seq<char>, sep: char, start: int, i: int) -> Seq<Seq<char>>
    decreases s.len() - i,
{
    if i < 0 || i >= s.len() {
        seq![s.subrange(start, s.len() as int)]
    } else if s[i] == sep {
        seq![s.subrange(start, i)] + split_from(s, sep, i + 1, i + 1)
    } else {
        split_from(s, sep, start, i + 1)
    }
}

/// The pieces of `s` between occurrences of `sep`: one more than the number
/// of separators, empty pieces included.
pub open spec fn split(s: Seq<char>, sep: char) -> Seq<Seq<char>> {
    split_from(s, sep, 0, 0)
}

pub fn split_chars(v: &Vec<char>, sep: char) -> (out: Vec<Vec<char>>)
    ensures
        rows_of(out@) == split(v@, sep),
{
    let mut out: Vec<Vec<char>> = Vec::new();
    let mut start: usize = 0;
    let mut i: usize = 0;
    while i < v.len()
        invariant
            start <= i <= v.len(),
            split(v@, sep) == rows_of(out@) + split_from(v@, sep, start as int, i as int),
        decreases v.len() - i,
    {
        if v[i] == sep {
            let piece = slice_of(v, start, i);
            out.push(piece);
            start = i + 1;
        }
        i += 1;
    }
    let piece = slice_of(v, start, v.len());
    out.push(piece);
    out
}

/// The maximal runs of non-whitespace in `s`, scanning from `i` with the
/// current run starting at `start`.
pub open spec fn words_from(s: Seq<char>, start: int, i: int) -> Seq<Seq<char>>
    decreases s.len() - i,
{
    let done = if start < i {
        seq![s.subrange(start, i)]
    } else {
        Seq::empty()
    };
    if i < 0 || i >= s.len() {
        done
    } else if spec_is_space(s[i]) {
        done + words_from(s, i + 1, i + 1)
    } else {
        words_from(s, if start < i { start } else { i }, i + 1)
    }
}

/// The whitespace-separated words of `s`.
pub open spec fn words(s: Seq<char>) -> Seq<Seq<char>> {
    words_from(s, 0, 0)
}

pub fn split_words(v: &Vec<char>) -> (out: Vec<Vec<char>>)
    ensures
        rows_of(out@) == words(v@),
{
    let mut out: Vec<Vec<char>> = Vec::new();
    let mut start: usize = 0;
    let mut i: usize = 0;
    while i < v.len()
        invariant
            start <= i <= v.len(),
            words(v@) == rows_of(out@) + words_from(v@, start as int, i as int),
        decreases v.len() - i,
    {
        if is_space(v[i]) {
            if start < i {
                let piece = slice_of(v, start, i);
                out.push(piece);
            }
            start = i + 1;
        }
        i += 1;
    }
    if start < i {
        let piece = slice_of(v, start, i);
        out.push(piece);
    }
    out
}

/// A line without the carriage return that precedes its line feed.
pub open spec fn without_cr(l: Seq<char>) -> Seq<char> {
    if l.len() > 0 && l.last() == '\r' {
        l.drop_last()
    } else {
        l
    }
}

/// The lines of `s`, scanning from `i` with the current line starting at
/// `start`.
pub open spec fn lines_from(s: Seq<char>, start: int, i: int) -> Seq<Seq<char>>
    decreases s.len() - i,
{
    if i < 0 || i >= s.len() {
        if start < s.len() {
            seq![s.subrange(start, s.len() as int)]
        } else {
            Seq::empty()
        }
    } else if s[i] == '\n' {
        seq![without_cr(s.subrange(start, i))] + lines_from(s, i + 1, i + 1)
    } else {
        lines_from(s, start, i + 1)
    }
}

/// The lines of a text. A line ends at a line feed, or at a carriage return
/// directly followed by one; the terminator is not part of the line, and a
/// final terminator opens no further line.
pub open spec fn lines(s: Seq<char>) -> Seq<Seq<char>> {
    lines_from(s, 0, 0)
}

pub fn split_lines(v: &Vec<char>) -> (out: Vec<Vec<char>>)
    ensures
        rows_of(out@) == lines(v@),
{
    let mut out: Vec<Vec<char>> = Vec::new();
    let mut start: usize = 0;
    let mut i: usize = 0;
    while i < v.len()
        invariant
            start <= i <= v.len(),
            lines(v@) == rows_of(out@) + lines_from(v@, start as int, i as int),
        decreases v.len() - i,
    {
        if v[i] == '\n' {
            let end = if start < i && v[i - 1] == '\r' {
                i - 1
            } else {
                i
            };
            let piece = slice_of(v, start, end);
            assert(piece@ =~= without_cr(v@.subrange(start as int, i as int)));
            out.push(piece);
            start = i + 1;
        }
        i += 1;
    }
    if start < v.len() {
        let piece = slice_of(v, start, v.len());
        out.push(piece);
    }
    out
}

/// The rows written one after another with `sep` between them.
pub open spec fn joined(rows: Seq<Seq<char>>, sep: char) -> Seq<char>
    decreases rows.len(),
{
    if rows.len() == 0 {
        Seq::empty()
    } else if rows.len() == 1 {
        rows[0]
    } else {
        joined(rows.drop_last(), sep).push(sep) + rows.last()
    }
}

proof fn lemma_joined_prepend(first: Seq<char>, rest: Seq<Seq<char>>, sep: char)
    requires
        rest.len() >= 1,
    ensures
        joined(seq![first] + rest, sep) == first.push(sep) + joined(rest, sep),
    decreases rest.len(),
{
    let all = seq![first] + rest;
    if rest.len() == 1 {
        assert(joined(all.drop_last(), sep) =~= first);
    } else {
        assert(all.drop_last() =~= seq![first] + rest.drop_last());
        lemma_joined_prepend(first, rest.drop_last(), sep);
    }
}

proof fn lemma_split_from_joined(s: Seq<char>, sep: char, start: int, i: int)
    requires
        0 <= start <= i <= s.len(),
        forall|k: int| start <= k < i ==> s[k] != sep,
    ensures
        split_from(s, sep, start, i).len() >= 1,
        joined(split_from(s, sep, start, i), sep) == s.subrange(start, s.len() as int),
        forall|k: int|
            0 <= k < split_from(s, sep, start, i).len() ==> !(#[trigger] split_from(
                s,
                sep,
                start,
                i,
            )[k]).contains(sep),
    decreases s.len() - i,
{
    if i < s.len() && s[i] == sep {
        let rest = split_from(s, sep, i + 1, i + 1);
        let first = s.subrange(start, i);
        lemma_split_from_joined(s, sep, i + 1, i + 1);
        lemma_joined_prepend(first, rest, sep);
    } else if i < s.len() {
        lemma_split_from_joined(s, sep, start, i + 1);
    }
}

/// What a split is: there is at least one piece, no piece holds the
/// separator, and the pieces with the separator between them are the text.
pub proof fn lemma_split_joined(s: Seq<char>, sep: char)
    ensures
        split(s, sep).len() >= 1,
        joined(split(s, sep), sep) == s,
        forall|k: int|
            0 <= k < split(s, sep).len() ==> !(#[trigger] split(s, sep)[k]).contains(sep),
{
    lemma_split_from_joined(s, sep, 0, 0);
}

pub fn join_rows(rows: &Vec<Vec<char>>, sep: char) -> (out: Vec<char>)
    ensures
        out@ == joined(rows_of(rows@), sep),
{
    let mut out: Vec<char> = Vec::new();
    let mut i: usize = 0;
    while i < rows.len()
        invariant
            i <= rows.len(),
            out@ == joined(rows_of(rows@).take(i as int), sep),
        decreases rows.len() - i,
    {
        proof {
            let next = rows_of(rows@).take(i + 1);
            assert(next.drop_last() =~= rows_of(rows@).take(i as int));
        }
        if i > 0 {
            out.push(sep);
        }
        append_chars(&mut out, &rows[i]);
        i += 1;
    }
    assert(rows_of(rows@).take(rows.len() as int) =~= rows_of(rows@));
    out
}

/// The units written one after another.
pub open spec fn concat(units: Seq<Seq<char>>) -> Seq<char>
    decreases units.len(),
{
    if units.len() == 0 {
        Seq::empty()
    } else {
        concat(units.drop_last()) + units.last()
    }
}

/// A single unit, written out, is itself.
pub proof fn lemma_concat_one(unit: Seq<char>)
    ensures
        concat(seq![unit]) == unit,
{
    let only = seq![unit];
    assert(concat(only.drop_last()) =~= Seq::<char>::empty());
}

/// Writing out two lists in a row is writing out the one, then the other.
pub proof fn lemma_concat_append(a: Seq<Seq<char>>, b: Seq<Seq<char>>)
    ensures
        concat(a + b) == concat(a) + concat(b),
    decreases b.len(),
{
    if b.len() > 0 {
        assert((a + b).drop_last() =~= a + b.drop_last());
        lemma_concat_append(a, b.drop_last());
    }
}

/// The decimal digit characters.
pub open spec fn is_digit(c: char) -> bool {
    '0' <= c <= '9'
}

/// The character of a digit below ten.
pub open spec fn digit_char(d: nat) -> char {
    (48 + d) as char
}

/// The decimal numeral of `n`, without leading zeros.
pub open spec fn decimal(n: nat) -> Seq<char>
    decreases n,
{
    if n < 10 {
        seq![digit_char(n)]
    } else {
        decimal(n / 10).push(digit_char(n % 10))
    }
}

/// Appends the decimal numeral of `n` to `out`.
pub fn push_decimal(out: &mut Vec<char>, n: u64)
    ensures
        final(out)@ == old(out)@ + decimal(n as nat),
    decreases n,
{
    if n >= 10 {
        push_decimal(out, n / 10);
    }
    let d: u8 = (n % 10) as u8;
    let c: char = (48u8 + d) as char;
    out.push(c);
}

/// The number that a run of decimal digits denotes (zero for the empty run).
pub open spec fn digits_value(s: Seq<char>) -> nat
    decreases s.len(),
{
    if s.len() == 0 {
        0
    } else {
        digits_value(s.drop_last()) * 10 + ((s.last() as nat) - 48) as nat
    }
}

pub open spec fn all_digits(s: Seq<char>) -> bool {
    forall|i: int| 0 <= i < s.len() ==> is_digit(#[trigger] s[i])
}

/// A numeral without its optional leading plus sign.
pub open spec fn unsigned_body(s: Seq<char>) -> Seq<char> {
    if s.len() > 0 && s[0] == '+' {
        s.drop_first()
    } else {
        s
    }
}

/// The number that `s` denotes as an unsigned decimal numeral no larger than
/// `max`: an optional plus sign, then one or more digits.
pub open spec fn unsigned_of(s: Seq<char>, max: nat) -> Option<nat> {
    let body = unsigned_body(s);
    if body.len() > 0 && all_digits(body) && digits_value(body) <= max {
        Some(digits_value(body))
    } else {
        None
    }
}

proof fn lemma_digits_value_grows(s: Seq<char>, k: int)
    requires
        0 <= k <= s.len(),
        all_digits(s),
    ensures
        digits_value(s.take(k)) <= digits_value(s),
    decreases s.len() - k,
{
    if k < s.len() {
        lemma_digits_value_grows(s, k + 1);
        assert(s.take(k + 1).drop_last() =~= s.take(k));
    } else {
        assert(s.take(k) =~= s);
    }
}

pub fn parse_unsigned(v: &Vec<char>, max: u32) -> (r: Option<u32>)
    ensures
        match r {
            Some(n) => unsigned_of(v@, max as nat) == Some(n as nat),
            None => unsigned_of(v@, max as nat).is_none(),
        },
{
    let first: usize = if v.len() > 0 && v[0] == '+' {
        1
    } else {
        0
    };
    let ghost body = unsigned_body(v@);
    if first == v.len() {
        return None;
    }
    let mut acc: u64 = 0;
    let mut i: usize = first;
    while i < v.len()
        invariant
            first <= i <= v.len(),
            body == v@.skip(first as int),
            body == unsigned_body(v@),
            acc <= max,
            acc == digits_value(body.take(i - first)),
            all_digits(body.take(i - first)),
        decreases v.len() - i,
    {
        let c = v[i];
        if !('0' <= c && c <= '9') {
            assert(!is_digit(body[i - first]));
            return None;
        }
        let d: u64 = (c as u32 - 48) as u64;
        let next: u64 = acc * 10 + d;
        proof {
            assert(body.take(i - first + 1).drop_last() =~= body.take(i - first));
        }
        if next > max as u64 {
            proof {
                if all_digits(body) {
                    lemma_digits_value_grows(body, i - first + 1);
                }
            }
            return None;
        }
        acc = next;
        i += 1;
    }
    assert(body.take(i - first) =~= body);
    Some(acc as u32)
}

/// The first index at or after `i` that does not hold `c`.
pub open spec fn leading_run(s: Seq<char>, c: char, i: int) -> int
    decreases s.len() - i,
{
    if 0 <= i < s.len() && s[i] == c {
        leading_run(s, c, i + 1)
    } else {
        i
    }
}

/// The least `e` such that `s[e..j]` holds only `c`.
pub open spec fn trailing_run(s: Seq<char>, c: char, j: int) -> int
    decreases j,
{
    if 0 < j <= s.len() && s[j - 1] == c {
        trailing_run(s, c, j - 1)
    } else {
        j
    }
}

/// `s` without every leading and trailing occurrence of `c`.
pub open spec fn stripped(s: Seq<char>, c: char) -> Seq<char> {
    let b = leading_run(s, c, 0);
    let e = trailing_run(s, c, s.len() as int);
    if b < e {
        s.subrange(b, e)
    } else {
        Seq::empty()
    }
}

pub fn strip_char(v: &Vec<char>, c: char) -> (r: Vec<char>)
    ensures
        r@ == stripped(v@, c),
{
    let n = v.len();
    let mut b: usize = 0;
    while b < n && v[b] == c
        invariant
            b <= n == v.len(),
            leading_run(v@, c, 0) == leading_run(v@, c, b as int),
        decreases n - b,
    {
        b += 1;
    }
    let mut e: usize = n;
    while e > 0 && v[e - 1] == c
        invariant
            e <= n == v.len(),
            trailing_run(v@, c, n as int) == trailing_run(v@, c, e as int),
        decreases e,
    {
        e -= 1;
    }
    if b < e {
        slice_of(v, b, e)
    } else {
        Vec::new()
    }
}

} // verus!
