//! Text as sequences of characters.
//!
//! Every contract of this crate speaks of a string by its view, the sequence of
//! its characters. This module holds the operations on strings that the rest of
//! the crate is built from, each with the sequence that it returns.
use vstd::prelude::*;

verus! {

/// `String::push` appends the given character to the end of the string.
pub assume_specification[ String::push ](string: &mut String, c: char)
    ensures
        final(string)@ == old(string)@.push(c),
;

// ---------------------------------------------------------------------------
// Characters
// ---------------------------------------------------------------------------

/// The Unicode `White_Space` property, by which `str::trim` decides what to drop.
pub open spec fn is_space(c: char) -> bool {
    ||| '\u{9}' <= c <= '\u{d}'
    ||| c == ' '
    ||| c == '\u{85}'
    ||| c == '\u{a0}'
    ||| c == '\u{1680}'
    ||| '\u{2000}' <= c <= '\u{200a}'
    ||| c == '\u{2028}'
    ||| c == '\u{2029}'
    ||| c == '\u{202f}'
    ||| c == '\u{205f}'
    ||| c == '\u{3000}'
}

pub open spec fn is_digit(c: char) -> bool {
    '0' <= c <= '9'
}

pub open spec fn is_letter(c: char) -> bool {
    ('a' <= c <= 'z') || ('A' <= c <= 'Z')
}

/// The lower-case form of an ASCII letter; every other character is its own.
pub open spec fn lower_char(c: char) -> char {
    if 'A' <= c <= 'Z' {
        (c as u32 + 32) as char
    } else {
        c
    }
}

pub open spec fn lower(s: Seq<char>) -> Seq<char> {
    s.map_values(|c: char| lower_char(c))
}

pub fn char_is_space(c: char) -> (b: bool)
    ensures
        b == is_space(c),
{
    ('\u{9}' <= c && c <= '\u{d}') || c == ' ' || c == '\u{85}' || c == '\u{a0}' || c == '\u{1680}'
        || ('\u{2000}' <= c && c <= '\u{200a}') || c == '\u{2028}' || c == '\u{2029}' || c
        == '\u{202f}' || c == '\u{205f}' || c == '\u{3000}'
}

pub fn char_is_digit(c: char) -> (b: bool)
    ensures
        b == is_digit(c),
{
    '0' <= c && c <= '9'
}

pub fn char_is_letter(c: char) -> (b: bool)
    ensures
        b == is_letter(c),
{
    ('a' <= c && c <= 'z') || ('A' <= c && c <= 'Z')
}

/// ASCII lower case, one character at a time.
pub fn char_to_lower(c: char) -> (r: char)
    ensures
        r == lower_char(c),
{
    if 'A' <= c && c <= 'Z' {
        (c as u8 + 32u8) as char
    } else {
        c
    }
}

// ---------------------------------------------------------------------------
// Strings and their characters
// ---------------------------------------------------------------------------

/// The characters of a string, in order.
pub fn chars_of(text: &str) -> (chars: Vec<char>)
    ensures
        chars@ == text@,
{
    let mut chars: Vec<char> = Vec::new();
    for c in it: text.chars()
        invariant
            it.seq() == text@,
            chars@ == text@.take(it.index() as int),
    {
        chars.push(c);
        assert(text@.take(it.index() + 1) =~= text@.take(it.index() as int).push(c));
    }
    assert(text@.take(text@.len() as int) =~= text@);
    chars
}

/// The string of the characters from `from` up to, not including, `to`.
pub fn string_of(chars: &Vec<char>, from: usize, to: usize) -> (text: String)
    requires
        from <= to <= chars@.len(),
    ensures
        text@ == chars@.subrange(from as int, to as int),
{
    let mut text = String::new();
    let mut i: usize = from;
    while i < to
        invariant
            from <= i <= to <= chars@.len(),
            text@ == chars@.subrange(from as int, i as int),
        decreases to - i,
    {
        text.push(chars[i]);
        assert(chars@.subrange(from as int, i + 1) =~= chars@.subrange(from as int, i as int).push(
            chars@[i as int],
        ));
        i += 1;
    }
    text
}

/// Whether two strings hold the same characters.
pub fn same_text(a: &str, b: &str) -> (same: bool)
    ensures
        same == (a@ == b@),
{
    let x = chars_of(a);
    let y = chars_of(b);
    if x.len() != y.len() {
        return false;
    }
    let mut i: usize = 0;
    while i < x.len()
        invariant
            x@ == a@,
            y@ == b@,
            x@.len() == y@.len(),
            i <= x@.len(),
            forall|j: int| 0 <= j < i ==> x@[j] == y@[j],
        decreases x@.len() - i,
    {
        if x[i] != y[i] {
            return false;
        }
        i += 1;
    }
    assert(x@ =~= y@);
    true
}

/// A copy of a string with every ASCII letter in lower case.
pub fn to_lower(text: &str) -> (r: String)
    ensures
        r@ == lower(text@),
{
    let chars = chars_of(text);
    let mut r = String::new();
    let mut i: usize = 0;
    while i < chars.len()
        invariant
            i <= chars@.len(),
            chars@ == text@,
            r@ == lower(text@.take(i as int)),
        decreases chars@.len() - i,
    {
        r.push(char_to_lower(chars[i]));
        assert(lower(text@.take(i + 1)) =~= lower(text@.take(i as int)).push(lower_char(text@[i as int])));
        i += 1;
    }
    assert(text@.take(text@.len() as int) =~= text@);
    r
}

/// Whether `text` begins with `prefix`.
pub fn begins_with(text: &str, prefix: &str) -> (b: bool)
    ensures
        b == prefix@.is_prefix_of(text@),
{
    let x = chars_of(text);
    let y = chars_of(prefix);
    if x.len() < y.len() {
        return false;
    }
    let head = string_of(&x, 0, y.len());
    same_text(head.as_str(), prefix)
}

/// Whether `text` ends with `suffix`.
pub fn finishes_with(text: &str, suffix: &str) -> (b: bool)
    ensures
        b == suffix@.is_suffix_of(text@),
{
    let x = chars_of(text);
    let y = chars_of(suffix);
    if x.len() < y.len() {
        return false;
    }
    let tail = string_of(&x, x.len() - y.len(), x.len());
    same_text(tail.as_str(), suffix)
}

// ---------------------------------------------------------------------------
// Trimming
// ---------------------------------------------------------------------------

/// The characters from the first that is not white space on.
pub open spec fn trim_start(s: Seq<char>) -> Seq<char>
    decreases s.len(),
{
    if s.len() > 0 && is_space(s[0]) {
        trim_start(s.drop_first())
    } else {
        s
    }
}

/// The characters up to the last that is not white space.
pub open spec fn trim_end(s: Seq<char>) -> Seq<char>
    decreases s.len(),
{
    if s.len() > 0 && is_space(s.last()) {
        trim_end(s.drop_last())
    } else {
        s
    }
}

/// The text without the white space at its two ends.
pub open spec fn trimmed(s: Seq<char>) -> Seq<char> {
    trim_end(trim_start(s))
}

proof fn lemma_trim_start(s: Seq<char>, n: int)
    requires
        0 <= n <= s.len(),
        forall|i: int| 0 <= i < n ==> is_space(s[i]),
        n < s.len() ==> !is_space(s[n]),
    ensures
        trim_start(s) == s.skip(n),
    decreases n,
{
    if n > 0 {
        lemma_trim_start(s.drop_first(), n - 1);
        assert(s.drop_first().skip(n - 1) =~= s.skip(n));
    } else {
        assert(s.skip(0) =~= s);
    }
}

proof fn lemma_trim_end(s: Seq<char>, n: int)
    requires
        0 <= n <= s.len(),
        forall|i: int| n <= i < s.len() ==> is_space(s[i]),
        n > 0 ==> !is_space(s[n - 1]),
    ensures
        trim_end(s) == s.take(n),
    decreases s.len() - n,
{
    if n < s.len() {
        lemma_trim_end(s.drop_last(), n);
        assert(s.drop_last().take(n) =~= s.take(n));
    } else {
        assert(s.take(n) =~= s);
    }
}

/// Text without white space is its own trimmed form.
pub proof fn trimming_keeps_solid_text(s: Seq<char>)
    requires
        forall|i: int| 0 <= i < s.len() ==> !is_space(s[i]),
    ensures
        trimmed(s) == s,
{
    lemma_trim_start(s, 0);
    assert(s.skip(0) =~= s);
    lemma_trim_end(s, s.len() as int);
    assert(s.take(s.len() as int) =~= s);
}

/// A line feed behind text without white space is trimmed away.
pub proof fn trimming_drops_a_final_line_feed(s: Seq<char>)
    requires
        forall|i: int| 0 <= i < s.len() ==> !is_space(s[i]),
    ensures
        trimmed(s.push('\n')) == s,
{
    let t = s.push('\n');
    if s.len() == 0 {
        lemma_trim_start(t, 1);
        assert(t.skip(1) =~= s);
        lemma_trim_end(s, 0);
        assert(s.take(0) =~= s);
    } else {
        lemma_trim_start(t, 0);
        assert(t.skip(0) =~= t);
        lemma_trim_end(t, s.len() as int);
        assert(t.take(s.len() as int) =~= s);
    }
}

/// Trimming what was trimmed changes nothing.
pub proof fn trimming_is_idempotent(s: Seq<char>)
    ensures
        trimmed(trimmed(s)) == trimmed(s),
{
    lemma_trim_start_head(s);
    let a = trim_start(s);
    lemma_trim_end_last(a);
    let b = trim_end(a);
    if b.len() > 0 {
        assert(b[0] == a[0]);
    }
    lemma_trim_start(b, 0);
    assert(b.skip(0) =~= b);
    lemma_trim_end(b, b.len() as int);
    assert(b.take(b.len() as int) =~= b);
}

proof fn lemma_trim_start_head(s: Seq<char>)
    ensures
        trim_start(s).len() > 0 ==> !is_space(trim_start(s)[0]),
    decreases s.len(),
{
    if s.len() > 0 && is_space(s[0]) {
        lemma_trim_start_head(s.drop_first());
    }
}

proof fn lemma_trim_end_last(s: Seq<char>)
    ensures
        trim_end(s).len() <= s.len(),
        trim_end(s) == s.take(trim_end(s).len() as int),
        trim_end(s).len() > 0 ==> !is_space(trim_end(s).last()),
    decreases s.len(),
{
    if s.len() > 0 && is_space(s.last()) {
        lemma_trim_end_last(s.drop_last());
        let n = trim_end(s).len() as int;
        assert(s.drop_last().take(n) =~= s.take(n));
    } else {
        assert(s.take(s.len() as int) =~= s);
    }
}

/// Whether there is nothing but white space.
pub open spec fn is_blank(s: Seq<char>) -> bool {
    forall|i: int| 0 <= i < s.len() ==> is_space(s[i])
}

/// Trimming leaves nothing of blank text, and of no other.
pub proof fn blank_text_trims_to_nothing(s: Seq<char>)
    ensures
        is_blank(s) <==> trimmed(s).len() == 0,
{
    if is_blank(s) {
        lemma_trim_start(s, s.len() as int);
        assert(s.skip(s.len() as int).len() == 0);
    } else {
        let i = choose|i: int| 0 <= i < s.len() && !is_space(s[i]);
        lemma_trim_start_keeps(s, i);
        lemma_trim_start_head(s);
        let a = trim_start(s);
        lemma_trim_end_keeps(a, 0);
    }
}

proof fn lemma_trim_start_keeps(s: Seq<char>, i: int)
    requires
        0 <= i < s.len(),
        !is_space(s[i]),
    ensures
        trim_start(s).len() > 0,
    decreases s.len(),
{
    if is_space(s[0]) {
        assert(s.drop_first()[i - 1] == s[i]);
        lemma_trim_start_keeps(s.drop_first(), i - 1);
    }
}

proof fn lemma_trim_end_keeps(s: Seq<char>, i: int)
    requires
        0 <= i < s.len(),
        !is_space(s[i]),
    ensures
        trim_end(s).len() > i,
    decreases s.len(),
{
    if is_space(s.last()) {
        assert(s.drop_last()[i] == s[i]);
        lemma_trim_end_keeps(s.drop_last(), i);
    }
}

/// Trimming keeps a start of the text that holds no white space.
pub proof fn lemma_trimming_keeps_a_solid_start(s: Seq<char>, n: int)
    requires
        0 < n <= s.len(),
        forall|i: int| 0 <= i < n ==> !is_space(#[trigger] s[i]),
    ensures
        trimmed(s).len() >= n,
        trimmed(s).take(n) == s.take(n),
{
    assert(!is_space(s[0]));
    lemma_trim_start(s, 0);
    assert(s.skip(0) =~= s);
    lemma_trim_end_keeps(s, n - 1);
    lemma_trim_end_last(s);
    assert(trimmed(s).take(n) =~= s.take(n));
}

/// The text without the white space at its two ends, as `str::trim` gives it.
pub fn trim(text: &str) -> (r: String)
    ensures
        r@ == trimmed(text@),
{
    let chars = chars_of(text);
    let mut from: usize = 0;
    while from < chars.len() && char_is_space(chars[from])
        invariant
            from <= chars@.len(),
            forall|i: int| 0 <= i < from ==> is_space(chars@[i]),
        decreases chars@.len() - from,
    {
        from += 1;
    }
    let mut to: usize = chars.len();
    while from < to && char_is_space(chars[to - 1])
        invariant
            from <= to <= chars@.len(),
            forall|i: int| to <= i < chars@.len() ==> is_space(chars@[i]),
        decreases to,
    {
        to -= 1;
    }
    proof {
        lemma_trim_start(text@, from as int);
        lemma_trim_end(text@.skip(from as int), to - from);
        assert(text@.skip(from as int).take(to - from) =~= text@.subrange(from as int, to as int));
    }
    string_of(&chars, from, to)
}

/// Whether the text holds nothing but white space.
pub fn text_is_blank(text: &str) -> (b: bool)
    ensures
        b == is_blank(text@),
{
    let chars = chars_of(text);
    let mut i: usize = 0;
    while i < chars.len()
        invariant
            i <= chars@.len(),
            chars@ == text@,
            forall|j: int| 0 <= j < i ==> is_space(chars@[j]),
        decreases chars@.len() - i,
    {
        if !char_is_space(chars[i]) {
            return false;
        }
        i += 1;
    }
    true
}

// ---------------------------------------------------------------------------
// Splitting and joining
// ---------------------------------------------------------------------------

/// The pieces of a text between the separators, in order. There is one piece more
/// than there are separators.
pub open spec fn split_on(s: Seq<char>, separator: char) -> Seq<Seq<char>>
    decreases s.len(),
{
    if s.len() == 0 {
        seq![Seq::empty()]
    } else {
        let before = split_on(s.drop_last(), separator);
        if s.last() == separator {
            before.push(Seq::empty())
        } else {
            before.drop_last().push(before.last().push(s.last()))
        }
    }
}

pub proof fn lemma_split_is_not_empty(s: Seq<char>, separator: char)
    ensures
        split_on(s, separator).len() > 0,
    decreases s.len(),
{
    if s.len() > 0 {
        lemma_split_is_not_empty(s.drop_last(), separator);
    }
}

/// A text without separators is one piece.
pub proof fn lemma_one_piece(s: Seq<char>, separator: char)
    requires
        !s.contains(separator),
    ensures
        split_on(s, separator) == seq![s],
    decreases s.len(),
{
    if s.len() > 0 {
        let front = s.drop_last();
        assert forall|i: int| 0 <= i < front.len() implies front[i] != separator by {
            assert(front[i] == s[i]);
            assert(s.contains(s[i]));
        }
        lemma_one_piece(front, separator);
        assert(s.contains(s.last()));
        assert(front.push(s.last()) =~= s);
        assert(split_on(s, separator) =~= seq![s]);
    } else {
        assert(s =~= Seq::empty());
        assert(split_on(s, separator) =~= seq![s]);
    }
}

/// Two texts without separators, with one between them, are two pieces.
pub proof fn lemma_two_pieces(a: Seq<char>, b: Seq<char>, separator: char)
    requires
        !a.contains(separator),
        !b.contains(separator),
    ensures
        split_on(a + seq![separator] + b, separator) == seq![a, b],
    decreases b.len(),
{
    let whole = a + seq![separator] + b;
    if b.len() == 0 {
        assert(b =~= Seq::empty());
        assert(whole.drop_last() =~= a);
        lemma_one_piece(a, separator);
        assert(split_on(whole, separator) =~= seq![a, b]);
    } else {
        let front = b.drop_last();
        assert forall|i: int| 0 <= i < front.len() implies front[i] != separator by {
            assert(front[i] == b[i]);
            assert(b.contains(b[i]));
        }
        lemma_two_pieces(a, front, separator);
        assert(whole.drop_last() =~= a + seq![separator] + front);
        assert(b.contains(b.last()));
        assert(front.push(b.last()) =~= b);
        assert(whole.last() == b.last());
        assert(seq![a, front].drop_last() =~= seq![a]);
        assert(split_on(whole, separator) =~= seq![a, b]);
    }
}

/// The views of a list of strings.
pub open spec fn texts(list: Seq<String>) -> Seq<Seq<char>> {
    list.map_values(|s: String| s@)
}

/// A copy of a list of strings.
pub fn copy(list: &Vec<String>) -> (r: Vec<String>)
    ensures
        texts(r@) == texts(list@),
{
    let mut r: Vec<String> = Vec::new();
    let mut i: usize = 0;
    while i < list.len()
        invariant
            i <= list@.len(),
            texts(r@) == texts(list@).take(i as int),
        decreases list@.len() - i,
    {
        let ghost before = r@;
        let item = list[i].clone();
        r.push(item);
        assert(texts(r@) =~= texts(before).push(item@));
        assert(texts(list@).take(i + 1) =~= texts(list@).take(i as int).push(texts(list@)[i as int]));
        i += 1;
    }
    assert(texts(list@).take(list@.len() as int) =~= texts(list@));
    r
}

/// The pieces of `text` between the separators, as `str::split` gives them.
pub fn split(text: &str, separator: char) -> (pieces: Vec<String>)
    ensures
        texts(pieces@) == split_on(text@, separator),
{
    let chars = chars_of(text);
    let mut pieces: Vec<String> = Vec::new();
    let mut piece = String::new();
    let mut i: usize = 0;
    assert(texts(pieces@).push(piece@) =~= split_on(text@.take(0), separator));
    while i < chars.len()
        invariant
            i <= chars@.len(),
            chars@ == text@,
            texts(pieces@).push(piece@) == split_on(text@.take(i as int), separator),
        decreases chars@.len() - i,
    {
        let c = chars[i];
        let ghost earlier = texts(pieces@);
        let ghost open = piece@;
        assert(text@.take(i + 1).drop_last() =~= text@.take(i as int));
        assert(earlier.push(open).drop_last() =~= earlier);
        if c == separator {
            pieces.push(piece);
            piece = String::new();
            assert(texts(pieces@) =~= earlier.push(open));
        } else {
            piece.push(c);
        }
        assert(texts(pieces@).push(piece@) =~= split_on(text@.take(i + 1), separator));
        i += 1;
    }
    pieces.push(piece);
    assert(text@.take(text@.len() as int) =~= text@);
    assert(texts(pieces@) =~= split_on(text@, separator));
    pieces
}

/// The pieces with the separator between each two neighbours.
pub open spec fn joined(pieces: Seq<Seq<char>>, separator: Seq<char>) -> Seq<char>
    decreases pieces.len(),
{
    if pieces.len() == 0 {
        Seq::empty()
    } else if pieces.len() == 1 {
        pieces[0]
    } else {
        joined(pieces.drop_last(), separator) + separator + pieces.last()
    }
}

/// The pieces with the separator between each two neighbours, as `join` gives them.
pub fn join(pieces: &Vec<String>, separator: &str) -> (r: String)
    ensures
        r@ == joined(texts(pieces@), separator@),
{
    let mut r = String::new();
    let mut i: usize = 0;
    while i < pieces.len()
        invariant
            i <= pieces@.len(),
            r@ == joined(texts(pieces@).take(i as int), separator@),
        decreases pieces@.len() - i,
    {
        let ghost all = texts(pieces@);
        assert(all.take(i + 1).drop_last() =~= all.take(i as int));
        assert(all[i as int] == pieces@[i as int]@);
        if i > 0 {
            r.append(separator);
        }
        r.append(pieces[i].as_str());
        assert(r@ =~= joined(all.take(i + 1), separator@));
        i += 1;
    }
    assert(texts(pieces@).take(pieces@.len() as int) =~= texts(pieces@));
    r
}

/// What is left of a line in front of a line feed: a carriage return at its end
/// belongs to the line ending.
pub open spec fn without_final_return(line: Seq<char>) -> Seq<char> {
    if line.len() > 0 && line.last() == '\r' {
        line.drop_last()
    } else {
        line
    }
}

/// The lines of a text. Each ends with a line feed or with a carriage return and a
/// line feed, which are no part of it; the last may also end with the text.
pub open spec fn lines_of(s: Seq<char>) -> Seq<Seq<char>> {
    let pieces = split_on(s, '\n');
    let ended = pieces.drop_last().map_values(|line: Seq<char>| without_final_return(line));
    if pieces.last().len() == 0 {
        ended
    } else {
        ended.push(pieces.last())
    }
}

/// The lines of `text`, as `str::lines` gives them.
pub fn lines(text: &str) -> (r: Vec<String>)
    ensures
        texts(r@) == lines_of(text@),
{
    let pieces = split(text, '\n');
    proof {
        lemma_split_is_not_empty(text@, '\n');
    }
    let ghost all = split_on(text@, '\n');
    let last: usize = pieces.len() - 1;
    let mut r: Vec<String> = Vec::new();
    let mut i: usize = 0;
    while i < last
        invariant
            i <= last,
            last + 1 == pieces@.len(),
            texts(pieces@) == all,
            texts(r@) == all.take(i as int).map_values(
                |line: Seq<char>| without_final_return(line),
            ),
        decreases last - i,
    {
        let line = chars_of(pieces[i].as_str());
        assert(line@ == all[i as int]);
        let mut end: usize = line.len();
        if end > 0 && line[end - 1] == '\r' {
            end -= 1;
        }
        let kept = string_of(&line, 0, end);
        assert(kept@ =~= without_final_return(all[i as int]));
        let ghost earlier = texts(r@);
        r.push(kept);
        assert(texts(r@) =~= earlier.push(kept@));
        assert(all.take(i + 1) =~= all.take(i as int).push(all[i as int]));
        assert(texts(r@) =~= all.take(i + 1).map_values(
            |line: Seq<char>| without_final_return(line),
        ));
        i += 1;
    }
    assert(all.take(last as int) =~= all.drop_last());
    assert(all.last() == pieces@[last as int]@);
    if !pieces[last].as_str().is_empty() {
        r.push(pieces[last].clone());
    }
    assert(texts(r@) =~= lines_of(text@));
    r
}

// ---------------------------------------------------------------------------
// Laws
// ---------------------------------------------------------------------------

/// What is left after trimming is a part of the text that neither begins nor ends with white
/// space, and nothing but white space was dropped on either side of it.
pub proof fn trimmed_text_has_solid_ends(s: Seq<char>)
    ensures
        trimmed(s).len() > 0 ==> !is_space(trimmed(s)[0]) && !is_space(trimmed(s).last()),
        exists|from: int, to: int|
            0 <= from <= to <= s.len() && trimmed(s) == #[trigger] s.subrange(from, to) && (forall|
                i: int,
            |
                0 <= i < from || to <= i < s.len() ==> is_space(#[trigger] s[i])),
{
    lemma_trim_start_head(s);
    lemma_trim_start_is_a_tail(s);
    let a = trim_start(s);
    lemma_trim_end_last(a);
    lemma_trim_end_drops_space(a);
    let b = trim_end(a);
    if b.len() > 0 {
        assert(b[0] == a[0]);
    }
    let from = s.len() - a.len();
    let to = from + b.len();
    assert(b =~= s.subrange(from, to));
    assert forall|i: int| 0 <= i < from || to <= i < s.len() implies is_space(#[trigger] s[i]) by {
        if to <= i < s.len() {
            assert(a[i - from] == s[i]);
        }
    }
}

proof fn lemma_trim_start_is_a_tail(s: Seq<char>)
    ensures
        trim_start(s).len() <= s.len(),
        trim_start(s) == s.skip(s.len() - trim_start(s).len()),
        forall|i: int| 0 <= i < s.len() - trim_start(s).len() ==> is_space(#[trigger] s[i]),
    decreases s.len(),
{
    if s.len() > 0 && is_space(s[0]) {
        let tail = s.drop_first();
        lemma_trim_start_is_a_tail(tail);
        let n = s.len() - trim_start(s).len();
        assert(trim_start(s) =~= s.skip(n));
        assert forall|i: int| 0 <= i < n implies is_space(#[trigger] s[i]) by {
            if i > 0 {
                assert(tail[i - 1] == s[i]);
            }
        }
    } else {
        assert(s.skip(0) =~= s);
    }
}

proof fn lemma_trim_end_drops_space(s: Seq<char>)
    ensures
        forall|i: int| trim_end(s).len() <= i < s.len() ==> is_space(#[trigger] s[i]),
    decreases s.len(),
{
    if s.len() > 0 && is_space(s.last()) {
        let front = s.drop_last();
        lemma_trim_end_drops_space(front);
        assert forall|i: int| trim_end(s).len() <= i < s.len() implies is_space(
            #[trigger] s[i],
        ) by {
            if i < front.len() {
                assert(front[i] == s[i]);
            }
        }
    }
}

/// The pieces of a text, put together with the separator between each two, are the text again,
/// and none of them holds the separator.
pub proof fn splitting_is_undone_by_joining(s: Seq<char>, separator: char)
    ensures
        joined(split_on(s, separator), seq![separator]) == s,
        forall|i: int|
            0 <= i < split_on(s, separator).len() ==> !(#[trigger] split_on(s, separator)[i])
                .contains(separator),
    decreases s.len(),
{
    let pieces = split_on(s, separator);
    if s.len() == 0 {
        assert(joined(pieces, seq![separator]) =~= s);
    } else {
        let front = s.drop_last();
        let before = split_on(front, separator);
        splitting_is_undone_by_joining(front, separator);
        lemma_split_is_not_empty(front, separator);
        assert(front.push(s.last()) =~= s);
        if s.last() == separator {
            assert(pieces.drop_last() =~= before);
            assert(joined(pieces, seq![separator]) =~= s);
        } else {
            assert(pieces.drop_last() =~= before.drop_last());
            if before.len() > 1 {
                assert(joined(before, seq![separator]) == joined(
                    before.drop_last(),
                    seq![separator],
                ) + seq![separator] + before.last());
            }
            assert(joined(pieces, seq![separator]) =~= s);
        }
        assert forall|i: int| 0 <= i < pieces.len() implies !(#[trigger] pieces[i]).contains(
            separator,
        ) by {
            if s.last() != separator && i == before.len() - 1 {
                let piece = before.last();
                assert(!before[i].contains(separator));
                assert forall|k: int| 0 <= k < pieces[i].len() implies pieces[i][k]
                    != separator by {
                    if k < piece.len() {
                        assert(piece.contains(piece[k]));
                    }
                }
            } else if i < before.len() {
                assert(pieces[i] == before[i]);
            }
        }
    }
}

/// Joining nothing gives nothing, joining one piece gives that piece, and a further piece stands
/// at the end, behind one more separator.
pub proof fn joining_puts_one_separator_between_neighbours(
    pieces: Seq<Seq<char>>,
    piece: Seq<char>,
    separator: Seq<char>,
)
    ensures
        joined(Seq::empty(), separator).len() == 0,
        joined(seq![piece], separator) == piece,
        pieces.len() > 0 ==> joined(pieces.push(piece), separator) == joined(pieces, separator)
            + separator + piece,
{
    assert(pieces.push(piece).drop_last() =~= pieces);
}

/// Lower case changes the letters from `A` to `Z` and nothing else: it keeps the length, maps
/// each of them to the letter of its place in the alphabet, and changes nothing when it is
/// applied again.
pub proof fn lower_case_changes_capital_letters_alone(text: &str, r: String, i: int)
    requires
        call_ensures(to_lower, (text,), r),
        0 <= i < text@.len(),
    ensures
        r@.len() == text@.len(),
        'A' <= text@[i] <= 'Z' ==> r@[i] as u32 - 'a' as u32 == text@[i] as u32 - 'A' as u32,
        !('A' <= text@[i] <= 'Z') ==> r@[i] == text@[i],
        lower(r@) == r@,
{
    assert forall|k: int| 0 <= k < r@.len() implies lower(r@)[k] == r@[k] by {
    }
    assert(lower(r@) =~= r@);
}

/// The lines of a text hold no line feed, and there is one for each line feed and one more where
/// the text goes on behind the last. A carriage return in front of a line feed is no part of its
/// line; nothing else is left out.
pub proof fn lines_hold_no_line_feed(s: Seq<char>, i: int)
    requires
        0 <= i < lines_of(s).len(),
    ensures
        !lines_of(s)[i].contains('\n'),
        ({
            let piece = split_on(s, '\n')[i];
            let ended = i + 1 < split_on(s, '\n').len();
            if ended && piece.len() > 0 && piece.last() == '\r' {
                lines_of(s)[i].push('\r') == piece
            } else {
                lines_of(s)[i] == piece
            }
        }),
        lines_of(s).len() + 1 == split_on(s, '\n').len() + (if split_on(s, '\n').last().len()
            == 0 {
            0int
        } else {
            1int
        }),
{
    let pieces = split_on(s, '\n');
    lemma_split_is_not_empty(s, '\n');
    splitting_is_undone_by_joining(s, '\n');
    assert(!pieces[i].contains('\n'));
    let line = lines_of(s)[i];
    if line != pieces[i] {
        assert(line == pieces[i].drop_last());
        assert(line.push('\r') =~= pieces[i]);
        assert forall|k: int| 0 <= k < line.len() implies line[k] != '\n' by {
            assert(pieces[i][k] == line[k]);
            assert(pieces[i].contains(pieces[i][k]));
        }
    }
}

/// A separator splits a text in two: the pieces in front of it and the pieces behind it are those
/// of the two parts.
pub proof fn splitting_splits_at_each_separator(a: Seq<char>, b: Seq<char>, separator: char)
    ensures
        split_on(a + seq![separator] + b, separator) == split_on(a, separator) + split_on(
            b,
            separator,
        ),
    decreases b.len(),
{
    let whole = a + seq![separator] + b;
    if b.len() == 0 {
        assert(whole.drop_last() =~= a);
        assert(split_on(b, separator) =~= seq![Seq::<char>::empty()]);
        assert(split_on(whole, separator) =~= split_on(a, separator) + split_on(b, separator));
    } else {
        let front = b.drop_last();
        splitting_splits_at_each_separator(a, front, separator);
        lemma_split_is_not_empty(front, separator);
        assert(whole.drop_last() =~= a + seq![separator] + front);
        assert(whole.last() == b.last());
        let before = split_on(a, separator) + split_on(front, separator);
        assert(before.last() == split_on(front, separator).last());
        assert(before.drop_last() =~= split_on(a, separator) + split_on(
            front,
            separator,
        ).drop_last());
        assert(split_on(whole, separator) =~= split_on(a, separator) + split_on(b, separator));
    }
}

/// White space is what Unicode says, by the numbers of the characters; digits and letters are
/// those of ASCII.
pub proof fn characters_are_told_by_number(c: char, space: bool, digit: bool, letter: bool)
    requires
        call_ensures(char_is_space, (c,), space),
        call_ensures(char_is_digit, (c,), digit),
        call_ensures(char_is_letter, (c,), letter),
    ensures
        ({
            let n = c as u32;
            space <==> 9 <= n <= 13 || n == 32 || n == 133 || n == 160 || n == 5760 || 8192 <= n
                <= 8202 || n == 8232 || n == 8233 || n == 8239 || n == 8287 || n == 12288
        }),
        digit <==> 48 <= c as u32 <= 57,
        letter <==> 65 <= c as u32 <= 90 || 97 <= c as u32 <= 122,
{
}

/// A prefix or a suffix is found exactly where it is one, and two texts are the same where all
/// their characters are.
pub proof fn ends_of_text_are_found(
    text: &str,
    end: &str,
    a: bool,
    b: bool,
    c: bool,
    blank: bool,
)
    requires
        call_ensures(begins_with, (text, end), a),
        call_ensures(finishes_with, (text, end), b),
        call_ensures(same_text, (text, end), c),
        call_ensures(text_is_blank, (text,), blank),
    ensures
        a <==> end@.len() <= text@.len() && (forall|i: int|
            0 <= i < end@.len() ==> #[trigger] end@[i] == text@[i]),
        b <==> end@.len() <= text@.len() && (forall|i: int|
            0 <= i < end@.len() ==> #[trigger] end@[i] == text@[text@.len() - end@.len() + i]),
        c <==> text@ == end@,
        blank <==> (forall|i: int| 0 <= i < text@.len() ==> is_space(#[trigger] text@[i])),
{
    let n = end@.len() as int;
    if end@.len() <= text@.len() {
        if forall|i: int| 0 <= i < end@.len() ==> #[trigger] end@[i] == text@[i] {
            assert(text@.subrange(0, n) =~= end@);
        }
        if forall|i: int|
            0 <= i < end@.len() ==> #[trigger] end@[i] == text@[text@.len() - end@.len() + i] {
            assert(text@.subrange(text@.len() - n, text@.len() as int) =~= end@);
        }
        if a {
            assert forall|i: int| 0 <= i < end@.len() implies #[trigger] end@[i] == text@[i] by {
                assert(text@.subrange(0, n)[i] == text@[i]);
            }
        }
        if b {
            assert forall|i: int| 0 <= i < end@.len() implies #[trigger] end@[i]
                == text@[text@.len() - end@.len() + i] by {
                assert(text@.subrange(text@.len() - n, text@.len() as int)[i] == text@[text@.len()
                    - n + i]);
            }
        }
    }
}

/// What was split is put together again by joining with the separator, and no piece holds it;
/// what is trimmed holds everything but the white space at the two ends; and the characters of a
/// text make up the text.
pub proof fn text_is_taken_apart_and_put_together(
    text: &str,
    separator: char,
    between: &str,
    pieces: Vec<String>,
    whole: String,
    short: String,
    chars: Vec<char>,
    again: String,
    i: int,
)
    requires
        between@ == seq![separator],
        call_ensures(split, (text, separator), pieces),
        call_ensures(join, (&pieces, between), whole),
        call_ensures(trim, (text,), short),
        call_ensures(chars_of, (text,), chars),
        chars@.len() <= usize::MAX,
        call_ensures(string_of, (&chars, 0, chars@.len() as usize), again),
    ensures
        whole@ == text@,
        0 <= i < pieces@.len() ==> !pieces@[i]@.contains(separator),
        exists|from: int, to: int|
            0 <= from <= to <= text@.len() && short@ == #[trigger] text@.subrange(from, to)
                && (forall|k: int|
                0 <= k < from || to <= k < text@.len() ==> is_space(#[trigger] text@[k])),
        short@.len() > 0 ==> !is_space(short@[0]) && !is_space(short@.last()),
        again@ == text@,
{
    splitting_is_undone_by_joining(text@, separator);
    trimmed_text_has_solid_ends(text@);
    if 0 <= i < pieces@.len() {
        assert(texts(pieces@)[i] == pieces@[i]@);
    }
    assert(text@.subrange(0, text@.len() as int) =~= text@);
}

/// The lines of a text are told in order, and a copy of a list of texts holds the same texts.
pub proof fn lines_and_copies_are_told_in_place(
    text: &str,
    r: Vec<String>,
    list: &Vec<String>,
    copied: Vec<String>,
    i: int,
)
    requires
        call_ensures(lines, (text,), r),
        call_ensures(copy, (list,), copied),
    ensures
        r@.len() == lines_of(text@).len(),
        0 <= i < r@.len() ==> r@[i]@ == lines_of(text@)[i] && !r@[i]@.contains('\n'),
        copied@.len() == list@.len(),
        0 <= i < list@.len() ==> copied@[i]@ == list@[i]@,
{
    assert(texts(r@).len() == r@.len());
    assert(texts(copied@).len() == copied@.len() && texts(list@).len() == list@.len());
    if 0 <= i < r@.len() {
        assert(texts(r@)[i] == r@[i]@);
        lines_hold_no_line_feed(text@, i);
    }
    if 0 <= i < list@.len() {
        assert(texts(copied@)[i] == copied@[i]@);
        assert(texts(list@)[i] == list@[i]@);
    }
}

} // verus!
