//! Identifiers and string literals in SQL text.
//!
//! Both are written between two quote characters, and a quote character inside is
//! written twice. The laws at the end say why that is enough: a reader that takes
//! two quote characters for one, and the first single one for the end, gets back
//! exactly what was quoted, whatever text follows.
use vstd::prelude::*;

use crate::text;

verus! {

/// The text with every `quote` character written twice.
pub open spec fn doubled(s: Seq<char>, quote: char) -> Seq<char>
    decreases s.len(),
{
    if s.len() == 0 {
        Seq::empty()
    } else {
        let before = doubled(s.drop_last(), quote);
        if s.last() == quote {
            before.push(quote).push(quote)
        } else {
            before.push(s.last())
        }
    }
}

/// The text between two `quote` characters, with those inside written twice.
pub open spec fn quoted(s: Seq<char>, quote: char) -> Seq<char> {
    seq![quote] + doubled(s, quote) + seq![quote]
}

pub open spec fn quoted_ident(s: Seq<char>) -> Seq<char> {
    quoted(s, '"')
}

pub open spec fn quoted_literal(s: Seq<char>) -> Seq<char> {
    quoted(s, '\'')
}

fn enclose(value: &str, quote: char) -> (r: String)
    ensures
        r@ == quoted(value@, quote),
{
    let chars = text::chars_of(value);
    let mut r = String::new();
    r.push(quote);
    let mut i: usize = 0;
    assert(r@ =~= seq![quote] + doubled(value@.take(0), quote));
    while i < chars.len()
        invariant
            i <= chars@.len(),
            chars@ == value@,
            r@ == seq![quote] + doubled(value@.take(i as int), quote),
        decreases chars@.len() - i,
    {
        let c = chars[i];
        assert(value@.take(i + 1).drop_last() =~= value@.take(i as int));
        if c == quote {
            r.push(quote);
        }
        r.push(c);
        assert(r@ =~= seq![quote] + doubled(value@.take(i + 1), quote));
        i += 1;
    }
    r.push(quote);
    assert(value@.take(value@.len() as int) =~= value@);
    assert(r@ =~= quoted(value@, quote));
    r
}

/// An identifier in double quotes, for use in SQL text.
pub fn quote_ident(identifier: &str) -> (r: String)
    ensures
        r@ == quoted_ident(identifier@),
{
    enclose(identifier, '"')
}

/// A string literal, for use in SQL text.
pub fn quote_literal(value: &str) -> (r: String)
    ensures
        r@ == quoted_literal(value@),
{
    enclose(value, '\'')
}

/// What a reader of SQL takes for the quoted text behind an opening quote character,
/// and how many characters it reads for it, the closing quote character with them:
/// two quote characters stand for one, and the first single one closes.
/// `None` where nothing closes the text.
pub open spec fn read_quoted(s: Seq<char>, quote: char) -> Option<(Seq<char>, int)>
    decreases s.len(),
{
    if s.len() == 0 {
        None
    } else if s[0] != quote {
        match read_quoted(s.drop_first(), quote) {
            Some((value, used)) => Some((seq![s[0]] + value, used + 1)),
            None => None,
        }
    } else if s.len() >= 2 && s[1] == quote {
        match read_quoted(s.skip(2), quote) {
            Some((value, used)) => Some((seq![quote] + value, used + 2)),
            None => None,
        }
    } else {
        Some((Seq::empty(), 1))
    }
}

proof fn lemma_doubled_first(s: Seq<char>, quote: char)
    requires
        s.len() > 0,
    ensures
        doubled(s, quote) == (if s[0] == quote {
            seq![quote, quote]
        } else {
            seq![s[0]]
        }) + doubled(s.drop_first(), quote),
    decreases s.len(),
{
    let head = if s[0] == quote {
        seq![quote, quote]
    } else {
        seq![s[0]]
    };
    if s.len() == 1 {
        assert(s.drop_last() =~= Seq::<char>::empty());
        assert(s.drop_first() =~= Seq::<char>::empty());
        assert(doubled(s.drop_last(), quote) =~= Seq::<char>::empty());
        assert(doubled(s, quote) =~= head + doubled(s.drop_first(), quote));
    } else {
        lemma_doubled_first(s.drop_last(), quote);
        assert(s.drop_last().drop_first() =~= s.drop_first().drop_last());
        assert(doubled(s, quote) =~= head + doubled(s.drop_first(), quote));
    }
}

proof fn lemma_doubled_reads_back(s: Seq<char>, quote: char, rest: Seq<char>)
    requires
        rest.len() == 0 || rest[0] != quote,
    ensures
        read_quoted(doubled(s, quote) + seq![quote] + rest, quote) == Some(
            (s, (doubled(s, quote).len() + 1) as int),
        ),
    decreases s.len(),
{
    let body = doubled(s, quote) + seq![quote] + rest;
    if s.len() == 0 {
        assert(doubled(s, quote) =~= Seq::<char>::empty());
        assert(body[0] == quote);
        assert(body.len() >= 2 ==> body[1] == rest[0]);
        assert(s =~= Seq::<char>::empty());
    } else {
        let tail = s.drop_first();
        lemma_doubled_first(s, quote);
        lemma_doubled_reads_back(tail, quote, rest);
        let deeper = doubled(tail, quote) + seq![quote] + rest;
        assert(seq![s[0]] + tail =~= s);
        if s[0] == quote {
            assert(body.skip(2) =~= deeper);
            assert(body[0] == quote && body[1] == quote);
        } else {
            assert(body.drop_first() =~= deeper);
            assert(body[0] == s[0]);
        }
    }
}

/// What was quoted is what a reader gets back, and the reader stops right behind the
/// closing quote character: nothing in the quoted text can end it early. `rest` is the
/// SQL text that follows, which does not go on with another quote character.
pub proof fn quoting_reads_back(s: Seq<char>, quote: char, rest: Seq<char>)
    requires
        rest.len() == 0 || rest[0] != quote,
    ensures
        quoted(s, quote)[0] == quote,
        read_quoted((quoted(s, quote) + rest).skip(1), quote) == Some(
            (s, quoted(s, quote).len() - 1),
        ),
{
    lemma_doubled_reads_back(s, quote, rest);
    assert((quoted(s, quote) + rest).skip(1) =~= doubled(s, quote) + seq![quote] + rest);
}

/// Two texts that are quoted alike are the same text.
pub proof fn quoting_is_injective(a: Seq<char>, b: Seq<char>, quote: char)
    requires
        quoted(a, quote) == quoted(b, quote),
    ensures
        a == b,
{
    quoting_reads_back(a, quote, Seq::empty());
    quoting_reads_back(b, quote, Seq::empty());
}

/// A text without the quote character has nothing to be doubled.
pub proof fn lemma_nothing_to_double(s: Seq<char>, quote: char)
    requires
        !s.contains(quote),
    ensures
        doubled(s, quote) == s,
    decreases s.len(),
{
    if s.len() > 0 {
        let front = s.drop_last();
        assert forall|i: int| 0 <= i < front.len() implies front[i] != quote by {
            assert(front[i] == s[i]);
            assert(s.contains(s[i]));
        }
        lemma_nothing_to_double(front, quote);
        assert(s.contains(s.last()));
        assert(doubled(s, quote) =~= s);
    } else {
        assert(doubled(s, quote) =~= s);
    }
}

/// An identifier is written between double quotes and a literal between single ones, and a
/// reader of SQL gets back exactly what was written, and nothing of what follows.
pub proof fn identifiers_and_literals_are_read_back(
    value: &str,
    ident: String,
    literal: String,
    rest: Seq<char>,
)
    requires
        call_ensures(quote_ident, (value,), ident),
        call_ensures(quote_literal, (value,), literal),
        rest.len() == 0 || rest[0] != '"' && rest[0] != '\'',
    ensures
        ident@.len() >= 2 && ident@[0] == '"' && ident@.last() == '"',
        literal@.len() >= 2 && literal@[0] == '\'' && literal@.last() == '\'',
        read_quoted((ident@ + rest).skip(1), '"') == Some((value@, ident@.len() - 1)),
        read_quoted((literal@ + rest).skip(1), '\'') == Some((value@, literal@.len() - 1)),
{
    quoting_reads_back(value@, '"', rest);
    quoting_reads_back(value@, '\'', rest);
}

} // verus!
