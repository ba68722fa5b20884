//! Renders a statement into SQL text with numbered placeholders and quoted
//! identifiers.

use vstd::prelude::*;
use vstd::string::*;

use crate::error::RdsError;

verus! {

/// An identifier with every quote character doubled.
pub open spec fn escape_quotes(s: Seq<char>) -> Seq<char>
    decreases s.len(),
{
    if s.len() == 0 {
        Seq::empty()
    } else if s.last() == '"' {
        escape_quotes(s.drop_last()) + seq!['"', '"']
    } else {
        escape_quotes(s.drop_last()).push(s.last())
    }
}

/// An identifier as it stands in SQL text: escaped and wrapped in quotes.
pub open spec fn quote_identifier(s: Seq<char>) -> Seq<char> {
    seq!['"'] + escape_quotes(s) + seq!['"']
}

/// Text with each doubled quote taken back to one quote.
pub open spec fn unescape_quotes(s: Seq<char>) -> Seq<char>
    decreases s.len(),
{
    if s.len() == 0 {
        Seq::empty()
    } else if s.len() >= 2 && s.last() == '"' && s[s.len() - 2] == '"' {
        unescape_quotes(s.subrange(0, s.len() - 2)).push('"')
    } else {
        unescape_quotes(s.drop_last()).push(s.last())
    }
}

/// A quoted identifier starts and ends with a quote, and what stands between
/// them, with doubled quotes taken back, is the identifier itself.
pub proof fn lemma_identifier_round_trip(s: Seq<char>)
    ensures
        quote_identifier(s).len() == escape_quotes(s).len() + 2,
        quote_identifier(s)[0] == '"',
        quote_identifier(s).last() == '"',
        unescape_quotes(quote_identifier(s).subrange(1, quote_identifier(s).len() - 1)) == s,
{
    let q = quote_identifier(s);
    assert(q.subrange(1, q.len() - 1) == escape_quotes(s));
    lemma_unescape_escape(s);
}

/// Taking doubled quotes back undoes their doubling.
proof fn lemma_unescape_escape(s: Seq<char>)
    ensures
        unescape_quotes(escape_quotes(s)) == s,
    decreases s.len(),
{
    if s.len() > 0 {
        let init = s.drop_last();
        lemma_unescape_escape(init);
        let e = escape_quotes(s);
        if s.last() == '"' {
            assert(e.subrange(0, e.len() - 2) == escape_quotes(init));
        } else {
            assert(e.drop_last() == escape_quotes(init));
        }
        assert(init.push(s.last()) == s);
    }
}

/// How many quote characters a text holds.
pub open spec fn count_quotes(s: Seq<char>) -> nat
    decreases s.len(),
{
    if s.len() == 0 {
        0
    } else {
        count_quotes(s.drop_last()) + if s.last() == '"' {
            1nat
        } else {
            0nat
        }
    }
}

/// Whether every quote of a text stands in a pair of adjacent quotes, the
/// pairs read from the end.
pub open spec fn quotes_paired(t: Seq<char>) -> bool
    decreases t.len(),
{
    if t.len() == 0 {
        true
    } else if t.last() == '"' {
        t.len() >= 2 && t[t.len() - 2] == '"' && quotes_paired(t.subrange(0, t.len() - 2))
    } else {
        quotes_paired(t.drop_last())
    }
}

/// Between its outer quotes, a quoted identifier holds its quotes only in
/// adjacent pairs, and it is longer than the identifier by two plus one for
/// each quote the identifier holds.
pub proof fn lemma_identifier_shape(s: Seq<char>)
    ensures
        quote_identifier(s).len() == s.len() + count_quotes(s) + 2,
        quotes_paired(quote_identifier(s).subrange(1, quote_identifier(s).len() - 1)),
{
    let q = quote_identifier(s);
    assert(q.subrange(1, q.len() - 1) == escape_quotes(s));
    lemma_escape_shape(s);
}

/// Doubling quotes adds one character per quote and leaves them paired.
proof fn lemma_escape_shape(s: Seq<char>)
    ensures
        escape_quotes(s).len() == s.len() + count_quotes(s),
        quotes_paired(escape_quotes(s)),
    decreases s.len(),
{
    if s.len() > 0 {
        let init = s.drop_last();
        lemma_escape_shape(init);
        let e = escape_quotes(s);
        if s.last() == '"' {
            assert(e.subrange(0, e.len() - 2) == escape_quotes(init));
        } else {
            assert(e.drop_last() == escape_quotes(init));
        }
    }
}

/// Different numbers have different decimal spellings.
pub proof fn lemma_decimal_injective(a: nat, b: nat)
    requires
        decimal(a) == decimal(b),
    ensures
        a == b,
    decreases a,
{
    if a >= 10 && b >= 10 {
        assert(decimal(a).drop_last() == decimal(a / 10));
        assert(decimal(b).drop_last() == decimal(b / 10));
        lemma_decimal_injective(a / 10, b / 10);
        assert(decimal(a).last() == digit_char(a % 10));
        assert(decimal(b).last() == digit_char(b % 10));
        lemma_digit_char_injective(a % 10, b % 10);
    } else if a < 10 && b < 10 {
        assert(decimal(a)[0] == digit_char(a));
        assert(decimal(b)[0] == digit_char(b));
        lemma_digit_char_injective(a, b);
    } else if a < 10 {
        lemma_decimal_len(b / 10);
        assert(decimal(b).len() >= 2);
    } else {
        lemma_decimal_len(a / 10);
        assert(decimal(a).len() >= 2);
    }
}

/// A decimal spelling is never empty.
proof fn lemma_decimal_len(n: nat)
    ensures
        decimal(n).len() >= 1,
    decreases n,
{
    if n >= 10 {
        lemma_decimal_len(n / 10);
    }
}

/// Different digits have different characters.
proof fn lemma_digit_char_injective(a: nat, b: nat)
    requires
        a < 10,
        b < 10,
        digit_char(a) == digit_char(b),
    ensures
        a == b,
{
    assert(((a + 48) as u8) as char == ((b + 48) as u8) as char);
    assert((((a + 48) as u8) as char) as u32 == (a + 48));
    assert((((b + 48) as u8) as char) as u32 == (b + 48));
}

/// The character of a decimal digit.
pub open spec fn digit_char(d: nat) -> char {
    ((d + 48) as u8) as char
}

/// The decimal spelling of `n`, without leading zeros.
pub open spec fn decimal(n: nat) -> Seq<char>
    decreases n,
{
    if n < 10 {
        seq![digit_char(n)]
    } else {
        decimal(n / 10).push(digit_char(n % 10))
    }
}

/// The placeholder that the `k`-th bind value of a statement stands at.
pub open spec fn placeholder(k: nat) -> Seq<char> {
    seq!['$'] + decimal(k)
}

/// The text of one decimal digit.
fn digit_str(d: u32) -> (r: &'static str)
    requires
        d < 10,
    ensures
        r@ == seq![digit_char(d as nat)],
{
    proof {
        reveal_strlit("0");
        reveal_strlit("1");
        reveal_strlit("2");
        reveal_strlit("3");
        reveal_strlit("4");
        reveal_strlit("5");
        reveal_strlit("6");
        reveal_strlit("7");
        reveal_strlit("8");
        reveal_strlit("9");
    }
    match d {
        0 => "0",
        1 => "1",
        2 => "2",
        3 => "3",
        4 => "4",
        5 => "5",
        6 => "6",
        7 => "7",
        8 => "8",
        _ => "9",
    }
}

/// Appends the decimal spelling of `n` to `out`.
pub fn append_decimal(out: &mut String, n: u32)
    ensures
        final(out)@ == old(out)@ + decimal(n as nat),
    decreases n,
{
    if n >= 10 {
        append_decimal(out, n / 10);
    }
    out.append(digit_str(n % 10));
    proof {
        if n < 10 {
            assert(decimal(n as nat) == seq![digit_char(n as nat)]);
        }
    }
}

/// Collects the SQL text of one statement and numbers its placeholders.
#[derive(Debug, Default)]
pub struct RdsQueryBuilder {
    sql: String,
    bind_idx: u32,
}

impl RdsQueryBuilder {
    /// The text collected so far.
    pub closed spec fn text(&self) -> Seq<char> {
        self.sql@
    }

    /// How many placeholders have been emitted so far.
    pub closed spec fn bind_count(&self) -> nat {
        self.bind_idx as nat
    }

    /// A builder with no text and no placeholders.
    pub fn new() -> (r: Self)
        ensures
            r.text() == Seq::<char>::empty(),
            r.bind_count() == 0,
    {
        RdsQueryBuilder { sql: String::new(), bind_idx: 0 }
    }

    /// Appends SQL text as it is.
    pub fn push_sql(&mut self, sql: &str)
        ensures
            final(self).text() == old(self).text() + sql@,
            final(self).bind_count() == old(self).bind_count(),
    {
        self.sql.append(sql);
    }

    /// Appends an identifier, quoted, with each quote inside it doubled.
    pub fn push_identifier(&mut self, identifier: &str) -> (r: Result<(), RdsError>)
        ensures
            r is Ok,
            final(self).text() == old(self).text() + quote_identifier(identifier@),
            final(self).bind_count() == old(self).bind_count(),
    {
        proof {
            reveal_strlit("\"");
        }
        let ghost id = identifier@;
        self.push_sql("\"");
        let ghost base = self.sql@;
        let n = identifier.unicode_len();
        let mut start: usize = 0;
        let mut i: usize = 0;
        while i < n
            invariant
                n == id.len(),
                identifier@ == id,
                start <= i <= n,
                self.sql@ == base + escape_quotes(id.subrange(0, start as int)),
                escape_quotes(id.subrange(0, i as int)) == escape_quotes(id.subrange(0, start as int))
                    + id.subrange(start as int, i as int),
                self.bind_idx == old(self).bind_idx,
                base == old(self).sql@ + seq!['"'],
                "\""@ == seq!['"'],
            decreases n - i,
        {
            let c = identifier.get_char(i);
            proof {
                assert(id.subrange(0, i + 1).drop_last() == id.subrange(0, i as int));
                assert(id.subrange(0, i + 1).last() == c);
            }
            if c == '"' {
                let piece = identifier.substring_char(start, i + 1);
                self.push_sql(piece);
                self.push_sql("\"");
                proof {
                    assert(id.subrange(start as int, i + 1) == id.subrange(start as int, i as int).push(
                        c,
                    ));
                    assert(self.sql@ == base + escape_quotes(id.subrange(0, i + 1)));
                }
                start = i + 1;
                proof {
                    assert(id.subrange(start as int, i + 1) == Seq::<char>::empty());
                }
            } else {
                proof {
                    assert(id.subrange(start as int, i + 1) == id.subrange(start as int, i as int).push(
                        c,
                    ));
                }
            }
            i = i + 1;
        }
        let rest = identifier.substring_char(start, n);
        self.push_sql(rest);
        self.push_sql("\"");
        proof {
            assert(id.subrange(0, n as int) == id);
        }
        Ok(())
    }

    /// Appends the next numbered placeholder: `$1` for the first, `$2` for
    /// the second, and so on.
    pub fn push_bind_param(&mut self)
        requires
            old(self).bind_count() < u32::MAX,
        ensures
            final(self).bind_count() == old(self).bind_count() + 1,
            final(self).text() == old(self).text() + placeholder(final(self).bind_count()),
    {
        proof {
            reveal_strlit("$");
        }
        self.bind_idx = self.bind_idx + 1;
        self.push_sql("$");
        let k = self.bind_idx;
        append_decimal(&mut self.sql, k);
    }

    /// The collected text; the builder is used up.
    pub fn finish(self) -> (r: String)
        ensures
            r@ == self.text(),
    {
        self.sql
    }
}

} // verus!
