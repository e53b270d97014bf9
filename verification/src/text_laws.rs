//! What holds of texts that are trimmed, split and written.

use crate::http_base::{digits_value, is_digit, number_in};
use crate::text::{
    decimal, digit, is_space, lemma_line_end, line_end, lines, signed_decimal, trimmed,
    trimmed_back, trimmed_front, without_cr,
};
use vstd::prelude::*;

verus! {

/// Whether a text is nothing but white space.
pub open spec fn is_blank(s: Seq<char>) -> bool {
    forall|i: int| 0 <= i < s.len() ==> is_space(#[trigger] s[i])
}

proof fn lemma_front(s: Seq<char>)
    ensures
        trimmed_front(s).len() <= s.len(),
        s.skip(s.len() - trimmed_front(s).len()) == trimmed_front(s),
        is_blank(s.take(s.len() - trimmed_front(s).len())),
        trimmed_front(s).len() > 0 ==> !is_space(trimmed_front(s)[0]),
    decreases s.len(),
{
    let t = trimmed_front(s);
    if s.len() > 0 && is_space(s[0]) {
        let r = s.drop_first();
        lemma_front(r);
        assert(s.skip(s.len() - t.len()) =~= r.skip(r.len() - t.len()));
        assert forall|i: int| 0 <= i < s.len() - t.len() implies is_space(
            #[trigger] s.take(s.len() - t.len())[i],
        ) by {
            if i > 0 {
                assert(is_space(r.take(r.len() - t.len())[i - 1]));
            }
        }
    } else {
        assert(s.skip(0) =~= s);
    }
}

/// A text loses the blanks at its end and nothing else.
pub proof fn law_only_end_blanks_are_dropped(s: Seq<char>)
    ensures
        trimmed_back(s).len() <= s.len(),
        s.take(trimmed_back(s).len() as int) == trimmed_back(s),
        is_blank(s.skip(trimmed_back(s).len() as int)),
        trimmed_back(s).len() > 0 ==> !is_space(trimmed_back(s).last()),
    decreases s.len(),
{
    let t = trimmed_back(s);
    let n = t.len() as int;
    if s.len() > 0 && is_space(s.last()) {
        let r = s.drop_last();
        law_only_end_blanks_are_dropped(r);
        assert(s.take(n) =~= r.take(n));
        assert forall|i: int| 0 <= i < s.len() - n implies is_space(#[trigger] s.skip(n)[i]) by {
            if n + i < r.len() {
                assert(is_space(r.skip(n)[i]));
            }
        }
    } else {
        assert(s.take(n) =~= s);
    }
}

/// A text that is trimmed is the text between two blanks, and begins and ends with none.
pub proof fn law_only_blanks_are_trimmed(s: Seq<char>)
    ensures
        exists|a: Seq<char>, b: Seq<char>|
            s == #[trigger] (a + trimmed(s) + b) && is_blank(a) && is_blank(b),
        trimmed(s).len() > 0 ==> !is_space(trimmed(s)[0]) && !is_space(trimmed(s).last()),
        trimmed(s).len() == 0 <==> is_blank(s),
{
    let f = trimmed_front(s);
    lemma_front(s);
    law_only_end_blanks_are_dropped(f);
    let t = trimmed(s);
    let a = s.take(s.len() - f.len());
    let b = f.skip(t.len() as int);
    assert(f =~= t + b);
    assert(s =~= a + t + b);
    if t.len() > 0 {
        assert(f[0] == f.take(t.len() as int)[0]);
        assert(!is_space(s[a.len() as int]));
    } else {
        assert(s =~= a + b);
        assert forall|i: int| 0 <= i < s.len() implies is_space(#[trigger] s[i]) by {
            if i < a.len() {
                assert(a[i] == s[i]);
            } else {
                assert(b[i - a.len()] == s[i]);
            }
        }
    }
}

/// Lines, each with what ends it.
pub open spec fn ended(s: Seq<Seq<char>>) -> Seq<char>
    decreases s.len(),
{
    if s.len() == 0 {
        seq![]
    } else {
        s[0].push('\n') + ended(s.drop_first())
    }
}

proof fn lemma_first_line(s: Seq<char>)
    ensures
        !s.take(line_end(s)).contains('\n'),
        line_end(s) < s.len() ==> s[line_end(s)] == '\n',
    decreases s.len(),
{
    lemma_line_end(s);
    if s.len() > 0 && s[0] != '\n' {
        let r = s.drop_first();
        lemma_line_end(r);
        lemma_first_line(r);
        assert forall|i: int| 0 <= i < line_end(s) implies s.take(line_end(s))[i] != '\n' by {
            if i > 0 {
                assert(r.take(line_end(r))[i - 1] == s[i]);
                assert(r.take(line_end(r)).contains(s[i]));
            }
        }
    }
}

/// Nothing of a text is lost when it is split into lines: with an end put to each they
/// are the text again, but for the end of the last line where it has none. No line goes
/// on over an end.
pub proof fn law_lines_make_the_text(s: Seq<char>)
    requires
        !s.contains('\r'),
    ensures
        ended(lines(s)) == s || ended(lines(s)) == s.push('\n'),
        s.len() > 0 && s.last() == '\n' ==> ended(lines(s)) == s,
        forall|i: int| 0 <= i < lines(s).len() ==> !(#[trigger] lines(s)[i]).contains('\n'),
    decreases s.len(),
{
    lemma_line_end(s);
    lemma_first_line(s);
    let n = line_end(s);
    let all = lines(s);
    if s.len() == 0 {
        assert(ended(all) =~= s);
    } else if n == s.len() {
        assert(all.drop_first() =~= seq![]);
        assert(ended(all.drop_first()) =~= seq![]);
        assert(ended(all) =~= s.push('\n'));
        assert(s.take(n) =~= s);
        if s.last() == '\n' {
            assert(s.contains('\n'));
        }
    } else {
        let rest = s.skip(n + 1);
        if rest.contains('\r') {
            let i = choose|i: int| 0 <= i < rest.len() && rest[i] == '\r';
            assert(s[n + 1 + i] == '\r');
        }
        law_lines_make_the_text(rest);
        let first = s.take(n);
        if first.len() > 0 {
            assert(first.last() == s[n - 1]);
        }
        assert(without_cr(first) == first);
        assert(all.drop_first() =~= lines(rest));
        assert(s =~= first.push('\n') + rest);
        assert(s.push('\n') =~= first.push('\n') + rest.push('\n'));
        assert forall|i: int| 0 <= i < all.len() implies !(#[trigger] all[i]).contains('\n') by {
            if i > 0 {
                assert(all[i] == lines(rest)[i - 1]);
            }
        }
        if s.last() == '\n' && rest.len() > 0 {
            assert(rest.last() == s.last());
        }
        if rest.len() == 0 {
            assert(ended(lines(rest)) =~= rest);
        }
    }
}

proof fn lemma_decimal(n: nat)
    ensures
        digits_value(decimal(n)) == n,
        decimal(n).len() > 0,
        forall|i: int| 0 <= i < decimal(n).len() ==> is_digit(#[trigger] decimal(n)[i]),
        n > 0 ==> decimal(n)[0] != '0',
    decreases n,
{
    if n < 10 {
        let s = decimal(n);
        assert(s.drop_last() =~= seq![]);
        assert(digits_value(s.drop_last()) == 0);
        assert(s.last() == digit(n));
    } else {
        lemma_decimal(n / 10);
        let s = decimal(n);
        assert(s.drop_last() =~= decimal(n / 10));
        assert(s.last() == digit(n % 10));
        assert(s[0] == decimal(n / 10)[0]);
    }
}

/// A number that is written in decimal is read as that number, and does not begin with a
/// zero unless it is zero.
pub proof fn law_number_read_back(n: u64)
    ensures
        number_in(decimal(n as nat)) == Some(n),
        n > 0 ==> decimal(n as nat)[0] != '0',
{
    lemma_decimal(n as nat);
}

/// Different numbers are written differently.
pub proof fn law_numbers_kept_apart(m: nat, n: nat)
    requires
        decimal(m) == decimal(n),
    ensures
        m == n,
{
    lemma_decimal(m);
    lemma_decimal(n);
}

/// A line ends at a line feed, with a carriage return before it or without: what stands
/// before is the first line, and the lines of what follows are the others.
pub proof fn law_lines_end_either_way(line: Seq<char>, rest: Seq<char>)
    requires
        !line.contains('\n'),
        line.len() > 0 ==> line.last() != '\r',
    ensures
        lines(line.push('\n') + rest) == seq![line] + lines(rest),
        lines(line.push('\r').push('\n') + rest) == seq![line] + lines(rest),
{
    let s = line.push('\n') + rest;
    let m = line.len() as int;
    assert forall|i: int| 0 <= i < m implies #[trigger] s[i] != '\n' by {
        assert(line.contains(line[i]));
    }
    lemma_line_end_at(s, m);
    assert(s.take(m) =~= line);
    assert(s.skip(m + 1) =~= rest);
    let t = line.push('\r').push('\n') + rest;
    let n = m + 1;
    assert forall|i: int| 0 <= i < n implies #[trigger] t[i] != '\n' by {
        if i < m {
            assert(line.contains(line[i]));
        }
    }
    lemma_line_end_at(t, n);
    assert(t.take(n) =~= line.push('\r'));
    assert(line.push('\r').drop_last() =~= line);
    assert(t.skip(n + 1) =~= rest);
}

proof fn lemma_line_end_at(s: Seq<char>, n: int)
    requires
        0 <= n < s.len(),
        s[n] == '\n',
        forall|i: int| 0 <= i < n ==> #[trigger] s[i] != '\n',
    ensures
        line_end(s) == n,
    decreases n,
{
    if n > 0 {
        let r = s.drop_first();
        assert(s[0] != '\n');
        assert forall|i: int| 0 <= i < n - 1 implies #[trigger] r[i] != '\n' by {
            assert(s[i + 1] != '\n');
        }
        lemma_line_end_at(r, n - 1);
    }
}

/// A number below zero is written with a minus sign before its digits, any other by its
/// digits alone.
pub proof fn law_sign_is_written(n: int)
    ensures
        n < 0 ==> signed_decimal(n)[0] == '-' && signed_decimal(n).skip(1) == decimal((-n) as nat),
        n >= 0 ==> signed_decimal(n) == decimal(n as nat),
{
    if n < 0 {
        assert(signed_decimal(n).skip(1) =~= decimal((-n) as nat));
    }
}

} // verus!
