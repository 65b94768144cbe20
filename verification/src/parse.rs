//! Text machinery for kernel counter tables: splitting a line into
//! whitespace-separated columns, splitting a text into lines, and
//! reading decimal integers, each against an exact functional
//! specification.

use vstd::prelude::*;

use crate::errors::{Error, ErrorKind};

verus! {

/// ASCII whitespace, the delimiter between kernel table columns.
pub open spec fn is_ws_char(c: char) -> bool {
    c == ' ' || c == '\t' || c == '\r' || c == '\n'
}

/// A decimal digit.
pub open spec fn is_digit_char(c: char) -> bool {
    '0' <= c && c <= '9'
}

/// The numeric value of a decimal digit.
pub open spec fn digit_value(c: char) -> int {
    c as int - '0' as int
}

/// The length of the leading run of non-whitespace characters.
pub open spec fn token_end(s: Seq<char>) -> int
    decreases s.len(),
{
    if s.len() == 0 {
        0
    } else if is_ws_char(s[0]) {
        0
    } else {
        1 + token_end(s.skip(1))
    }
}

proof fn lemma_token_end_bounds(s: Seq<char>)
    ensures
        0 <= token_end(s) <= s.len(),
        s.len() > 0 && !is_ws_char(s[0]) ==> 1 <= token_end(s),
    decreases s.len(),
{
    if s.len() > 0 && !is_ws_char(s[0]) {
        lemma_token_end_bounds(s.skip(1));
    }
}

proof fn lemma_token_end_is(s: Seq<char>, k: int)
    requires
        0 <= k <= s.len(),
        forall|t: int| 0 <= t < k ==> !is_ws_char(s[t]),
        k == s.len() || is_ws_char(s[k]),
    ensures
        token_end(s) == k,
    decreases k,
{
    if k > 0 {
        assert(forall|t: int| 0 <= t < k - 1 ==> s.skip(1)[t] == s[t + 1]);
        lemma_token_end_is(s.skip(1), k - 1);
    }
}

/// The whitespace-separated columns of one line, in order.
pub open spec fn tokens(s: Seq<char>) -> Seq<Seq<char>>
    decreases s.len(),
        via tokens_decreases
{
    if s.len() == 0 {
        Seq::empty()
    } else if is_ws_char(s[0]) {
        tokens(s.skip(1))
    } else {
        seq![s.take(token_end(s))] + tokens(s.skip(token_end(s)))
    }
}

#[via_fn]
proof fn tokens_decreases(s: Seq<char>) {
    if s.len() > 0 && !is_ws_char(s[0]) {
        lemma_token_end_bounds(s);
    }
}

/// Whether `c` counts as a column delimiter.
fn is_ws_exec(c: char) -> (b: bool)
    ensures
        b == is_ws_char(c),
{
    c == ' ' || c == '\t' || c == '\r' || c == '\n'
}

/// Splits one line into its whitespace-separated columns, in order.
pub fn split_columns(s: &str) -> (r: Vec<String>)
    ensures
        r.deep_view() == tokens(s@),
{
    let n = s.unicode_len();
    let mut out: Vec<String> = Vec::new();
    let mut i: usize = 0;
    proof {
        assert(s@.skip(0) =~= s@);
        assert(out.deep_view() + tokens(s@) =~= tokens(s@));
    }
    while i < n
        invariant
            n == s@.len(),
            i <= n,
            out.deep_view() + tokens(s@.skip(i as int)) == tokens(s@),
        decreases n - i,
    {
        let c = s.get_char(i);
        if is_ws_exec(c) {
            proof {
                assert(s@.skip(i as int).skip(1) =~= s@.skip(i as int + 1));
            }
            i = i + 1;
        } else {
            let start = i;
            let mut j = i + 1;
            while j < n && !is_ws_at(s, j)
                invariant
                    n == s@.len(),
                    i < j <= n,
                    forall|t: int| i <= t < j ==> !is_ws_char(s@[t]),
                decreases n - j,
            {
                j = j + 1;
            }
            let tok = s.substring_char(start, j);
            proof {
                let rest = s@.skip(start as int);
                assert(forall|t: int| 0 <= t < j - start ==> rest[t] == s@[t + start]);
                lemma_token_end_is(rest, j - start);
                assert(rest.take(j - start) =~= tok@);
                assert(rest.skip(j - start) =~= s@.skip(j as int));
                assert(tokens(rest) == seq![tok@] + tokens(s@.skip(j as int)));
            }
            let ghost pre = out.deep_view();
            out.push(String::from_str(tok));
            proof {
                assert(out.deep_view() =~= pre + seq![tok@]);
                assert(pre + seq![tok@] + tokens(s@.skip(j as int)) =~= pre + (seq![tok@]
                    + tokens(s@.skip(j as int))));
            }
            i = j;
        }
    }
    proof {
        assert(s@.skip(n as int) =~= Seq::<char>::empty());
        assert(out.deep_view() + tokens(s@.skip(n as int)) =~= out.deep_view());
    }
    out
}

/// Whether the character at `j` is a column delimiter.
fn is_ws_at(s: &str, j: usize) -> (b: bool)
    requires
        j < s@.len(),
    ensures
        b == is_ws_char(s@[j as int]),
{
    is_ws_exec(s.get_char(j))
}

/// The length of the leading run of characters other than a line
/// break.
pub open spec fn line_break(s: Seq<char>) -> int
    decreases s.len(),
{
    if s.len() == 0 {
        0
    } else if s[0] == '\n' {
        0
    } else {
        1 + line_break(s.skip(1))
    }
}

proof fn lemma_line_break_bounds(s: Seq<char>)
    ensures
        0 <= line_break(s) <= s.len(),
    decreases s.len(),
{
    if s.len() > 0 && s[0] != '\n' {
        lemma_line_break_bounds(s.skip(1));
    }
}

proof fn lemma_line_break_is(s: Seq<char>, k: int)
    requires
        0 <= k <= s.len(),
        forall|t: int| 0 <= t < k ==> s[t] != '\n',
        k == s.len() || s[k] == '\n',
    ensures
        line_break(s) == k,
    decreases k,
{
    if k > 0 {
        assert(forall|t: int| 0 <= t < k - 1 ==> s.skip(1)[t] == s[t + 1]);
        lemma_line_break_is(s.skip(1), k - 1);
    }
}

/// The lines of a text: the segments between line breaks, in order.
/// The text is split on `'\n'` exactly, and a trailing line break ends
/// the last line rather than opening an empty one.
pub open spec fn split_lines(s: Seq<char>) -> Seq<Seq<char>>
    decreases s.len(),
        via split_lines_decreases
{
    if s.len() == 0 {
        Seq::empty()
    } else if line_break(s) == s.len() {
        seq![s]
    } else {
        seq![s.take(line_break(s))] + split_lines(s.skip(line_break(s) + 1))
    }
}

#[via_fn]
proof fn split_lines_decreases(s: Seq<char>) {
    if s.len() > 0 {
        lemma_line_break_bounds(s);
    }
}

/// Whether the character at `j` is a line break.
fn is_nl_at(s: &str, j: usize) -> (b: bool)
    requires
        j < s@.len(),
    ensures
        b == (s@[j as int] == '\n'),
{
    s.get_char(j) == '\n'
}

/// Splits a text into its lines, in order.
pub fn split_into_lines(s: &str) -> (r: Vec<String>)
    ensures
        r.deep_view() == split_lines(s@),
{
    let n = s.unicode_len();
    let mut out: Vec<String> = Vec::new();
    let mut i: usize = 0;
    proof {
        assert(s@.skip(0) =~= s@);
        assert(out.deep_view() + split_lines(s@) =~= split_lines(s@));
    }
    while i < n
        invariant
            n == s@.len(),
            i <= n,
            out.deep_view() + split_lines(s@.skip(i as int)) == split_lines(s@),
        decreases n - i,
    {
        let start = i;
        let mut j = i;
        while j < n && !is_nl_at(s, j)
            invariant
                n == s@.len(),
                i <= j <= n,
                forall|t: int| i <= t < j ==> s@[t] != '\n',
            decreases n - j,
        {
            j = j + 1;
        }
        let line = s.substring_char(start, j);
        proof {
            let rest = s@.skip(start as int);
            assert(forall|t: int| 0 <= t < rest.len() ==> rest[t] == s@[t + start]);
            lemma_line_break_is(rest, j - start);
            assert(rest.take(j - start) =~= line@);
            if j < n {
                assert(rest.skip(j - start + 1) =~= s@.skip(j as int + 1));
                assert(split_lines(rest) == seq![line@] + split_lines(s@.skip(j as int + 1)));
            } else {
                assert(rest =~= line@);
                assert(split_lines(rest) == seq![line@]);
            }
        }
        let ghost pre = out.deep_view();
        out.push(String::from_str(line));
        proof {
            assert(out.deep_view() =~= pre + seq![line@]);
        }
        if j < n {
            proof {
                assert(pre + seq![line@] + split_lines(s@.skip(j as int + 1)) =~= pre + (seq![
                    line@,
                ] + split_lines(s@.skip(j as int + 1))));
            }
            i = j + 1;
        } else {
            proof {
                assert(s@.skip(n as int) =~= Seq::<char>::empty());
                assert(pre + seq![line@] + split_lines(s@.skip(n as int)) =~= pre + seq![line@]);
            }
            i = j;
        }
    }
    proof {
        assert(s@.skip(n as int) =~= Seq::<char>::empty());
        assert(out.deep_view() + split_lines(s@.skip(n as int)) =~= out.deep_view());
    }
    out
}

/// The value of a digit string read as a decimal number, most
/// significant digit first.
pub open spec fn dec_val(s: Seq<char>) -> int
    decreases s.len(),
{
    if s.len() == 0 {
        0
    } else {
        10 * dec_val(s.drop_last()) + digit_value(s.last())
    }
}

/// Whether every character of `s` is a decimal digit.
pub open spec fn all_digits(s: Seq<char>) -> bool {
    forall|i: int| 0 <= i < s.len() ==> is_digit_char(s[i])
}

/// Whether `s` is a decimal number that fits in a `u64`: nonempty, all
/// digits, and within range.
pub open spec fn parses_to_u64(s: Seq<char>) -> bool {
    s.len() > 0 && all_digits(s) && dec_val(s) <= u64::MAX
}

pub proof fn lemma_dec_val_nonneg(s: Seq<char>)
    requires
        all_digits(s),
    ensures
        dec_val(s) >= 0,
    decreases s.len(),
{
    if s.len() > 0 {
        assert(forall|i: int| 0 <= i < s.len() - 1 ==> s.drop_last()[i] == s[i]);
        lemma_dec_val_nonneg(s.drop_last());
    }
}

/// Reading more digits never lowers the value.
pub proof fn lemma_dec_val_prefix_le(s: Seq<char>, i: int, j: int)
    requires
        all_digits(s),
        0 <= i <= j <= s.len(),
    ensures
        dec_val(s.take(i)) <= dec_val(s.take(j)),
    decreases j - i,
{
    if i < j {
        lemma_dec_val_prefix_le(s, i, j - 1);
        assert(s.take(j).drop_last() =~= s.take(j - 1));
        assert(s.take(j).last() == s[j - 1]);
        assert(forall|t: int| 0 <= t < j - 1 ==> s.take(j - 1)[t] == s[t]);
        lemma_dec_val_nonneg(s.take(j - 1));
    }
}

/// Reads a column as a decimal `u64`, exactly when the column is a
/// nonempty digit string whose value fits; any other column gives an
/// integer-parse error.
pub fn parse_u64(tok: &str) -> (r: Result<u64, Error>)
    ensures
        parses_to_u64(tok@) ==> (r matches Ok(v) && v == dec_val(tok@)),
        !parses_to_u64(tok@) ==> (r matches Err(e) && e.spec_kind() == ErrorKind::ParseInt),
{
    let n = tok.unicode_len();
    if n == 0 {
        return Err(Error::with_detail(
            ErrorKind::ParseInt,
            String::from_str("cannot parse integer from empty string"),
        ));
    }
    let mut val: u64 = 0;
    let mut i: usize = 0;
    while i < n
        invariant
            n == tok@.len(),
            i <= n,
            all_digits(tok@.take(i as int)),
            val == dec_val(tok@.take(i as int)),
        decreases n - i,
    {
        let c = tok.get_char(i);
        let cu = c as u32;
        if cu < 48 || cu > 57 {
            assert(!is_digit_char(tok@[i as int]));
            return Err(Error::with_detail(
                ErrorKind::ParseInt,
                String::from_str("invalid digit found in string"),
            ));
        }
        let d = (cu - 48) as u64;
        proof {
            assert(tok@.take(i as int + 1).drop_last() =~= tok@.take(i as int));
            assert(tok@.take(i as int + 1).last() == tok@[i as int]);
            assert(d == digit_value(tok@[i as int]));
        }
        let next = match val.checked_mul(10) {
            Some(v10) => v10.checked_add(d),
            None => None,
        };
        match next {
            Some(v) => {
                val = v;
            },
            None => {
                proof {
                    assert(dec_val(tok@.take(i as int + 1)) > u64::MAX);
                    if all_digits(tok@) {
                        lemma_dec_val_prefix_le(tok@, i as int + 1, n as int);
                        assert(tok@.take(n as int) =~= tok@);
                    }
                }
                return Err(Error::with_detail(
                    ErrorKind::ParseInt,
                    String::from_str("number too large to fit in target type"),
                ));
            },
        }
        i = i + 1;
    }
    proof {
        assert(tok@.take(n as int) =~= tok@);
    }
    Ok(val)
}

} // verus!
