//! Verified text helpers for the pattern loader: splitting a line into
//! comma-separated fields, trimming surrounding whitespace, and reading a
//! non-negative integer from a run of decimal digits.
//!
//! Each executable function is proved against a small recursive model of
//! the corresponding string operation.

use vstd::prelude::*;
use vstd::string::StrSliceExecFns;
use vstd::string::StringExecFns;

verus! {

/// The whitespace characters that trimming removes: the ASCII blank
/// characters that can plausibly surround a field in a pattern line.
pub open spec fn is_space_char(c: char) -> bool {
    c == ' ' || c == '\t' || c == '\r' || c == '\n'
}

/// `s` without its leading whitespace.
pub open spec fn trim_front(s: Seq<char>) -> Seq<char>
    decreases s.len(),
{
    if s.len() > 0 && is_space_char(s[0]) {
        trim_front(s.drop_first())
    } else {
        s
    }
}

/// `s` without its trailing whitespace.
pub open spec fn trim_back(s: Seq<char>) -> Seq<char>
    decreases s.len(),
{
    if s.len() > 0 && is_space_char(s.last()) {
        trim_back(s.drop_last())
    } else {
        s
    }
}

/// `s` without leading and trailing whitespace.
pub open spec fn trimmed(s: Seq<char>) -> Seq<char> {
    trim_back(trim_front(s))
}

/// Dropping any number of leading whitespace characters does not change the
/// front-trimmed value.
proof fn lemma_trim_front_skip(s: Seq<char>, i: int)
    requires
        0 <= i <= s.len(),
        forall|j: int| 0 <= j < i ==> is_space_char(#[trigger] s[j]),
    ensures
        trim_front(s) == trim_front(s.skip(i)),
    decreases i,
{
    if i == 0 {
        assert(s.skip(0) =~= s);
    } else {
        assert(s.drop_first().skip(i - 1) =~= s.skip(i));
        lemma_trim_front_skip(s.drop_first(), i - 1);
    }
}

/// Dropping any number of trailing whitespace characters does not change the
/// back-trimmed value.
proof fn lemma_trim_back_take(s: Seq<char>, i: int)
    requires
        0 <= i <= s.len(),
        forall|j: int| i <= j < s.len() ==> is_space_char(#[trigger] s[j]),
    ensures
        trim_back(s) == trim_back(s.take(i)),
    decreases s.len() - i,
{
    if i == s.len() {
        assert(s.take(i) =~= s);
    } else {
        assert(is_space_char(s.last()));
        assert(s.drop_last() =~= s.take(s.len() - 1));
        lemma_trim_back_take(s.take(s.len() - 1), i);
        assert(s.take(s.len() - 1).take(i) =~= s.take(i));
    }
}

/// Whether `c` is one of the whitespace characters that trimming removes.
fn is_space(c: char) -> (b: bool)
    ensures
        b == is_space_char(c),
{
    c == ' ' || c == '\t' || c == '\r' || c == '\n'
}

/// Returns `s` without leading and trailing whitespace.
pub fn trim_spaces(s: &str) -> (r: &str)
    ensures
        r@ == trimmed(s@),
{
    let len: usize = s.unicode_len();
    let mut start: usize = 0;
    while start < len && is_space(s.get_char(start))
        invariant
            0 <= start <= len,
            len == s@.len(),
            forall|j: int| 0 <= j < start ==> is_space_char(#[trigger] s@[j]),
        decreases len - start,
    {
        start = start + 1;
    }
    let mut end: usize = len;
    while end > start && is_space(s.get_char(end - 1))
        invariant
            start <= end <= len,
            len == s@.len(),
            forall|j: int| end <= j < len ==> is_space_char(#[trigger] s@[j]),
        decreases end,
    {
        end = end - 1;
    }
    let r = s.substring_char(start, end);
    proof {
        let t = s@.skip(start as int);
        lemma_trim_front_skip(s@, start as int);
        assert(trim_front(t) == t);
        lemma_trim_back_take(t, end - start);
        assert(t.take(end - start) =~= s@.subrange(start as int, end as int));
        if end > start {
            assert(t.take(end - start).last() == s@[end - 1]);
        }
        assert(trim_back(t.take(end - start)) == t.take(end - start));
    }
    r
}

/// Whether `c` is a decimal digit.
pub open spec fn is_digit_char(c: char) -> bool {
    '0' <= c && c <= '9'
}

/// The numeric value of a decimal digit.
pub open spec fn digit_value(c: char) -> int {
    c as int - '0' as int
}

/// A non-empty run of decimal digits: the strings this loader accepts as a
/// non-negative integer.
pub open spec fn is_digit_string(s: Seq<char>) -> bool {
    s.len() > 0 && forall|i: int| 0 <= i < s.len() ==> is_digit_char(#[trigger] s[i])
}

/// The number denoted by a run of decimal digits, most significant first.
pub open spec fn digits_value(s: Seq<char>) -> int
    decreases s.len(),
{
    if s.len() == 0 {
        0
    } else {
        digits_value(s.drop_last()) * 10 + digit_value(s.last())
    }
}

/// A run of digits denotes a non-negative number.
pub proof fn lemma_digits_value_nonneg(s: Seq<char>)
    requires
        forall|i: int| 0 <= i < s.len() ==> is_digit_char(#[trigger] s[i]),
    ensures
        digits_value(s) >= 0,
    decreases s.len(),
{
    if s.len() > 0 {
        lemma_digits_value_nonneg(s.drop_last());
    }
}

/// Extending a run of digits on the right multiplies its value by ten and
/// adds the new digit.
proof fn lemma_digits_value_take_step(s: Seq<char>, i: int)
    requires
        0 <= i < s.len(),
    ensures
        digits_value(s.take(i + 1)) == digits_value(s.take(i)) * 10 + digit_value(s[i]),
{
    assert(s.take(i + 1).drop_last() =~= s.take(i));
    assert(s.take(i + 1).last() == s[i]);
}

/// A prefix of a run of digits never denotes more than the whole run.
proof fn lemma_digits_value_prefix_le(s: Seq<char>, i: int)
    requires
        0 <= i <= s.len(),
        forall|j: int| 0 <= j < s.len() ==> is_digit_char(#[trigger] s[j]),
    ensures
        digits_value(s.take(i)) <= digits_value(s),
    decreases s.len() - i,
{
    if i == s.len() {
        assert(s.take(i) =~= s);
    } else {
        lemma_digits_value_take_step(s, i);
        lemma_digits_value_nonneg(s.take(i));
        lemma_digits_value_prefix_le(s, i + 1);
    }
}

/// Reads a non-negative integer written as a non-empty run of decimal
/// digits. Returns `None` when `s` is empty, holds any non-digit character
/// (no sign, no surrounding whitespace), or denotes a value that does not
/// fit in `usize`.
pub fn parse_usize_digits(s: &str) -> (r: Option<usize>)
    ensures
        r is Some <==> is_digit_string(s@) && digits_value(s@) <= usize::MAX,
        r is Some ==> r->Some_0 == digits_value(s@),
{
    let len: usize = s.unicode_len();
    if len == 0 {
        return None;
    }
    let mut value: usize = 0;
    let mut i: usize = 0;
    while i < len
        invariant
            0 <= i <= len,
            len == s@.len(),
            forall|j: int| 0 <= j < i ==> is_digit_char(#[trigger] s@[j]),
            value == digits_value(s@.take(i as int)),
        decreases len - i,
    {
        let c = s.get_char(i);
        if c < '0' || c > '9' {
            return None;
        }
        let d: usize = (c as u32 - '0' as u32) as usize;
        proof {
            lemma_digits_value_take_step(s@, i as int);
        }
        let next_value = match value.checked_mul(10) {
            Some(v10) => v10.checked_add(d),
            None => None,
        };
        match next_value {
            Some(v) => {
                value = v;
            },
            None => {
                // The digits read so far already exceed `usize`; the full
                // run can only denote more.
                proof {
                    if is_digit_string(s@) {
                        lemma_digits_value_prefix_le(s@, i + 1);
                    }
                }
                return None;
            },
        }
        i = i + 1;
    }
    proof {
        assert(s@.take(len as int) =~= s@);
    }
    Some(value)
}

/// The comma-separated fields of `s`, in order. An empty string has one
/// empty field; every comma separates two (possibly empty) fields, so the
/// result holds one field more than `s` holds commas.
pub open spec fn split_commas(s: Seq<char>) -> Seq<Seq<char>>
    decreases s.len(),
{
    if s.len() == 0 {
        seq![Seq::<char>::empty()]
    } else if s[0] == ',' {
        seq![Seq::<char>::empty()] + split_commas(s.drop_first())
    } else {
        let rest = split_commas(s.drop_first());
        seq![seq![s[0]] + rest[0]] + rest.drop_first()
    }
}

/// Splitting always yields at least one field.
pub proof fn lemma_split_commas_len(s: Seq<char>)
    ensures
        split_commas(s).len() >= 1,
    decreases s.len(),
{
    if s.len() > 0 {
        lemma_split_commas_len(s.drop_first());
    }
}

/// How the fields change when one character is appended: a comma opens a
/// new empty field, any other character extends the last field.
proof fn lemma_split_commas_push(s: Seq<char>, c: char)
    ensures
        c == ',' ==> split_commas(s.push(c)) == split_commas(s).push(Seq::<char>::empty()),
        c != ',' ==> split_commas(s.push(c)) == split_commas(s).update(
            split_commas(s).len() - 1,
            split_commas(s).last().push(c),
        ),
    decreases s.len(),
{
    lemma_split_commas_len(s);
    if s.len() == 0 {
        assert(s =~= Seq::<char>::empty());
        assert(s.push(c)[0] == c);
        assert(s.push(c).drop_first() =~= s);
        assert(split_commas(s) =~~= seq![Seq::<char>::empty()]);
        if c == ',' {
            assert(split_commas(s.push(c)) =~~= seq![Seq::<char>::empty()] + split_commas(s));
            assert(split_commas(s.push(c)) =~~= split_commas(s).push(Seq::<char>::empty()));
        } else {
            assert(split_commas(s.push(c)) =~~= seq![seq![c] + split_commas(s)[0]]
                + split_commas(s).drop_first());
            assert(seq![c] + Seq::<char>::empty() =~= seq![c]);
            assert(split_commas(s.push(c)) =~~= split_commas(s).update(
                0,
                split_commas(s).last().push(c),
            ));
        }
    } else {
        let t = s.drop_first();
        assert(s.push(c).drop_first() =~= t.push(c));
        assert(s.push(c)[0] == s[0]);
        lemma_split_commas_push(t, c);
        lemma_split_commas_len(t);
        if c == ',' {
            if s[0] == ',' {
                assert(split_commas(s.push(c)) =~~= split_commas(s).push(Seq::<char>::empty()));
            } else {
                assert(split_commas(t.push(c))[0] == split_commas(t)[0]);
                assert(split_commas(s.push(c)) =~~= split_commas(s).push(Seq::<char>::empty()));
            }
        } else {
            let k = split_commas(t).len();
            if s[0] == ',' {
                assert(split_commas(s).last() == split_commas(t).last());
                assert(split_commas(s.push(c)) =~~= split_commas(s).update(
                    split_commas(s).len() - 1,
                    split_commas(s).last().push(c),
                ));
            } else {
                if k == 1 {
                    assert(split_commas(t.push(c))[0] == split_commas(t)[0].push(c));
                    assert(split_commas(s).last() == seq![s[0]] + split_commas(t)[0]);
                    assert((seq![s[0]] + split_commas(t)[0].push(c)) =~= (seq![s[0]]
                        + split_commas(t)[0]).push(c));
                    assert(split_commas(s.push(c)) =~~= split_commas(s).update(
                        split_commas(s).len() - 1,
                        split_commas(s).last().push(c),
                    ));
                } else {
                    assert(split_commas(t.push(c))[0] == split_commas(t)[0]);
                    assert(split_commas(s).last() == split_commas(t).last());
                    assert(split_commas(s.push(c)) =~~= split_commas(s).update(
                        split_commas(s).len() - 1,
                        split_commas(s).last().push(c),
                    ));
                }
            }
        }
    }
}

/// Splits `s` into its comma-separated fields, in order.
pub fn split_on_commas(s: &str) -> (r: Vec<String>)
    ensures
        r.deep_view() == split_commas(s@),
        r@.len() >= 1,
{
    let len: usize = s.unicode_len();
    let mut fields: Vec<String> = Vec::new();
    let mut start: usize = 0;
    let mut i: usize = 0;
    proof {
        assert(s@.take(0) =~= Seq::<char>::empty());
        assert(fields.deep_view() =~= Seq::<Seq<char>>::empty());
        assert(fields.deep_view().push(s@.subrange(0, 0)) =~~= split_commas(s@.take(0)));
    }
    while i < len
        invariant
            0 <= start <= i <= len,
            len == s@.len(),
            fields.deep_view().push(s@.subrange(start as int, i as int)) == split_commas(
                s@.take(i as int),
            ),
        decreases len - i,
    {
        let ghost prev = s@.take(i as int);
        proof {
            assert(s@.take(i + 1) =~= prev.push(s@[i as int]));
            lemma_split_commas_push(prev, s@[i as int]);
            lemma_split_commas_len(prev);
        }
        if s.get_char(i) == ',' {
            let field = s.substring_char(start, i).to_owned();
            fields.push(field);
            proof {
                assert(fields.deep_view().push(s@.subrange(i + 1, i + 1)) =~~= split_commas(
                    s@.take(i + 1),
                ));
            }
            start = i + 1;
        } else {
            proof {
                assert(s@.subrange(start as int, i + 1) =~= s@.subrange(start as int, i as int).push(
                    s@[i as int],
                ));
                assert(fields.deep_view().push(s@.subrange(start as int, i + 1)) =~~= split_commas(
                    prev,
                ).update(split_commas(prev).len() - 1, split_commas(prev).last().push(s@[i as int])));
            }
        }
        i = i + 1;
    }
    let last_field = s.substring_char(start, len).to_owned();
    fields.push(last_field);
    proof {
        assert(s@.take(len as int) =~= s@);
        assert(fields.deep_view() =~~= split_commas(s@));
    }
    fields
}

} // verus!
