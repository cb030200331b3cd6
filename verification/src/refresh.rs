use vstd::prelude::*;
use vstd::string::StrSliceExecFns;

verus! {

/// Poll cadence used when no usable refresh interval is supplied.
pub const DEFAULT_REFRESH_MILLIS: u64 = 10;

/// The characters that trimming strips from either end of the argument:
/// the Unicode white-space code points.
pub open spec fn spec_is_whitespace(c: char) -> bool {
    let u = c as u32;
    u == 0x09 || u == 0x0A || u == 0x0B || u == 0x0C || u == 0x0D || u == 0x20 || u == 0x85
        || u == 0xA0 || u == 0x1680 || (0x2000 <= u && u <= 0x200A) || u == 0x2028 || u == 0x2029
        || u == 0x202F || u == 0x205F || u == 0x3000
}

/// An ASCII decimal digit.
pub open spec fn spec_is_digit(c: char) -> bool {
    0x30 <= c as u32 <= 0x39
}

/// Numeric value of an ASCII decimal digit.
pub open spec fn spec_digit_value(c: char) -> int {
    c as u32 - 0x30
}

/// Every character of `s` is an ASCII decimal digit.
pub open spec fn spec_all_digits(s: Seq<char>) -> bool {
    forall|k: int| 0 <= k < s.len() ==> spec_is_digit(#[trigger] s[k])
}

/// The number written by a string of decimal digits, most significant
/// first.
pub open spec fn spec_digits_value(s: Seq<char>) -> int
    decreases s.len(),
{
    if s.len() == 0 {
        0
    } else {
        spec_digits_value(s.drop_last()) * 10 + spec_digit_value(s.last())
    }
}

/// `s` with its white-space prefix removed.
pub open spec fn spec_trim_front(s: Seq<char>) -> Seq<char>
    decreases s.len(),
{
    if s.len() > 0 && spec_is_whitespace(s[0]) {
        spec_trim_front(s.drop_first())
    } else {
        s
    }
}

/// `s` with its white-space suffix removed.
pub open spec fn spec_trim_back(s: Seq<char>) -> Seq<char>
    decreases s.len(),
{
    if s.len() > 0 && spec_is_whitespace(s.last()) {
        spec_trim_back(s.drop_last())
    } else {
        s
    }
}

/// `s` with white space removed from both ends.
pub open spec fn spec_trim(s: Seq<char>) -> Seq<char> {
    spec_trim_back(spec_trim_front(s))
}

/// The digit run that an unsigned decimal parse reads from the trimmed
/// argument: everything after an optional leading plus sign.
pub open spec fn spec_number_body(s: Seq<char>) -> Seq<char> {
    let t = spec_trim(s);
    if t.len() > 0 && t[0] == '+' {
        t.drop_first()
    } else {
        t
    }
}

/// Whether the digit run denotes a number an unsigned 64-bit parse
/// accepts: non-empty, all decimal digits, and within range.
pub open spec fn spec_valid_u64_digits(body: Seq<char>) -> bool {
    body.len() > 0 && spec_all_digits(body) && spec_digits_value(body) <= u64::MAX
}

/// The refresh interval read from one argument string: its trimmed text
/// parsed as an unsigned 64-bit decimal number, or the default when the
/// text is not such a number.
pub open spec fn spec_parse_refresh(s: Seq<char>) -> u64 {
    let body = spec_number_body(s);
    if spec_valid_u64_digits(body) {
        spec_digits_value(body) as u64
    } else {
        DEFAULT_REFRESH_MILLIS
    }
}

fn is_whitespace_char(c: char) -> (r: bool)
    ensures
        r == spec_is_whitespace(c),
{
    let u: u32 = c as u32;
    u == 0x09 || u == 0x0A || u == 0x0B || u == 0x0C || u == 0x0D || u == 0x20 || u == 0x85
        || u == 0xA0 || u == 0x1680 || (0x2000 <= u && u <= 0x200A) || u == 0x2028 || u == 0x2029
        || u == 0x202F || u == 0x205F || u == 0x3000
}

/// A string of digits denotes a non-negative number.
proof fn lemma_digits_value_nonneg(s: Seq<char>)
    requires
        spec_all_digits(s),
    ensures
        spec_digits_value(s) >= 0,
    decreases s.len(),
{
    if s.len() > 0 {
        assert forall|k: int| 0 <= k < s.drop_last().len() implies spec_is_digit(
            #[trigger] s.drop_last()[k],
        ) by {
            assert(s.drop_last()[k] == s[k]);
        }
        lemma_digits_value_nonneg(s.drop_last());
    }
}

/// Any prefix of an all-digit string has a value no larger than the whole
/// string's value.
proof fn lemma_digits_value_prefix_le(s: Seq<char>, k: int)
    requires
        0 <= k <= s.len(),
        spec_all_digits(s),
    ensures
        spec_digits_value(s.subrange(0, k)) <= spec_digits_value(s),
    decreases s.len() - k,
{
    if k == s.len() {
        assert(s.subrange(0, k) =~= s);
    } else {
        let p = s.subrange(0, k);
        let q = s.subrange(0, k + 1);
        assert(q.drop_last() =~= p);
        assert(q.last() == s[k]);
        assert forall|j: int| 0 <= j < p.len() implies spec_is_digit(#[trigger] p[j]) by {
            assert(p[j] == s[j]);
        }
        lemma_digits_value_nonneg(p);
        assert(spec_digits_value(q) == spec_digits_value(p) * 10 + spec_digit_value(s[k]));
        assert(spec_digits_value(p) <= spec_digits_value(q));
        lemma_digits_value_prefix_le(s, k + 1);
    }
}

/// Read the refresh interval from the first process argument: the trimmed
/// string parsed as an unsigned decimal number of milliseconds, with the
/// default taken whenever the text is empty, signed, non-numeric or out of
/// the 64-bit range — exactly the cases an unsigned 64-bit parse rejects.
#[verifier::loop_isolation(false)]
pub fn parse_refresh_rate(value: String) -> (r: u64)
    ensures
        r == spec_parse_refresh(value@),
{
    let s: &str = value.as_str();
    let n: usize = s.unicode_len();
    proof {
        assert(value@.subrange(0, n as int) =~= value@);
    }

    let mut start: usize = 0;
    while start < n && is_whitespace_char(s.get_char(start))
        invariant
            start <= n,
            spec_trim_front(value@) == spec_trim_front(value@.subrange(start as int, n as int)),
        decreases n - start,
    {
        proof {
            let cur = value@.subrange(start as int, n as int);
            assert(cur[0] == value@[start as int]);
            assert(cur.drop_first() =~= value@.subrange(start as int + 1, n as int));
        }
        start = start + 1;
    }
    proof {
        if start == n {
            assert(value@.subrange(start as int, n as int).len() == 0);
        } else {
            assert(value@.subrange(start as int, n as int)[0] == value@[start as int]);
        }
        assert(spec_trim_front(value@) == value@.subrange(start as int, n as int));
    }

    let mut end: usize = n;
    while end > start && is_whitespace_char(s.get_char(end - 1))
        invariant
            start <= end <= n,
            spec_trim_back(value@.subrange(start as int, end as int)) == spec_trim(value@),
        decreases end,
    {
        proof {
            let cur = value@.subrange(start as int, end as int);
            assert(cur.last() == value@[end - 1]);
            assert(cur.drop_last() =~= value@.subrange(start as int, end as int - 1));
        }
        end = end - 1;
    }
    let ghost trimmed = value@.subrange(start as int, end as int);
    proof {
        if end == start {
            assert(trimmed.len() == 0);
        } else {
            assert(trimmed.last() == value@[end - 1]);
        }
        assert(spec_trim(value@) == trimmed);
        if start < end {
            assert(trimmed[0] == value@[start as int]);
        }
    }

    let mut body_start: usize = start;
    if start < end && s.get_char(start) == '+' {
        body_start = start + 1;
        proof {
            assert(trimmed[0] == value@[start as int]);
            assert(trimmed.drop_first() =~= value@.subrange(start as int + 1, end as int));
        }
    }
    let ghost body = value@.subrange(body_start as int, end as int);
    proof {
        assert(spec_number_body(value@) == body);
    }

    if body_start == end {
        // Empty after trimming and an optional sign: nothing to parse.
        return DEFAULT_REFRESH_MILLIS;
    }

    let mut acc: u64 = 0;
    let mut i: usize = body_start;
    while i < end
        invariant
            body_start <= i <= end,
            forall|k: int| body_start <= k < i ==> spec_is_digit(#[trigger] value@[k]),
            acc == spec_digits_value(value@.subrange(body_start as int, i as int)),
        decreases end - i,
    {
        let c: char = s.get_char(i);
        let u: u32 = c as u32;
        if u < 0x30 || u > 0x39 {
            // A non-digit makes the whole argument unparsable.
            proof {
                assert(body[i - body_start] == value@[i as int]);
                assert(!spec_all_digits(body));
            }
            return DEFAULT_REFRESH_MILLIS;
        }
        let d: u64 = (u - 0x30) as u64;
        proof {
            assert(value@.subrange(body_start as int, i as int + 1).drop_last() =~= value@.subrange(
                body_start as int,
                i as int,
            ));
            assert(value@.subrange(body_start as int, i as int + 1).last() == value@[i as int]);
            assert forall|k: int| 0 <= k < body.len() && k < i - body_start implies spec_is_digit(
                #[trigger] body[k],
            ) by {
                assert(body[k] == value@[body_start + k]);
            }
        }
        let next: u64 = match acc.checked_mul(10) {
            Option::Some(m) => match m.checked_add(d) {
                Option::Some(v) => v,
                Option::None => {
                    proof {
                        lemma_too_large(value@, body_start as int, end as int, i as int);
                    }
                    return DEFAULT_REFRESH_MILLIS;
                },
            },
            Option::None => {
                proof {
                    lemma_too_large(value@, body_start as int, end as int, i as int);
                }
                return DEFAULT_REFRESH_MILLIS;
            },
        };
        acc = next;
        i = i + 1;
    }
    proof {
        assert(value@.subrange(body_start as int, i as int) =~= body);
        assert(spec_valid_u64_digits(body));
    }
    acc
}

/// When some prefix of the digit run already exceeds the 64-bit range, the
/// whole argument is unparsable: either a later character is not a digit,
/// or the full number is larger still.
proof fn lemma_too_large(s: Seq<char>, bs: int, end: int, i: int)
    requires
        0 <= bs <= i < end <= s.len(),
        forall|k: int| bs <= k <= i ==> spec_is_digit(#[trigger] s[k]),
        spec_digits_value(s.subrange(bs, i + 1)) > u64::MAX,
        spec_number_body(s) == s.subrange(bs, end),
    ensures
        spec_parse_refresh(s) == DEFAULT_REFRESH_MILLIS,
{
    let body = s.subrange(bs, end);
    if spec_all_digits(body) {
        assert(body.subrange(0, i + 1 - bs) =~= s.subrange(bs, i + 1));
        lemma_digits_value_prefix_le(body, i + 1 - bs);
    }
}

/// The refresh interval of the whole process: the parsed first argument,
/// or the default when no argument was given at all.
pub fn read_refresh_rate(arg: Option<String>) -> (r: u64)
    ensures
        arg matches Option::Some(input) ==> r == spec_parse_refresh(input@),
        arg matches Option::None ==> r == DEFAULT_REFRESH_MILLIS,
{
    match arg {
        Option::Some(input) => parse_refresh_rate(input),
        Option::None => DEFAULT_REFRESH_MILLIS,
    }
}

} // verus!
