use vstd::prelude::*;

use crate::error::HackshellError;

verus! {

/// Whether `c` is a decimal digit.
pub open spec fn is_digit(c: char) -> bool {
    48 <= c as int && c as int <= 57
}

/// The value of a decimal digit.
pub open spec fn digit_val(c: char) -> int {
    c as int - 48
}

/// Whether every character of `s` is a decimal digit.
pub open spec fn all_digits(s: Seq<char>) -> bool {
    forall|i: int| 0 <= i < s.len() ==> is_digit(#[trigger] s[i])
}

/// The number a string of decimal digits denotes.
pub open spec fn digits_val(s: Seq<char>) -> int
    decreases s.len(),
{
    if s.len() == 0 {
        0
    } else {
        digits_val(s.drop_last()) * 10 + digit_val(s.last())
    }
}

/// The digits of a number string: everything after an optional leading
/// plus sign.
pub open spec fn numeric_body(s: Seq<char>) -> Seq<char> {
    if s.len() > 0 && s[0] == '+' {
        s.skip(1)
    } else {
        s
    }
}

/// The number of leading decimal digits of `s`.
pub open spec fn digit_prefix_len(s: Seq<char>) -> int
    decreases s.len(),
{
    if s.len() == 0 {
        0
    } else if !is_digit(s[0]) {
        0
    } else {
        1 + digit_prefix_len(s.skip(1))
    }
}

/// How a string parses as an unsigned 64-bit number, exactly as the
/// standard library does it: an optional leading plus sign, then decimal
/// digits, scanned left to right; the first fault found decides the error,
/// so a value that overflows before a stray character is reached reports
/// the overflow. The error messages are the standard library's.
pub open spec fn parse_spec(s: Seq<char>, r: Result<u64, HackshellError>) -> bool {
    let body = numeric_body(s);
    let p = digit_prefix_len(body);
    if s.len() == 0 {
        r matches Err(HackshellError::Message(m)) && m@
            == "cannot parse integer from empty string"@
    } else if body.len() == 0 {
        r matches Err(HackshellError::Message(m)) && m@ == "invalid digit found in string"@
    } else if digits_val(body.take(p)) > u64::MAX {
        r matches Err(HackshellError::Message(m)) && m@ == "number too large to fit in target type"@
    } else if p < body.len() {
        r matches Err(HackshellError::Message(m)) && m@ == "invalid digit found in string"@
    } else {
        r matches Ok(n) && n as int == digits_val(body)
    }
}

/// Where the leading digits of a string end: everything before is a
/// digit, and the next character, if any, is not.
proof fn lemma_digit_prefix(s: Seq<char>)
    ensures
        0 <= digit_prefix_len(s) <= s.len(),
        forall|i: int| 0 <= i < digit_prefix_len(s) ==> is_digit(#[trigger] s[i]),
        digit_prefix_len(s) < s.len() ==> !is_digit(s[digit_prefix_len(s)]),
    decreases s.len(),
{
    if s.len() > 0 && is_digit(s[0]) {
        let t = s.skip(1);
        lemma_digit_prefix(t);
        assert(digit_prefix_len(s) == 1 + digit_prefix_len(t));
        assert forall|i: int| 0 <= i < digit_prefix_len(s) implies is_digit(#[trigger] s[i]) by {
            if i > 0 {
                assert(t[i - 1] == s[i]);
                assert(is_digit(t[i - 1]));
            }
        }
        if digit_prefix_len(s) < s.len() {
            assert(s[digit_prefix_len(s)] == t[digit_prefix_len(t)]);
        }
    }
}

/// A digit string denotes at least as much as any of its prefixes.
proof fn lemma_digits_val_prefix(s: Seq<char>, k: int)
    requires
        all_digits(s),
        0 <= k <= s.len(),
    ensures
        digits_val(s.take(k)) >= 0,
        digits_val(s) >= digits_val(s.take(k)),
    decreases s.len(),
{
    if s.len() == 0 {
        assert(s.take(k) =~= s);
    } else if k == s.len() {
        assert(s.take(k) =~= s);
        lemma_digits_val_prefix(s.drop_last(), k - 1);
    } else {
        let d = s.drop_last();
        assert(all_digits(d)) by {
            assert(forall|i: int| 0 <= i < d.len() ==> #[trigger] d[i] == s[i]);
        }
        assert(d.take(k) =~= s.take(k));
        lemma_digits_val_prefix(d, k);
        assert(digits_val(s) == digits_val(d) * 10 + digit_val(s.last()));
        assert(digits_val(d) * 10 >= digits_val(d));
        assert(digit_val(s.last()) >= 0);
    }
}

/// Parse a decimal `u64` exactly as the standard library's `str::parse`
/// does; see [`parse_spec`].
pub fn parse_u64(s: &str) -> (r: Result<u64, HackshellError>)
    ensures
        parse_spec(s@, r),
{
    let len = s.unicode_len();
    if len == 0 {
        return Err(HackshellError::Message(
            String::from_str("cannot parse integer from empty string"),
        ));
    }
    let first = s.get_char(0);
    let start: usize = if first == '+' {
        1
    } else {
        0
    };
    proof {
        assert(numeric_body(s@) =~= s@.skip(start as int));
    }
    let ghost body = s@.skip(start as int);
    let ghost p = digit_prefix_len(body);
    proof {
        lemma_digit_prefix(body);
        assert(forall|j: int| 0 <= j < body.len() ==> #[trigger] body[j] == s@[j + start]);
    }
    if len == start {
        return Err(HackshellError::Message(String::from_str("invalid digit found in string")));
    }
    let mut acc: u64 = 0;
    let mut i: usize = start;
    while i < len
        invariant
            start <= i <= len,
            len == s@.len(),
            start < len,
            start == 0 || start == 1,
            body == s@.skip(start as int),
            body == numeric_body(s@),
            p == digit_prefix_len(body),
            i - start <= p,
            forall|j: int| 0 <= j < body.len() ==> #[trigger] body[j] == s@[j + start],
            acc as int == digits_val(body.take(i - start)),
        decreases len - i,
    {
        let c = s.get_char(i);
        let cv = c as u32;
        proof {
            lemma_digit_prefix(body);
            assert(body[i - start] == c);
        }
        if cv < 48 || cv > 57 {
            proof {
                assert(!is_digit(body[i - start]));
                assert(p <= i - start) by {
                    if p > i - start {
                        assert(is_digit(body[i - start]));
                    }
                }
                assert(p == i - start);
                assert(digits_val(body.take(p)) <= u64::MAX);
                assert(p < body.len());
            }
            return Err(HackshellError::Message(String::from_str("invalid digit found in string")));
        }
        proof {
            assert(is_digit(body[i - start]));
            assert(i - start < p) by {
                if p <= i - start {
                    assert(p < body.len());
                    assert(!is_digit(body[p]));
                    assert(p == i - start);
                }
            }
        }
        let d: u64 = (cv - 48) as u64;
        let stepped = match acc.checked_mul(10) {
            Some(x) => x.checked_add(d),
            None => None,
        };
        proof {
            let t = body.take(i - start + 1);
            assert(t.drop_last() =~= body.take(i - start));
            assert(t.last() == body[i - start]);
            assert(d as int == digit_val(body[i - start]));
        }
        match stepped {
            Some(x) => {
                acc = x;
            },
            None => {
                proof {
                    assert(digits_val(body.take(i - start + 1)) > u64::MAX);
                    let pre = body.take(p);
                    assert(all_digits(pre)) by {
                        assert(forall|j: int|
                            0 <= j < pre.len() ==> #[trigger] pre[j] == body[j]);
                    }
                    lemma_digits_val_prefix(pre, i - start + 1);
                    assert(pre.take(i - start + 1) =~= body.take(i - start + 1));
                    assert(digits_val(body.take(p)) > u64::MAX);
                }
                return Err(HackshellError::Message(
                    String::from_str("number too large to fit in target type"),
                ));
            },
        }
        i = i + 1;
    }
    proof {
        assert(p == len - start) by {
            lemma_digit_prefix(body);
        }
        assert(body.take(p) =~= body);
    }
    Ok(acc)
}

/// Sleeps for a number of seconds.
pub struct Sleep {}

impl Sleep {
    /// The words that invoke this command.
    pub fn commands(&self) -> (r: Vec<&'static str>)
        ensures
            r@.len() == 1,
            r@[0]@ == "sleep"@,
    {
        let mut v: Vec<&'static str> = Vec::new();
        v.push("sleep");
        v
    }

    /// What this command does.
    pub fn help(&self) -> (r: &'static str)
        ensures
            r@ == "Sleeps for a specific amount of time. Syntax: sleep <seconds>"@,
    {
        "Sleeps for a specific amount of time. Syntax: sleep <seconds>"
    }

    /// The command's decision: with exactly one argument that parses as a
    /// number, the seconds to sleep (the sleeping itself is the embedding
    /// front-end's to perform); otherwise the matching error.
    pub fn run(&self, cmd: &Vec<String>) -> (r: Result<u64, HackshellError>)
        ensures
            cmd@.len() != 2 ==> (r matches Err(HackshellError::Message(m)) && m@
                == "Invalid number of arguments"@),
            cmd@.len() == 2 ==> parse_spec(cmd@[1]@, r),
    {
        if cmd.len() != 2 {
            return Err(HackshellError::Message(String::from_str("Invalid number of arguments")));
        }
        parse_u64(cmd[1].as_str())
    }
}

} // verus!
