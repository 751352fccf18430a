use vstd::prelude::*;

verus! {

/// True iff `c` is a decimal digit.
pub open spec fn is_digit(c: char) -> bool {
    '0' <= c && c <= '9'
}

/// The numeric value of one digit character.
pub open spec fn digit_val(c: char) -> int {
    c as int - '0' as int
}

/// The value of a digit string, most significant digit first.
pub open spec fn digits_value(s: Seq<char>) -> int
    decreases s.len(),
{
    if s.len() == 0 {
        0
    } else {
        digits_value(s.drop_last()) * 10 + digit_val(s.last())
    }
}

/// True iff every character of `s` is a decimal digit.
pub open spec fn all_digits(s: Seq<char>) -> bool {
    forall|i: int| 0 <= i < s.len() ==> is_digit(#[trigger] s[i])
}

/// The signed 64-bit integer a token denotes: an optional leading `-`, then
/// at least one digit, with a value in the 64-bit range. `None` for any
/// malformed token.
pub open spec fn parse_token(s: Seq<char>) -> Option<i64> {
    if s.len() > 0 && s[0] == '-' {
        let d = s.subrange(1, s.len() as int);
        if d.len() > 0 && all_digits(d) && -digits_value(d) >= i64::MIN {
            Some((-digits_value(d)) as i64)
        } else {
            None
        }
    } else {
        if s.len() > 0 && all_digits(s) && digits_value(s) <= i64::MAX {
            Some(digits_value(s) as i64)
        } else {
            None
        }
    }
}

/// The index of the first comma at or after `i`, or the length if none.
pub open spec fn token_end(s: Seq<char>, i: int) -> int
    decreases s.len() - i
        when 0 <= i <= s.len()
{
    if i >= s.len() {
        s.len() as int
    } else if s[i] == ',' {
        i
    } else {
        token_end(s, i + 1)
    }
}

/// `token_end` never moves backwards and never leaves the string.
pub proof fn lemma_token_end_bounds(s: Seq<char>, i: int)
    requires
        0 <= i <= s.len(),
    ensures
        i <= token_end(s, i) <= s.len(),
    decreases s.len() - i,
{
    if i < s.len() && s[i] != ',' {
        lemma_token_end_bounds(s, i + 1);
    }
}

/// The integers denoted by the comma-separated tokens of `s` from position
/// `i` on, or `None` if any token is malformed. The empty string is one empty
/// (malformed) token, as is each empty stretch between two commas.
pub open spec fn parse_from(s: Seq<char>, i: int) -> Option<Seq<i64>>
    decreases s.len() - i
        when 0 <= i <= s.len()
        via parse_from_decreases
{
    let e = token_end(s, i);
    match parse_token(s.subrange(i, e)) {
        None => None,
        Some(v) => {
            if e == s.len() {
                Some(seq![v])
            } else {
                match parse_from(s, e + 1) {
                    None => None,
                    Some(rest) => Some(seq![v] + rest),
                }
            }
        },
    }
}

#[via_fn]
proof fn parse_from_decreases(s: Seq<char>, i: int) {
    lemma_token_end_bounds(s, i);
}

/// What a whole program text denotes: the comma-separated signed base-10
/// integers of `s`, or `None` if any token is malformed.
pub open spec fn parse_program(s: Seq<char>) -> Option<Seq<i64>> {
    parse_from(s, 0)
}

/// A string of digits denotes a non-negative value.
proof fn lemma_digits_value_nonneg(s: Seq<char>)
    requires
        all_digits(s),
    ensures
        digits_value(s) >= 0,
    decreases s.len(),
{
    if s.len() > 0 {
        assert(all_digits(s.drop_last())) by {
            assert(forall|i: int|
                0 <= i < s.len() - 1 ==> #[trigger] s.drop_last()[i] == s[i]);
        }
        lemma_digits_value_nonneg(s.drop_last());
        assert(is_digit(s.last()));
    }
}

/// Dropping digits from the tail never increases the value: the value of a
/// prefix bounds the value of the whole digit string from below.
proof fn lemma_digits_value_prefix(s: Seq<char>, k: int)
    requires
        all_digits(s),
        0 <= k <= s.len(),
    ensures
        digits_value(s.subrange(0, k)) <= digits_value(s),
    decreases s.len(),
{
    if k == s.len() {
        assert(s.subrange(0, k) =~= s);
    } else {
        assert(all_digits(s.drop_last())) by {
            assert(forall|i: int|
                0 <= i < s.len() - 1 ==> #[trigger] s.drop_last()[i] == s[i]);
        }
        assert(s.subrange(0, k) =~= s.drop_last().subrange(0, k));
        lemma_digits_value_prefix(s.drop_last(), k);
        lemma_digits_value_nonneg(s.drop_last());
        assert(is_digit(s.last()));
    }
}

/// A program image: the comma-separated integers of the textual form, as the
/// memory array an execution starts from.
#[derive(Debug, Clone)]
pub struct IntCodeProgram {
    pub program: Vec<i64>,
}

impl IntCodeProgram {
    /// Loads a program from its textual form: comma-separated base-10 signed
    /// integers, each an optional leading `-` followed by at least one digit.
    /// Any malformed token (empty, a stray character, a value outside the
    /// signed 64-bit range) fails the whole load.
    #[verifier::loop_isolation(false)]
    pub fn from_string(input: String) -> (r: Option<IntCodeProgram>)
        ensures
            (match r {
                Some(p) => parse_program(input@) == Some(p.program@),
                None => parse_program(input@) is None,
            }),
    {
        let s = input.as_str();
        let len = s.unicode_len();
        let mut program: Vec<i64> = Vec::new();
        let mut i: usize = 0;
        proof {
            match parse_from(input@, 0) {
                Some(rest) => {
                    assert(program@ + rest =~= rest);
                },
                None => {},
            }
        }
        loop
            invariant
                i <= len,
                len == input@.len(),
                s@ == input@,
                (match parse_from(input@, i as int) {
                    Some(rest) => parse_program(input@) == Some(program@ + rest),
                    None => parse_program(input@) is None,
                }),
            decreases len - i,
        {
            // Find the end of the token that starts at `i`.
            let mut e: usize = i;
            loop
                invariant
                    i <= e <= len,
                    token_end(input@, i as int) == token_end(input@, e as int),
                decreases len - e,
            {
                if e == len {
                    break ;
                }
                let c = s.get_char(e);
                if c == ',' {
                    break ;
                }
                e += 1;
            }
            proof {
                assert(token_end(input@, i as int) == e as int);
            }
            // Parse the token at [i, e): an optional sign, then digits.
            let ghost token = input@.subrange(i as int, e as int);
            let tok_is_neg = i < e && s.get_char(i) == '-';
            let digits_start: usize = if tok_is_neg {
                i + 1
            } else {
                i
            };
            let ghost digits = input@.subrange(digits_start as int, e as int);
            proof {
                if tok_is_neg {
                    assert(digits =~= token.subrange(1, token.len() as int));
                } else {
                    assert(digits =~= token);
                }
            }
            if digits_start == e {
                // No digits at all: the token is empty or a bare sign.
                proof {
                    assert(parse_token(token) is None);
                }
                return None;
            }
            let mut m: u128 = 0;
            let mut j: usize = digits_start;
            while j < e
                invariant
                    digits_start <= j <= e,
                    all_digits(input@.subrange(digits_start as int, j as int)),
                    m == digits_value(input@.subrange(digits_start as int, j as int)),
                    m <= 0x8000000000000000u128,
                decreases e - j,
            {
                let c = s.get_char(j);
                let cu = c as u32;
                let ghost prefix = input@.subrange(digits_start as int, j as int);
                let ghost prefix2 = input@.subrange(digits_start as int, j + 1 as int);
                proof {
                    assert(prefix2 =~= prefix.push(input@[j as int]));
                }
                if cu < 48 || cu > 57 {
                    // A non-digit inside the digit part: the token is
                    // malformed whatever follows it.
                    proof {
                        assert(digits[j - digits_start] == input@[j as int]);
                        assert(!is_digit(digits[j - digits_start]));
                        assert(!all_digits(digits));
                        assert(parse_token(token) is None);
                    }
                    return None;
                }
                let d = cu - 48;
                proof {
                    assert(is_digit(input@[j as int]));
                    assert(digit_val(input@[j as int]) == d as int);
                    assert(prefix2.drop_last() =~= prefix);
                }
                m = m * 10 + (d as u128);
                if m > 0x8000000000000000u128 {
                    // The magnitude already exceeds the 64-bit range; more
                    // digits can only grow it, and a stray character later
                    // makes the token malformed anyway.
                    proof {
                        if all_digits(digits) {
                            lemma_digits_value_prefix(digits, j + 1 - digits_start);
                            assert(digits.subrange(0, j + 1 - digits_start) =~= prefix2);
                            assert(digits_value(digits) > 0x8000000000000000);
                        }
                        assert(parse_token(token) is None);
                    }
                    return None;
                }
                j += 1;
            }
            proof {
                assert(input@.subrange(digits_start as int, j as int) =~= digits);
            }
            // The digit part is exhausted: fix the sign and range.
            let value: i64;
            if tok_is_neg {
                if m == 0x8000000000000000u128 {
                    value = i64::MIN;
                } else {
                    value = -(m as i64);
                }
            } else {
                if m >= 0x8000000000000000u128 {
                    proof {
                        assert(parse_token(token) is None);
                    }
                    return None;
                }
                value = m as i64;
            }
            proof {
                assert(parse_token(token) == Some(value));
            }
            let ghost old_program = program@;
            program.push(value);
            if e == len {
                proof {
                    assert(parse_from(input@, i as int) == Some(seq![value]));
                    assert(old_program + seq![value] =~= program@);
                }
                return Some(IntCodeProgram { program });
            }
            proof {
                lemma_token_end_bounds(input@, i as int);
                match parse_from(input@, e + 1) {
                    Some(rest) => {
                        assert(parse_from(input@, i as int) == Some(seq![value] + rest));
                        assert(old_program + (seq![value] + rest) =~= program@ + rest);
                    },
                    None => {
                        assert(parse_from(input@, i as int) is None);
                    },
                }
            }
            i = e + 1;
        }
    }
}

} // verus!
