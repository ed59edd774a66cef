//! Command-line interpretation: a `--threads`/`-t` flag with a positive
//! decimal value, and an optional positional target directory.  A value
//! that does not parse silently keeps the previous thread count, and a
//! requested count of zero is coerced to one.

use vstd::prelude::*;

verus! {

/// Whether `c` is an ASCII decimal digit.
pub open spec fn is_digit_char(c: char) -> bool {
    0x30 <= c as u32 && c as u32 <= 0x39
}

/// The numeric value of the digit `c`.
pub open spec fn spec_digit_val(c: char) -> nat {
    (c as u32 - 0x30) as nat
}

/// The numeric value of the digit string `s`.
pub open spec fn spec_digits_val(s: Seq<char>) -> nat
    decreases s.len(),
{
    if s.len() == 0 {
        0
    } else {
        spec_digits_val(s.drop_last()) * 10 + spec_digit_val(s.last())
    }
}

/// Whether every character of `s` is a digit.
pub open spec fn all_digits(s: Seq<char>) -> bool {
    forall|i: int| 0 <= i < s.len() ==> is_digit_char(#[trigger] s[i])
}

/// The digit body of a decimal literal: an optional leading `'+'`
/// stripped.
pub open spec fn spec_num_body(s: Seq<char>) -> Seq<char> {
    if s.len() > 0 && s[0] == '+' {
        s.drop_first()
    } else {
        s
    }
}

/// How a string parses as a `usize`: `Some` of its value exactly when the
/// body is non-empty, all digits, and the value fits.
pub open spec fn spec_parse_usize(s: Seq<char>) -> Option<usize> {
    let body = spec_num_body(s);
    if body.len() > 0 && all_digits(body) && spec_digits_val(body) <= usize::MAX {
        Some(spec_digits_val(body) as usize)
    } else {
        None
    }
}

/// A longer digit string never has a smaller value: dropping trailing
/// digits cannot increase it.
proof fn lemma_digits_val_prefix(s: Seq<char>, k: int)
    requires
        0 <= k <= s.len(),
    ensures
        spec_digits_val(s) >= spec_digits_val(s.take(k)),
    decreases s.len(),
{
    if k < s.len() {
        assert(s.drop_last().take(k) =~= s.take(k));
        lemma_digits_val_prefix(s.drop_last(), k);
        assert(spec_digits_val(s.drop_last()) * 10 >= spec_digits_val(s.drop_last()));
    } else {
        assert(s.take(k) =~= s);
    }
}

/// Parses a decimal `usize`: an optional leading `'+'`, then one or more
/// digits; rejected when any other character appears or the value does not
/// fit.
#[verifier::loop_isolation(false)]
pub fn parse_usize(s: &str) -> (r: Option<usize>)
    ensures
        r == spec_parse_usize(s@),
{
    let n = s.unicode_len();
    let start: usize = if n >= 1 && s.get_char(0) == '+' {
        1
    } else {
        0
    };
    let ghost body = spec_num_body(s@);
    proof {
        assert(body =~= s@.subrange(start as int, n as int));
    }
    if n == start {
        return None;
    }
    let mut acc: usize = 0;
    let mut i: usize = start;
    while i < n
        invariant
            start <= i <= n,
            acc == spec_digits_val(s@.subrange(start as int, i as int)),
            all_digits(s@.subrange(start as int, i as int)),
        decreases n - i,
    {
        proof {
            assert(s@.subrange(start as int, i + 1).drop_last() =~= s@.subrange(
                start as int,
                i as int,
            ));
            assert(s@.subrange(start as int, i + 1).last() == s@[i as int]);
        }
        let c = s.get_char(i);
        let u = c as u32;
        if !(0x30 <= u && u <= 0x39) {
            proof {
                assert(body[i - start] == s@[i as int]);
                assert(!all_digits(body));
            }
            return None;
        }
        let d = (u - 0x30) as usize;
        let shifted = match acc.checked_mul(10) {
            Some(v) => v,
            None => {
                proof {
                    lemma_digits_val_prefix(body, i + 1 - start);
                    assert(body.take(i + 1 - start) =~= s@.subrange(start as int, i + 1));
                }
                return None;
            },
        };
        let total = match shifted.checked_add(d) {
            Some(v) => v,
            None => {
                proof {
                    lemma_digits_val_prefix(body, i + 1 - start);
                    assert(body.take(i + 1 - start) =~= s@.subrange(start as int, i + 1));
                }
                return None;
            },
        };
        acc = total;
        i += 1;
    }
    proof {
        assert(s@.subrange(start as int, n as int) =~= body);
    }
    Some(acc)
}

/// How the argument list reads, scanning from position `i` with the
/// current thread count and directory: `--threads`/`-t` followed by a
/// value updates the count when the value parses and is skipped with its
/// value either way; any other argument becomes the directory; at the end
/// a count of zero is coerced to one.
pub open spec fn spec_args_result(args: Seq<Seq<char>>, i: int, threads: nat, dir: Seq<char>) -> (
    nat,
    Seq<char>,
)
    decreases args.len() - i,
    when 0 <= i <= args.len()
{
    if i >= args.len() {
        (
            if threads == 0 {
                1nat
            } else {
                threads
            },
            dir,
        )
    } else if args[i] == "--threads"@ || args[i] == "-t"@ {
        if i + 1 < args.len() {
            match spec_parse_usize(args[i + 1]) {
                Some(n) => spec_args_result(args, i + 2, n as nat, dir),
                None => spec_args_result(args, i + 2, threads, dir),
            }
        } else {
            spec_args_result(args, i + 1, threads, dir)
        }
    } else {
        spec_args_result(args, i + 1, threads, args[i])
    }
}

/// Whether two strings hold the same characters.
fn str_eq(a: &str, b: &str) -> (r: bool)
    ensures
        r == (a@ == b@),
{
    let n = a.unicode_len();
    if n != b.unicode_len() {
        return false;
    }
    let mut i: usize = 0;
    while i < n
        invariant
            i <= n,
            n == a@.len(),
            n == b@.len(),
            forall|j: int| 0 <= j < i ==> a@[j] == b@[j],
        decreases n - i,
    {
        if a.get_char(i) != b.get_char(i) {
            return false;
        }
        i += 1;
    }
    proof {
        assert(a@ =~= b@);
    }
    true
}

/// Interprets the arguments that follow the program name: the returned
/// pair is the worker count — at least one — and the target directory,
/// starting from the defaults of four workers and `./books`.
#[verifier::loop_isolation(false)]
pub fn parse_args(args: &Vec<String>) -> (r: (usize, String))
    ensures
        (r.0 as nat, r.1@) == spec_args_result(args.deep_view(), 0, 4, "./books"@),
        r.0 >= 1,
{
    let ghost a = args.deep_view();
    let mut threads: usize = 4;
    let mut dir: String = String::from_str("./books");
    let mut i: usize = 0;
    while i < args.len()
        invariant
            i <= args.len(),
            spec_args_result(a, i as int, threads as nat, dir@) == spec_args_result(
                a,
                0,
                4,
                "./books"@,
            ),
        decreases args.len() - i,
    {
        let arg = &args[i];
        if str_eq(arg.as_str(), "--threads") || str_eq(arg.as_str(), "-t") {
            if i + 1 < args.len() {
                match parse_usize(args[i + 1].as_str()) {
                    Some(n) => {
                        threads = n;
                    },
                    None => {},
                }
                i += 2;
            } else {
                i += 1;
            }
        } else {
            dir = arg.clone();
            i += 1;
        }
    }
    if threads == 0 {
        threads = 1;
    }
    (threads, dir)
}

} // verus!
