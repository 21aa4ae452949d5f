//! Decimal formatting of timestamps and the split of a presented credential
//! into its lookup prefix and the rest.
//!
//! A credential is `<prefix>.<token>`. The prefix is the decimal form of a
//! timestamp, so it contains no `.`; that is what lets the middleware
//! recover exactly the issued prefix by cutting the header value at its
//! first `.`.

use vstd::prelude::*;
use vstd::string::StrSliceExecFns;
use vstd::string::StringExecFns;

verus! {

/// The decimal digit character for `d`.
pub open spec fn dec_digit(d: int) -> char {
    if d == 0 {
        '0'
    } else if d == 1 {
        '1'
    } else if d == 2 {
        '2'
    } else if d == 3 {
        '3'
    } else if d == 4 {
        '4'
    } else if d == 5 {
        '5'
    } else if d == 6 {
        '6'
    } else if d == 7 {
        '7'
    } else if d == 8 {
        '8'
    } else {
        '9'
    }
}

/// The decimal form of `n`, most significant digit first, no leading zeros
/// (a single `'0'` for zero).
pub open spec fn dec_seq(n: nat) -> Seq<char>
    decreases n,
{
    if n < 10 {
        seq![dec_digit(n as int)]
    } else {
        dec_seq(n / 10).push(dec_digit((n % 10) as int))
    }
}

/// The decimal form of a signed value: a `'-'` before the digits when
/// negative.
pub open spec fn i64_dec_seq(n: int) -> Seq<char> {
    if n >= 0 {
        dec_seq(n as nat)
    } else {
        seq!['-'] + dec_seq((-n) as nat)
    }
}

/// No `.` occurs in `s`.
pub open spec fn dot_free(s: Seq<char>) -> bool {
    forall|i: int| 0 <= i < s.len() ==> s[i] != '.'
}

pub proof fn lemma_dec_seq_dot_free(n: nat)
    ensures
        dot_free(dec_seq(n)),
        dec_seq(n).len() >= 1,
    decreases n,
{
    if n < 10 {
    } else {
        lemma_dec_seq_dot_free(n / 10);
        assert forall|i: int| 0 <= i < dec_seq(n).len() implies dec_seq(n)[i] != '.' by {
            if i < dec_seq(n / 10).len() {
                assert(dec_seq(n)[i] == dec_seq(n / 10)[i]);
            }
        }
    }
}

pub proof fn lemma_i64_dec_seq_dot_free(n: int)
    ensures
        dot_free(i64_dec_seq(n)),
        i64_dec_seq(n).len() >= 1,
{
    if n >= 0 {
        lemma_dec_seq_dot_free(n as nat);
    } else {
        lemma_dec_seq_dot_free((-n) as nat);
        assert forall|i: int| 0 <= i < i64_dec_seq(n).len() implies i64_dec_seq(n)[i] != '.' by {
            if i >= 1 {
                assert(i64_dec_seq(n)[i] == dec_seq((-n) as nat)[i - 1]);
            }
        }
    }
}

/// A one-character string slice holding the digit `d`.
fn digit_str(d: u64) -> (r: &'static str)
    requires
        d < 10,
    ensures
        r@ == seq![dec_digit(d as int)],
{
    proof {
        reveal_strlit("0");
        reveal_strlit("1");
        reveal_strlit("2");
        reveal_strlit("3");
        reveal_strlit("4");
        reveal_strlit("5");
        reveal_strlit("6");
        reveal_strlit("7");
        reveal_strlit("8");
        reveal_strlit("9");
    }
    let r = if d == 0 {
        "0"
    } else if d == 1 {
        "1"
    } else if d == 2 {
        "2"
    } else if d == 3 {
        "3"
    } else if d == 4 {
        "4"
    } else if d == 5 {
        "5"
    } else if d == 6 {
        "6"
    } else if d == 7 {
        "7"
    } else if d == 8 {
        "8"
    } else {
        "9"
    };
    proof {
        assert(r@ =~= seq![dec_digit(d as int)]);
    }
    r
}

/// The decimal form of `n`, exactly `dec_seq(n)`.
pub fn u64_to_dec_string(n: u64) -> (r: String)
    ensures
        r@ == dec_seq(n as nat),
    decreases n,
{
    if n < 10 {
        digit_str(n).to_owned()
    } else {
        let mut s = u64_to_dec_string(n / 10);
        s.append(digit_str(n % 10));
        proof {
            assert(s@ =~= dec_seq((n / 10) as nat).push(dec_digit((n % 10) as int)));
        }
        s
    }
}

/// The decimal form of a signed value, exactly `i64_dec_seq(n)`.
pub fn i64_to_dec_string(n: i64) -> (r: String)
    ensures
        r@ == i64_dec_seq(n as int),
{
    if n >= 0 {
        u64_to_dec_string(n as u64)
    } else {
        let m: u64 = ((-(n + 1)) as u64) + 1;
        proof {
            assert(m as int == -(n as int));
        }
        let digits = u64_to_dec_string(m);
        let mut s = String::from_str("-");
        s.append(digits.as_str());
        proof {
            reveal_strlit("-");
            assert(s@ =~= seq!['-'] + dec_seq(m as nat));
        }
        s
    }
}

/// The part of `s` before its first `.`: all of `s` when it has none.
pub open spec fn prefix_of(s: Seq<char>) -> Seq<char>
    decreases s.len(),
{
    if s.len() == 0 {
        Seq::empty()
    } else if s[0] == '.' {
        Seq::empty()
    } else {
        seq![s[0]] + prefix_of(s.skip(1))
    }
}

/// `prefix_of` cuts exactly at the first `.`: if nothing before position `k`
/// is a `.` and position `k` is the end or a `.`, the prefix is `s[..k]`.
pub proof fn lemma_prefix_of_split(s: Seq<char>, k: int)
    requires
        0 <= k <= s.len(),
        forall|j: int| 0 <= j < k ==> s[j] != '.',
        k == s.len() || s[k] == '.',
    ensures
        prefix_of(s) == s.subrange(0, k),
    decreases s.len(),
{
    if k == 0 {
        assert(prefix_of(s) =~= s.subrange(0, 0));
    } else {
        let t = s.skip(1);
        assert forall|j: int| 0 <= j < k - 1 implies t[j] != '.' by {
            assert(t[j] == s[j + 1]);
        }
        assert(k - 1 == t.len() || t[k - 1] == '.');
        lemma_prefix_of_split(t, k - 1);
        assert(seq![s[0]] + t.subrange(0, k - 1) =~= s.subrange(0, k));
    }
}

/// Cutting `p + "." + rest` at the first `.` gives back `p`, whenever `p`
/// itself has no `.` in it.
pub proof fn lemma_prefix_of_credential(p: Seq<char>, rest: Seq<char>)
    requires
        dot_free(p),
    ensures
        prefix_of(p + seq!['.'] + rest) == p,
{
    let s = p + seq!['.'] + rest;
    assert forall|j: int| 0 <= j < p.len() implies s[j] != '.' by {
        assert(s[j] == p[j]);
    }
    assert(s[p.len() as int] == '.');
    lemma_prefix_of_split(s, p.len() as int);
    assert(s.subrange(0, p.len() as int) =~= p);
}

/// The presented header value up to (not including) its first `.`, the
/// cleartext half used to look a key up.
pub fn extract_prefix(s: &str) -> (p: String)
    ensures
        p@ == prefix_of(s@),
        dot_free(p@),
{
    let len = s.unicode_len();
    let mut i: usize = 0;
    let mut stop = false;
    while !stop
        invariant
            i <= s@.len(),
            len == s@.len(),
            forall|j: int| 0 <= j < i ==> s@[j] != '.',
            stop ==> (i == s@.len() || s@[i as int] == '.'),
        decreases s@.len() - i, (if stop { 0int } else { 1int }),
    {
        if i < len {
            let c = s.get_char(i);
            if c == '.' {
                stop = true;
            } else {
                i = i + 1;
            }
        } else {
            stop = true;
        }
    }
    let p = s.substring_char(0, i).to_owned();
    proof {
        lemma_prefix_of_split(s@, i as int);
    }
    p
}

/// The full plaintext credential: `prefix`, a `.`, then the random token.
pub fn make_credential(prefix: &String, token: &String) -> (r: String)
    ensures
        r@ == prefix@ + seq!['.'] + token@,
{
    let mut r = prefix.clone();
    r.append(".");
    r.append(token.as_str());
    proof {
        reveal_strlit(".");
        assert(r@ =~= prefix@ + seq!['.'] + token@);
    }
    r
}

} // verus!
