//! Canonical text encoding of token headers, claims and values.
//!
//! Each segment of a token carries one header or claims record in a
//! deterministic, self-delimiting text form: strings are length-prefixed,
//! integers are decimal with a terminator, arrays and objects carry their
//! element count.  The decoder inverts the encoder exactly.

use vstd::prelude::*;

verus! {

use crate::value::{
    ClaimEntry, ClaimValue, ValueV, entries_v, lemma_arr_unbounded, lemma_entries_v, lemma_list_v,
    lemma_obj_unbounded, list_v, v_bounded,
};

// ---------------------------------------------------------------------------
// Decimal numbers
// ---------------------------------------------------------------------------
/// True iff the character is a decimal digit.
pub open spec fn is_digit(c: char) -> bool {
    '0' <= c && c <= '9'
}

/// The digit character for `d` (`d < 10`).
pub open spec fn digit_char(d: nat) -> char {
    ((d + 0x30) as u8) as char
}

/// The numeric value of a digit character.
pub open spec fn digit_val(c: char) -> nat {
    (c as nat - 0x30) as nat
}

/// The decimal form of `n`: most significant digit first, no leading zeros.
pub open spec fn dec_of(n: nat) -> Seq<char>
    decreases n,
{
    if n < 10 {
        seq![digit_char(n)]
    } else {
        dec_of(n / 10).push(digit_char(n % 10))
    }
}

/// True iff every character of the sequence is a digit.
pub open spec fn all_digits(s: Seq<char>) -> bool {
    forall|i: int| 0 <= i < s.len() ==> is_digit(#[trigger] s[i])
}

/// The value of a digit sequence read as a decimal number.
pub open spec fn digits_val(s: Seq<char>) -> nat
    decreases s.len(),
{
    if s.len() == 0 {
        0
    } else {
        digits_val(s.drop_last()) * 10 + digit_val(s.last())
    }
}

/// The decimal form of `n` is a nonempty digit string whose value is `n`.
pub proof fn lemma_dec_of(n: nat)
    ensures
        dec_of(n).len() >= 1,
        all_digits(dec_of(n)),
        digits_val(dec_of(n)) == n,
    decreases n,
{
    if n < 10 {
        lemma_digit_char(n);
        assert(dec_of(n) == seq![digit_char(n)]);
        assert(dec_of(n).drop_last() =~= Seq::<char>::empty());
        assert(dec_of(n).last() == digit_char(n));
        assert(digits_val(dec_of(n)) == digits_val(dec_of(n).drop_last()) * 10 + digit_val(
            dec_of(n).last(),
        ));
        assert(digits_val(Seq::<char>::empty()) == 0);
    } else {
        lemma_dec_of(n / 10);
        let s = dec_of(n / 10);
        assert(dec_of(n) == s.push(digit_char(n % 10)));
        assert(dec_of(n).drop_last() =~= s);
        assert(is_digit(digit_char(n % 10)) && digit_val(digit_char(n % 10)) == n % 10) by {
            lemma_digit_char(n % 10);
        }
        assert(digits_val(dec_of(n)) == digits_val(s) * 10 + (n % 10));
        assert(forall|i: int|
            0 <= i < dec_of(n).len() ==> is_digit(#[trigger] dec_of(n)[i]));
    }
}

/// A digit character is a digit with the expected value.
pub proof fn lemma_digit_char(d: nat)
    requires
        d < 10,
    ensures
        is_digit(digit_char(d)),
        digit_val(digit_char(d)) == d,
{
    assert(digit_char(d) as int == 0x30 + d);
}

/// Converts a digit value to its character.
pub fn digit_to_char(d: u64) -> (c: char)
    requires
        d < 10,
    ensures
        c == digit_char(d as nat),
        is_digit(c),
{
    proof {
        lemma_digit_char(d as nat);
    }
    (d as u8 + 0x30) as char
}

/// The numeric value of a digit character.
pub fn char_to_digit(c: char) -> (d: u64)
    requires
        is_digit(c),
    ensures
        d == digit_val(c),
        d < 10,
{
    (c as u64) - 0x30
}

/// True iff the character is a decimal digit.
pub fn is_digit_char(c: char) -> (r: bool)
    ensures
        r == is_digit(c),
{
    '0' <= c && c <= '9'
}

/// Appends the decimal form of `n`.
pub fn push_dec_u64(n: u64, out: &mut Vec<char>)
    ensures
        final(out)@ == old(out)@ + dec_of(n as nat),
    decreases n,
{
    if n < 10 {
        out.push(digit_to_char(n));
        proof {
            assert(out@ =~= old(out)@ + dec_of(n as nat));
        }
    } else {
        push_dec_u64(n / 10, out);
        out.push(digit_to_char(n % 10));
        proof {
            assert(out@ =~= old(out)@ + dec_of(n as nat));
        }
    }
}

// ---------------------------------------------------------------------------
// Parsing decimal numbers
// ---------------------------------------------------------------------------
/// The end of the run of digits starting at `pos`.
pub open spec fn digit_run_end(s: Seq<char>, pos: int) -> int
    decreases s.len() - pos,
{
    if pos < s.len() && is_digit(s[pos]) {
        digit_run_end(s, pos + 1)
    } else {
        pos
    }
}

/// Reads a decimal number at `pos`: its value and the position after it.
pub open spec fn sp_num(s: Seq<char>, pos: int) -> Option<(nat, int)> {
    if 0 <= pos < s.len() && is_digit(s[pos]) {
        Some((digits_val(s.subrange(pos, digit_run_end(s, pos))), digit_run_end(s, pos)))
    } else {
        None
    }
}

/// The digit run stays within the sequence and does not move backwards.
pub proof fn lemma_run_end_bounds(s: Seq<char>, pos: int)
    requires
        0 <= pos <= s.len(),
    ensures
        pos <= digit_run_end(s, pos) <= s.len(),
    decreases s.len() - pos,
{
    if pos < s.len() && is_digit(s[pos]) {
        lemma_run_end_bounds(s, pos + 1);
    }
}

/// A stretch of `k` digits followed by a non-digit (or the end) is exactly
/// the digit run.
pub proof fn lemma_run_end_of(s: Seq<char>, pos: int, k: int)
    requires
        0 <= pos,
        0 <= k,
        pos + k <= s.len(),
        forall|i: int| pos <= i < pos + k ==> is_digit(#[trigger] s[i]),
        pos + k == s.len() || !is_digit(s[pos + k]),
    ensures
        digit_run_end(s, pos) == pos + k,
    decreases k,
{
    if k == 0 {
    } else {
        assert(is_digit(s[pos]));
        lemma_run_end_of(s, pos + 1, k - 1);
    }
}

/// Appending digits to a digit string can only grow its value.
pub proof fn lemma_digits_val_prefix(s: Seq<char>, t: Seq<char>)
    requires
        s.len() <= t.len(),
        forall|i: int| 0 <= i < s.len() ==> s[i] == (#[trigger] t[i]),
    ensures
        digits_val(t) >= digits_val(s),
    decreases t.len(),
{
    if t.len() > s.len() {
        lemma_digits_val_prefix(s, t.drop_last());
        assert(digits_val(t) == digits_val(t.drop_last()) * 10 + digit_val(t.last()));
        assert(digits_val(t.drop_last()) * 10 >= digits_val(t.drop_last()));
    } else {
        assert(s =~= t);
    }
}

/// The decimal form of a number, placed before an uncontinuable tail,
/// parses back to that number.
pub proof fn lemma_num_rt(s: Seq<char>, pos: int, n: nat)
    requires
        0 <= pos,
        pos + dec_of(n).len() <= s.len(),
        forall|i: int|
            0 <= i < dec_of(n).len() ==> s[pos + i] == (#[trigger] dec_of(n)[i]),
        pos + dec_of(n).len() == s.len() || !is_digit(s[pos + dec_of(n).len()]),
    ensures
        sp_num(s, pos) == Some((n, pos + dec_of(n).len())),
{
    lemma_dec_of(n);
    let k = dec_of(n).len() as int;
    assert forall|i: int| pos <= i < pos + k implies is_digit(#[trigger] s[i]) by {
        assert(s[pos + (i - pos)] == dec_of(n)[i - pos]);
        assert(is_digit(dec_of(n)[i - pos]));
    }
    lemma_run_end_of(s, pos, k);
    assert(s.subrange(pos, pos + k) =~= dec_of(n));
    assert(is_digit(s[pos]));
}

/// Reads a decimal number; fails when there is none or it does not fit.
pub fn parse_num(s: &Vec<char>, pos: usize) -> (r: Option<(u64, usize)>)
    ensures
        match r {
            Some((v, e)) => sp_num(s@, pos as int) == Some((v as nat, e as int)),
            None => sp_num(s@, pos as int) is None || sp_num(s@, pos as int)->Some_0.0
                > u64::MAX,
        },
{
    let n = s.len();
    if pos >= n || !is_digit_char(s[pos]) {
        return None;
    }
    let ghost run_end = digit_run_end(s@, pos as int);
    proof {
        lemma_run_end_bounds(s@, pos as int);
    }
    let mut i: usize = pos;
    let mut acc: u64 = 0;
    while i < n && is_digit_char(s[i])
        invariant
            pos <= i <= n,
            n == s@.len(),
            run_end == digit_run_end(s@, pos as int),
            digit_run_end(s@, i as int) == run_end,
            i <= run_end <= n,
            forall|j: int| pos <= j < i ==> is_digit(#[trigger] s@[j]),
            acc == digits_val(s@.subrange(pos as int, i as int)),
        decreases n - i,
    {
        let d = char_to_digit(s[i]);
        if acc > (u64::MAX - d) / 10 {
            proof {
                let run = s@.subrange(pos as int, run_end);
                let ext = s@.subrange(pos as int, i as int + 1);
                assert(ext.drop_last() =~= s@.subrange(pos as int, i as int));
                assert(digits_val(ext) == acc * 10 + d);
                assert(acc * 10 + d > u64::MAX) by (nonlinear_arith)
                    requires
                        acc > (u64::MAX - d) / 10,
                        d < 10,
                ;
                assert(digit_run_end(s@, i as int) == digit_run_end(s@, i as int + 1));
                lemma_run_end_bounds(s@, i as int + 1);
                assert(i as int + 1 <= run_end);
                lemma_digits_val_prefix(ext, run);
                assert(digits_val(run) > u64::MAX);
            }
            return None;
        }
        proof {
            let ext = s@.subrange(pos as int, i as int + 1);
            assert(ext.drop_last() =~= s@.subrange(pos as int, i as int));
            assert(digits_val(ext) == acc * 10 + d);
            assert(acc * 10 + d <= u64::MAX) by (nonlinear_arith)
                requires
                    acc <= (u64::MAX - d) / 10,
                    d < 10,
            ;
        }
        acc = acc * 10 + d;
        proof {
            assert(digit_run_end(s@, i as int) == digit_run_end(s@, i as int + 1));
            lemma_run_end_bounds(s@, i as int + 1);
        }
        i += 1;
    }
    proof {
        assert(digit_run_end(s@, i as int) == i as int);
        assert(i as int == run_end);
    }
    Some((acc, i))
}

// ---------------------------------------------------------------------------
// Locating an encoding inside a larger sequence
// ---------------------------------------------------------------------------
/// True iff `t` occurs in `s` starting at `pos`.
pub open spec fn seq_at(s: Seq<char>, pos: int, t: Seq<char>) -> bool {
    &&& 0 <= pos
    &&& pos + t.len() <= s.len()
    &&& forall|i: int| 0 <= i < t.len() ==> s[pos + i] == (#[trigger] t[i])
}

/// An occurrence of `a + b` is an occurrence of `a` followed by one of `b`.
pub proof fn lemma_seq_at_split(s: Seq<char>, pos: int, a: Seq<char>, b: Seq<char>)
    requires
        seq_at(s, pos, a + b),
    ensures
        seq_at(s, pos, a),
        seq_at(s, pos + a.len(), b),
{
    assert forall|i: int| 0 <= i < a.len() implies s[pos + i] == (#[trigger] a[i]) by {
        assert(s[pos + i] == (a + b)[i]);
    }
    assert forall|i: int| 0 <= i < b.len() implies s[pos + a.len() + i] == (#[trigger] b[i]) by {
        assert(s[pos + a.len() + i] == (a + b)[a.len() + i]);
    }
}

/// An occurrence of a one-character sequence pins that character down.
pub proof fn lemma_seq_at_char(s: Seq<char>, pos: int, c: char)
    requires
        seq_at(s, pos, seq![c]),
    ensures
        0 <= pos < s.len(),
        s[pos] == c,
{
    assert(s[pos + 0] == seq![c][0]);
}

/// An occurrence of a whole-sequence encoding equals the subrange it covers.
pub proof fn lemma_seq_at_subrange(s: Seq<char>, pos: int, t: Seq<char>)
    requires
        seq_at(s, pos, t),
    ensures
        s.subrange(pos, pos + t.len()) == t,
{
    assert(s.subrange(pos, pos + t.len()) =~= t);
}

// ---------------------------------------------------------------------------
// Strings
// ---------------------------------------------------------------------------
/// The encoding of a string: `s`, the character count, `:`, the characters.
pub open spec fn enc_str_v(x: Seq<char>) -> Seq<char> {
    seq!['s'] + dec_of(x.len()) + seq![':'] + x
}

/// Reads a string at `pos`: its characters and the position after them.
pub open spec fn sp_str(s: Seq<char>, pos: int) -> Option<(Seq<char>, int)> {
    if 0 <= pos < s.len() && s[pos] == 's' {
        match sp_num(s, pos + 1) {
            Some((n, e)) => {
                if e < s.len() && s[e] == ':' && e + 1 + n <= s.len() {
                    Some((s.subrange(e + 1, e + 1 + n), e + 1 + n))
                } else {
                    None
                }
            },
            None => None,
        }
    } else {
        None
    }
}

/// An encoded string parses back to itself.
pub proof fn lemma_str_rt(s: Seq<char>, pos: int, x: Seq<char>)
    requires
        seq_at(s, pos, enc_str_v(x)),
    ensures
        sp_str(s, pos) == Some((x, pos + enc_str_v(x).len())),
{
    let d = dec_of(x.len());
    lemma_dec_of(x.len());
    lemma_seq_at_split(s, pos, seq!['s'] + d + seq![':'], x);
    lemma_seq_at_split(s, pos, seq!['s'] + d, seq![':']);
    lemma_seq_at_split(s, pos, seq!['s'], d);
    assert(seq!['s'] + d + seq![':'] + x =~= (seq!['s'] + d + seq![':']) + x);
    assert(seq!['s'] + d + seq![':'] =~= (seq!['s'] + d) + seq![':']);
    lemma_seq_at_char(s, pos, 's');
    lemma_seq_at_char(s, pos + 1 + d.len(), ':');
    assert(!is_digit(':'));
    lemma_num_rt(s, pos + 1, x.len());
    let e = pos + 1 + d.len();
    assert(sp_num(s, pos + 1) == Some((x.len() as nat, e)));
    assert(seq_at(s, e + 1, x));
    lemma_seq_at_subrange(s, e + 1, x);
    assert(s.subrange(e + 1, e + 1 + x.len()) == x);
}

/// Appends the characters of a string slice.
pub fn push_str_chars(x: &str, out: &mut Vec<char>)
    ensures
        final(out)@ == old(out)@ + x@,
{
    let n = x.unicode_len();
    let mut i: usize = 0;
    while i < n
        invariant
            0 <= i <= n,
            n == x@.len(),
            out@ == old(out)@ + x@.subrange(0, i as int),
        decreases n - i,
    {
        out.push(x.get_char(i));
        proof {
            assert(old(out)@ + x@.subrange(0, i as int) + seq![x@[i as int]] =~= old(out)@
                + x@.subrange(0, i as int + 1));
        }
        i += 1;
    }
    proof {
        assert(x@.subrange(0, n as int) =~= x@);
    }
}

/// Appends the encoding of a string.
pub fn push_enc_str(x: &str, out: &mut Vec<char>)
    ensures
        final(out)@ == old(out)@ + enc_str_v(x@),
{
    out.push('s');
    let n = x.unicode_len();
    push_dec_u64(n as u64, out);
    out.push(':');
    push_str_chars(x, out);
    proof {
        assert(old(out)@ + seq!['s'] + dec_of(x@.len()) + seq![':'] + x@ =~= old(out)@ + enc_str_v(
            x@,
        ));
    }
}

/// Relies on `String`'s `FromIterator` over characters: collecting a
/// sequence of characters yields the string holding exactly them.
#[verifier::external_body]
pub fn chars_to_string(v: &Vec<char>) -> (r: String)
    ensures
        r@ == v@,
{
    v.iter().collect()
}

/// Reads a string at `pos`; fails where the spec-level reader fails.
pub fn parse_str(s: &Vec<char>, pos: usize) -> (r: Option<(String, usize)>)
    ensures
        match r {
            Some((x, e)) => sp_str(s@, pos as int) == Some((x@, e as int)),
            None => sp_str(s@, pos as int) is None,
        },
{
    let n = s.len();
    if pos >= n || s[pos] != 's' {
        return None;
    }
    match parse_num(s, pos + 1) {
        Some((len, e)) => {
            if e < n && s[e] == ':' && len <= (n - e - 1) as u64 {
                let count = len as usize;
                let mut chars: Vec<char> = Vec::new();
                let mut i: usize = 0;
                while i < count
                    invariant
                        0 <= i <= count,
                        e + 1 + count <= n,
                        n == s@.len(),
                        chars@ == s@.subrange(e as int + 1, e as int + 1 + i as int),
                    decreases count - i,
                {
                    chars.push(s[e + 1 + i]);
                    proof {
                        assert(s@.subrange(e as int + 1, e as int + 1 + i as int) + seq![
                            s@[e as int + 1 + i as int]] =~= s@.subrange(
                            e as int + 1,
                            e as int + 1 + i as int + 1,
                        ));
                    }
                    i += 1;
                }
                let out = chars_to_string(&chars);
                Some((out, e + 1 + count))
            } else {
                None
            }
        },
        None => {
            proof {
                if sp_num(s@, pos as int + 1) is Some {
                    let nn = sp_num(s@, pos as int + 1)->Some_0.0;
                    let ee = sp_num(s@, pos as int + 1)->Some_0.1;
                    assert(nn > u64::MAX);
                    lemma_run_end_bounds(s@, pos as int + 1);
                    assert(ee <= s@.len());
                    assert(ee + 1 + nn > s@.len());
                }
            }
            None
        },
    }
}

// ---------------------------------------------------------------------------
// Integers
// ---------------------------------------------------------------------------
/// The absolute value, as a mathematical natural number.
pub open spec fn abs_nat(i: int) -> nat {
    if i < 0 {
        (-i) as nat
    } else {
        i as nat
    }
}

/// The encoding of an integer: `i`, a sign, decimal digits, `;`.
pub open spec fn enc_int_v(i: int) -> Seq<char> {
    if i < 0 {
        seq!['i', '-'] + dec_of(abs_nat(i)) + seq![';']
    } else {
        seq!['i'] + dec_of(abs_nat(i)) + seq![';']
    }
}

/// Reads an integer at `pos`: its value and the position after it.
pub open spec fn sp_int(s: Seq<char>, pos: int) -> Option<(int, int)> {
    if 0 <= pos < s.len() && s[pos] == 'i' {
        let neg = pos + 1 < s.len() && s[pos + 1] == '-';
        let dpos = if neg {
            pos + 2
        } else {
            pos + 1
        };
        match sp_num(s, dpos) {
            Some((n, e)) => {
                if e < s.len() && s[e] == ';' {
                    Some((if neg { -(n as int) } else { n as int }, e + 1))
                } else {
                    None
                }
            },
            None => None,
        }
    } else {
        None
    }
}

/// An encoded integer parses back to itself.
pub proof fn lemma_int_rt(s: Seq<char>, pos: int, x: int)
    requires
        seq_at(s, pos, enc_int_v(x)),
    ensures
        sp_int(s, pos) == Some((x, pos + enc_int_v(x).len())),
{
    let d = dec_of(abs_nat(x));
    lemma_dec_of(abs_nat(x));
    assert(!is_digit(';'));
    if x < 0 {
        lemma_seq_at_split(s, pos, seq!['i', '-'] + d, seq![';']);
        lemma_seq_at_split(s, pos, seq!['i', '-'], d);
        assert(seq!['i', '-'] + d + seq![';'] =~= (seq!['i', '-'] + d) + seq![';']);
        assert(s[pos] == 'i' && s[pos + 1] == '-') by {
            assert(s[pos + 0] == (seq!['i', '-'])[0]);
            assert(s[pos + 1] == (seq!['i', '-'])[1]);
        }
        lemma_seq_at_char(s, pos + 2 + d.len(), ';');
        lemma_num_rt(s, pos + 2, abs_nat(x));
        assert(!is_digit('-'));
    } else {
        lemma_seq_at_split(s, pos, seq!['i'] + d, seq![';']);
        lemma_seq_at_split(s, pos, seq!['i'], d);
        assert(seq!['i'] + d + seq![';'] =~= (seq!['i'] + d) + seq![';']);
        lemma_seq_at_char(s, pos, 'i');
        lemma_seq_at_char(s, pos + 1 + d.len(), ';');
        lemma_num_rt(s, pos + 1, abs_nat(x));
        assert(s[pos + 1] == d[0]);
        assert(is_digit(d[0]));
        assert(s[pos + 1] != '-');
    }
}

/// Appends the encoding of an integer.
pub fn push_enc_int(x: i64, out: &mut Vec<char>)
    ensures
        final(out)@ == old(out)@ + enc_int_v(x as int),
{
    out.push('i');
    if x < 0 {
        out.push('-');
        let mag: u64 = (-(x as i128)) as u64;
        proof {
            assert(mag as nat == abs_nat(x as int));
        }
        push_dec_u64(mag, out);
        out.push(';');
        proof {
            assert(old(out)@ + seq!['i'] + seq!['-'] + dec_of(abs_nat(x as int)) + seq![';'] =~= old(
                out,
            )@ + enc_int_v(x as int));
        }
    } else {
        push_dec_u64(x as u64, out);
        out.push(';');
        proof {
            assert(old(out)@ + seq!['i'] + dec_of(abs_nat(x as int)) + seq![';'] =~= old(out)@
                + enc_int_v(x as int));
        }
    }
}

/// Reads an integer at `pos`; fails where the spec-level reader fails or
/// the value does not fit in `i64`.
pub fn parse_int(s: &Vec<char>, pos: usize) -> (r: Option<(i64, usize)>)
    ensures
        match r {
            Some((x, e)) => sp_int(s@, pos as int) == Some((x as int, e as int)),
            None => sp_int(s@, pos as int) is None || !(i64::MIN <= sp_int(
                s@,
                pos as int,
            )->Some_0.0 <= i64::MAX),
        },
{
    let n = s.len();
    if pos >= n || s[pos] != 'i' {
        return None;
    }
    let neg = pos + 1 < n && s[pos + 1] == '-';
    let dpos = if neg {
        pos + 2
    } else {
        pos + 1
    };
    match parse_num(s, dpos) {
        Some((mag, e)) => {
            if e < n && s[e] == ';' {
                if neg {
                    if mag > i64::MAX as u64 + 1 {
                        return None;
                    }
                    let x: i64 = (-(mag as i128)) as i64;
                    Some((x, e + 1))
                } else {
                    if mag > i64::MAX as u64 {
                        return None;
                    }
                    Some((mag as i64, e + 1))
                }
            } else {
                None
            }
        },
        None => {
            proof {
                if sp_num(s@, dpos as int) is Some {
                    assert(sp_num(s@, dpos as int)->Some_0.0 > u64::MAX);
                }
            }
            None
        },
    }
}

// ---------------------------------------------------------------------------
// Values
// ---------------------------------------------------------------------------
/// The encoding of a value; arrays and objects carry their element count.
pub open spec fn enc_value_v(v: ValueV) -> Seq<char>
    decreases v, 0int,
{
    match v {
        ValueV::Null => seq!['n'],
        ValueV::Bool(b) => if b {
            seq!['t']
        } else {
            seq!['f']
        },
        ValueV::Int(i) => enc_int_v(i),
        ValueV::Str(x) => enc_str_v(x),
        ValueV::Arr(items) => seq!['a'] + dec_of(items.len()) + seq![':'] + enc_list_vv(items),
        ValueV::Obj(entries) => seq!['o'] + dec_of(entries.len()) + seq![':'] + enc_entries_vv(
            entries,
        ),
    }
}

/// The concatenated encodings of a sequence of values.
pub open spec fn enc_list_vv(items: Seq<ValueV>) -> Seq<char>
    decreases items, 1int,
{
    if items.len() == 0 {
        Seq::empty()
    } else {
        enc_value_v(items.first()) + enc_list_vv(items.drop_first())
    }
}

/// The concatenated encodings of a sequence of entries: key, then value.
pub open spec fn enc_entries_vv(entries: Seq<(Seq<char>, ValueV)>) -> Seq<char>
    decreases entries, 1int,
{
    if entries.len() == 0 {
        Seq::empty()
    } else {
        enc_str_v(entries.first().0) + enc_value_v(entries.first().1) + enc_entries_vv(
            entries.drop_first(),
        )
    }
}

/// Every value encoding is nonempty.
pub proof fn lemma_enc_value_len(v: ValueV)
    ensures
        enc_value_v(v).len() >= 1,
{
}

/// Reads one value at `pos`.
pub open spec fn sp_value(s: Seq<char>, pos: int) -> Option<(ValueV, int)>
    decreases s.len() - pos, 0int, 0int,
{
    if 0 <= pos < s.len() {
        let c = s[pos];
        if c == 'n' {
            Some((ValueV::Null, pos + 1))
        } else if c == 't' {
            Some((ValueV::Bool(true), pos + 1))
        } else if c == 'f' {
            Some((ValueV::Bool(false), pos + 1))
        } else if c == 'i' {
            match sp_int(s, pos) {
                Some((i, e)) => Some((ValueV::Int(i), e)),
                None => None,
            }
        } else if c == 's' {
            match sp_str(s, pos) {
                Some((x, e)) => Some((ValueV::Str(x), e)),
                None => None,
            }
        } else if c == 'a' {
            match sp_num(s, pos + 1) {
                Some((n, e)) => {
                    if e < s.len() && s[e] == ':' && e + 1 > pos {
                        match sp_list(s, e + 1, n) {
                            Some((items, e2)) => Some((ValueV::Arr(items), e2)),
                            None => None,
                        }
                    } else {
                        None
                    }
                },
                None => None,
            }
        } else if c == 'o' {
            match sp_num(s, pos + 1) {
                Some((n, e)) => {
                    if e < s.len() && s[e] == ':' && e + 1 > pos {
                        match sp_entries(s, e + 1, n) {
                            Some((entries, e2)) => Some((ValueV::Obj(entries), e2)),
                            None => None,
                        }
                    } else {
                        None
                    }
                },
                None => None,
            }
        } else {
            None
        }
    } else {
        None
    }
}

/// Reads `n` values in sequence starting at `pos`.
pub open spec fn sp_list(s: Seq<char>, pos: int, n: nat) -> Option<(Seq<ValueV>, int)>
    decreases s.len() - pos, 1int, n,
{
    if n == 0 {
        Some((Seq::empty(), pos))
    } else {
        match sp_value(s, pos) {
            Some((v, p2)) => {
                if p2 > pos && p2 <= s.len() {
                    match sp_list(s, p2, (n - 1) as nat) {
                        Some((rest, e)) => Some((seq![v] + rest, e)),
                        None => None,
                    }
                } else {
                    None
                }
            },
            None => None,
        }
    }
}

/// Reads `n` key-value entries in sequence starting at `pos`.
pub open spec fn sp_entries(s: Seq<char>, pos: int, n: nat) -> Option<
    (Seq<(Seq<char>, ValueV)>, int),
>
    decreases s.len() - pos, 1int, n,
{
    if n == 0 {
        Some((Seq::empty(), pos))
    } else {
        match sp_str(s, pos) {
            Some((k, p1)) => {
                if p1 > pos && p1 <= s.len() {
                    match sp_value(s, p1) {
                        Some((v, p2)) => {
                            if p2 > pos && p2 <= s.len() {
                                match sp_entries(s, p2, (n - 1) as nat) {
                                    Some((rest, e)) => Some((seq![(k, v)] + rest, e)),
                                    None => None,
                                }
                            } else {
                                None
                            }
                        },
                        None => None,
                    }
                } else {
                    None
                }
            },
            None => None,
        }
    }
}

/// A successful value read moves the position strictly forward and stays
/// inside the sequence.
pub proof fn lemma_sp_value_advance(s: Seq<char>, pos: int)
    ensures
        sp_value(s, pos) matches Some((v, p)) ==> pos < p <= s.len(),
    decreases s.len() - pos, 0int, 0int,
{
    if sp_value(s, pos) is Some {
        let c = s[pos];
        if c == 'i' {
            if sp_int(s, pos) is Some {
                let neg = pos + 1 < s.len() && s[pos + 1] == '-';
                let dpos = if neg {
                    pos + 2
                } else {
                    pos + 1
                };
                lemma_run_end_bounds(s, dpos);
            }
        } else if c == 's' {
            lemma_sp_str_advance(s, pos);
        } else if c == 'a' {
            let e = sp_num(s, pos + 1)->Some_0.1;
            let n = sp_num(s, pos + 1)->Some_0.0;
            lemma_sp_list_advance(s, e + 1, n);
        } else if c == 'o' {
            let e = sp_num(s, pos + 1)->Some_0.1;
            let n = sp_num(s, pos + 1)->Some_0.0;
            lemma_sp_entries_advance(s, e + 1, n);
        }
    }
}

/// A successful string read moves the position strictly forward.
pub proof fn lemma_sp_str_advance(s: Seq<char>, pos: int)
    ensures
        sp_str(s, pos) matches Some((x, p)) ==> pos < p <= s.len(),
{
    if sp_str(s, pos) is Some {
        lemma_run_end_bounds(s, pos + 1);
    }
}

/// A successful list read consumes at least one character per element.
pub proof fn lemma_sp_list_advance(s: Seq<char>, pos: int, n: nat)
    ensures
        sp_list(s, pos, n) matches Some((items, p)) ==> pos + n <= p && items.len() == n && (n
            > 0 ==> p <= s.len()),
    decreases s.len() - pos, 1int, n,
{
    if n != 0 && sp_list(s, pos, n) is Some {
        let (v, p2) = sp_value(s, pos)->Some_0;
        lemma_sp_value_advance(s, pos);
        lemma_sp_list_advance(s, p2, (n - 1) as nat);
    }
}

/// A successful entries read consumes at least one character per entry.
pub proof fn lemma_sp_entries_advance(s: Seq<char>, pos: int, n: nat)
    ensures
        sp_entries(s, pos, n) matches Some((entries, p)) ==> pos + n <= p && entries.len() == n
            && (n > 0 ==> p <= s.len()),
    decreases s.len() - pos, 1int, n,
{
    if n != 0 && sp_entries(s, pos, n) is Some {
        let (k, p1) = sp_str(s, pos)->Some_0;
        lemma_sp_str_advance(s, pos);
        let (v, p2) = sp_value(s, p1)->Some_0;
        lemma_sp_value_advance(s, p1);
        lemma_sp_entries_advance(s, p2, (n - 1) as nat);
    }
}

/// An encoded value parses back to itself.
pub proof fn lemma_value_rt(s: Seq<char>, pos: int, v: ValueV)
    requires
        seq_at(s, pos, enc_value_v(v)),
    ensures
        sp_value(s, pos) == Some((v, pos + enc_value_v(v).len())),
    decreases v, 0int,
{
    match v {
        ValueV::Null => {
            lemma_seq_at_char(s, pos, 'n');
        },
        ValueV::Bool(b) => {
            if b {
                lemma_seq_at_char(s, pos, 't');
            } else {
                lemma_seq_at_char(s, pos, 'f');
            }
        },
        ValueV::Int(i) => {
            lemma_int_rt(s, pos, i);
            lemma_seq_at_char(s, pos, seq!['i'][0]);
            assert(s[pos] == 'i') by {
                assert(s[pos + 0] == enc_value_v(v)[0]);
            }
        },
        ValueV::Str(x) => {
            lemma_str_rt(s, pos, x);
            assert(s[pos] == 's') by {
                assert(s[pos + 0] == enc_value_v(v)[0]);
            }
        },
        ValueV::Arr(items) => {
            let d = dec_of(items.len());
            lemma_dec_of(items.len());
            lemma_seq_at_split(s, pos, seq!['a'] + d + seq![':'], enc_list_vv(items));
            lemma_seq_at_split(s, pos, seq!['a'] + d, seq![':']);
            lemma_seq_at_split(s, pos, seq!['a'], d);
            lemma_seq_at_char(s, pos, 'a');
            lemma_seq_at_char(s, pos + 1 + d.len(), ':');
            assert(!is_digit(':'));
            lemma_num_rt(s, pos + 1, items.len());
            let e = pos + 1 + d.len();
            lemma_list_rt(s, e + 1, items);
        },
        ValueV::Obj(entries) => {
            let d = dec_of(entries.len());
            lemma_dec_of(entries.len());
            lemma_seq_at_split(s, pos, seq!['o'] + d + seq![':'], enc_entries_vv(entries));
            lemma_seq_at_split(s, pos, seq!['o'] + d, seq![':']);
            lemma_seq_at_split(s, pos, seq!['o'], d);
            lemma_seq_at_char(s, pos, 'o');
            lemma_seq_at_char(s, pos + 1 + d.len(), ':');
            assert(!is_digit(':'));
            lemma_num_rt(s, pos + 1, entries.len());
            let e = pos + 1 + d.len();
            lemma_entries_rt(s, e + 1, entries);
        },
    }
}

/// An encoded sequence of values parses back to itself.
pub proof fn lemma_list_rt(s: Seq<char>, pos: int, items: Seq<ValueV>)
    requires
        seq_at(s, pos, enc_list_vv(items)),
    ensures
        sp_list(s, pos, items.len()) == Some((items, pos + enc_list_vv(items).len())),
    decreases items, 1int,
{
    if items.len() == 0 {
        assert(sp_list(s, pos, 0) == Some((Seq::<ValueV>::empty(), pos)));
        assert(items =~= Seq::<ValueV>::empty());
    } else {
        let hd = items.first();
        let tl = items.drop_first();
        lemma_seq_at_split(s, pos, enc_value_v(hd), enc_list_vv(tl));
        lemma_value_rt(s, pos, hd);
        lemma_enc_value_len(hd);
        let p2 = pos + enc_value_v(hd).len();
        lemma_list_rt(s, p2, tl);
        assert(seq![hd] + tl =~= items);
    }
}

/// An encoded sequence of entries parses back to itself.
pub proof fn lemma_entries_rt(s: Seq<char>, pos: int, entries: Seq<(Seq<char>, ValueV)>)
    requires
        seq_at(s, pos, enc_entries_vv(entries)),
    ensures
        sp_entries(s, pos, entries.len()) == Some(
            (entries, pos + enc_entries_vv(entries).len()),
        ),
    decreases entries, 1int,
{
    if entries.len() == 0 {
        assert(sp_entries(s, pos, 0) == Some((Seq::<(Seq<char>, ValueV)>::empty(), pos)));
        assert(entries =~= Seq::<(Seq<char>, ValueV)>::empty());
    } else {
        let hd = entries.first();
        let tl = entries.drop_first();
        assert(enc_str_v(hd.0) + enc_value_v(hd.1) + enc_entries_vv(tl) =~= enc_str_v(hd.0) + (
        enc_value_v(hd.1) + enc_entries_vv(tl)));
        lemma_seq_at_split(s, pos, enc_str_v(hd.0), enc_value_v(hd.1) + enc_entries_vv(tl));
        lemma_str_rt(s, pos, hd.0);
        let p1 = pos + enc_str_v(hd.0).len();
        lemma_seq_at_split(s, p1, enc_value_v(hd.1), enc_entries_vv(tl));
        lemma_value_rt(s, p1, hd.1);
        lemma_enc_value_len(hd.1);
        let p2 = p1 + enc_value_v(hd.1).len();
        lemma_entries_rt(s, p2, tl);
        assert(seq![(hd.0, hd.1)] + tl =~= entries);
        assert((hd.0, hd.1) == hd);
    }
}

/// Appending one value to a list appends its encoding.
pub proof fn lemma_enc_list_snoc(items: Seq<ValueV>, x: ValueV)
    ensures
        enc_list_vv(items.push(x)) == enc_list_vv(items) + enc_value_v(x),
    decreases items.len(),
{
    if items.len() == 0 {
        assert(items.push(x).drop_first() =~= Seq::<ValueV>::empty());
        assert(items.push(x).first() == x);
        assert(enc_list_vv(Seq::<ValueV>::empty()) =~= Seq::<char>::empty());
        assert(enc_list_vv(items.push(x)) =~= enc_value_v(x));
        assert(enc_list_vv(items) + enc_value_v(x) =~= enc_value_v(x));
    } else {
        assert(items.push(x).first() == items.first());
        assert(items.push(x).drop_first() =~= items.drop_first().push(x));
        lemma_enc_list_snoc(items.drop_first(), x);
        assert(enc_value_v(items.first()) + (enc_list_vv(items.drop_first()) + enc_value_v(x))
            =~= (enc_value_v(items.first()) + enc_list_vv(items.drop_first())) + enc_value_v(x));
    }
}

/// Appending one entry to an entry list appends its encoding.
pub proof fn lemma_enc_entries_snoc(entries: Seq<(Seq<char>, ValueV)>, k: Seq<char>, x: ValueV)
    ensures
        enc_entries_vv(entries.push((k, x))) == enc_entries_vv(entries) + enc_str_v(k)
            + enc_value_v(x),
    decreases entries.len(),
{
    if entries.len() == 0 {
        assert(entries.push((k, x)).drop_first() =~= Seq::<(Seq<char>, ValueV)>::empty());
        assert(entries.push((k, x)).first() == (k, x));
        assert(enc_entries_vv(Seq::<(Seq<char>, ValueV)>::empty()) =~= Seq::<char>::empty());
        assert(enc_entries_vv(entries.push((k, x))) =~= enc_str_v(k) + enc_value_v(x));
        assert(enc_entries_vv(entries) + enc_str_v(k) + enc_value_v(x) =~= enc_str_v(k)
            + enc_value_v(x));
    } else {
        let hd = entries.first();
        assert(entries.push((k, x)).first() == hd);
        assert(entries.push((k, x)).drop_first() =~= entries.drop_first().push((k, x)));
        lemma_enc_entries_snoc(entries.drop_first(), k, x);
        assert(enc_str_v(hd.0) + enc_value_v(hd.1) + (enc_entries_vv(entries.drop_first())
            + enc_str_v(k) + enc_value_v(x)) =~= (enc_str_v(hd.0) + enc_value_v(hd.1)
            + enc_entries_vv(entries.drop_first())) + enc_str_v(k) + enc_value_v(x));
    }
}

/// `list_v` turns a push into a push of the model.
pub proof fn lemma_list_v_push(items: Seq<ClaimValue>, x: ClaimValue)
    ensures
        list_v(items.push(x)) == list_v(items).push(x@),
{
    assert(items.push(x).drop_last() =~= items);
    assert(items.push(x).last() == x);
}

/// `entries_v` turns a push into a push of the model.
pub proof fn lemma_entries_v_push(entries: Seq<ClaimEntry>, e: ClaimEntry)
    ensures
        entries_v(entries.push(e)) == entries_v(entries).push((e.key@, e.value@)),
{
    assert(entries.push(e).drop_last() =~= entries);
    assert(entries.push(e).last() == e);
}

/// Appends the encoding of a value.
#[verifier::loop_isolation(false)]
pub fn push_enc_value(v: &ClaimValue, out: &mut Vec<char>)
    ensures
        final(out)@ == old(out)@ + enc_value_v(v@),
    decreases v,
{
    match v {
        ClaimValue::Null => {
            out.push('n');
            proof {
                assert(out@ =~= old(out)@ + enc_value_v(v@));
            }
        },
        ClaimValue::Bool(b) => {
            if *b {
                out.push('t');
            } else {
                out.push('f');
            }
            proof {
                assert(out@ =~= old(out)@ + enc_value_v(v@));
            }
        },
        ClaimValue::Int(i) => {
            push_enc_int(*i, out);
        },
        ClaimValue::Str(x) => {
            push_enc_str(x.as_str(), out);
        },
        ClaimValue::Arr(items) => {
            out.push('a');
            let n = items.len();
            push_dec_u64(n as u64, out);
            out.push(':');
            let ghost iv = list_v(items@);
            proof {
                lemma_list_v(items@);
            }
            let ghost base = out@;
            let mut i: usize = 0;
            proof {
                assert(iv.take(0) =~= Seq::<ValueV>::empty());
                assert(enc_list_vv(iv.take(0)) =~= Seq::<char>::empty());
                assert(out@ =~= base + enc_list_vv(iv.take(0)));
            }
            while i < n
                invariant
                    0 <= i <= n,
                    out@ == base + enc_list_vv(iv.take(i as int)),
                decreases n - i,
            {
                proof {
                    assert(decreases_to!(items@ => items@[i as int]));
                }
                push_enc_value(&items[i], out);
                proof {
                    lemma_enc_list_snoc(iv.take(i as int), iv[i as int]);
                    assert(iv.take(i as int).push(iv[i as int]) =~= iv.take(i as int + 1));
                    assert(items@[i as int]@ == iv[i as int]);
                }
                i += 1;
            }
            proof {
                assert(iv.take(n as int) =~= iv);
                assert(v@ == ValueV::Arr(iv));
                assert(iv.len() == n);
                assert(out@ =~= old(out)@ + enc_value_v(v@));
            }
        },
        ClaimValue::Obj(entries) => {
            out.push('o');
            let n = entries.len();
            push_dec_u64(n as u64, out);
            out.push(':');
            let ghost ev = entries_v(entries@);
            proof {
                lemma_entries_v(entries@);
            }
            let ghost base = out@;
            let mut i: usize = 0;
            proof {
                assert(ev.take(0) =~= Seq::<(Seq<char>, ValueV)>::empty());
                assert(enc_entries_vv(ev.take(0)) =~= Seq::<char>::empty());
                assert(out@ =~= base + enc_entries_vv(ev.take(0)));
            }
            while i < n
                invariant
                    0 <= i <= n,
                    out@ == base + enc_entries_vv(ev.take(i as int)),
                decreases n - i,
            {
                push_enc_str(entries[i].key.as_str(), out);
                proof {
                    assert(decreases_to!(entries@ => entries@[i as int].value));
                }
                push_enc_value(&entries[i].value, out);
                proof {
                    lemma_enc_entries_snoc(
                        ev.take(i as int),
                        ev[i as int].0,
                        ev[i as int].1,
                    );
                    assert(ev[i as int] == (ev[i as int].0, ev[i as int].1));
                    assert(ev.take(i as int).push(ev[i as int]) =~= ev.take(i as int + 1));
                    assert(entries@[i as int].key@ == ev[i as int].0);
                    assert(entries@[i as int].value@ == ev[i as int].1);
                }
                i += 1;
            }
            proof {
                assert(ev.take(n as int) =~= ev);
                assert(v@ == ValueV::Obj(ev));
                assert(ev.len() == n);
                assert(out@ =~= old(out)@ + enc_value_v(v@));
            }
        },
    }
}

/// Reads one value at `pos`; fails where the spec-level reader fails or
/// the value does not fit the executable representation.
#[verifier::loop_isolation(false)]
#[verifier::rlimit(50)]
pub fn parse_value(s: &Vec<char>, pos: usize) -> (r: Option<(ClaimValue, usize)>)
    ensures
        match r {
            Some((cv, p)) => sp_value(s@, pos as int) == Some((cv@, p as int)),
            None => sp_value(s@, pos as int) is None || !v_bounded(
                sp_value(s@, pos as int)->Some_0.0,
            ),
        },
    decreases s@.len() - pos,
{
    let n = s.len();
    if pos >= n {
        return None;
    }
    let c = s[pos];
    if c == 'n' {
        Some((ClaimValue::Null, pos + 1))
    } else if c == 't' {
        Some((ClaimValue::Bool(true), pos + 1))
    } else if c == 'f' {
        Some((ClaimValue::Bool(false), pos + 1))
    } else if c == 'i' {
        match parse_int(s, pos) {
            Some((x, e)) => Some((ClaimValue::Int(x), e)),
            None => None,
        }
    } else if c == 's' {
        match parse_str(s, pos) {
            Some((x, e)) => Some((ClaimValue::Str(x), e)),
            None => None,
        }
    } else if c == 'a' {
        match parse_num(s, pos + 1) {
            Some((count, e)) => {
                if !(e < n && s[e] == ':') {
                    return None;
                }
                proof {
                    assert(digit_run_end(s@, pos as int + 1) == digit_run_end(
                        s@,
                        pos as int + 2,
                    ));
                    lemma_run_end_bounds(s@, pos as int + 2);
                }
                if count > (n - e - 1) as u64 {
                    proof {
                        lemma_sp_list_advance(s@, e as int + 1, count as nat);
                    }
                    return None;
                }
                let count_us = count as usize;
                let mut acc: Vec<ClaimValue> = Vec::new();
                let mut cur: usize = e + 1;
                let mut j: usize = 0;
                proof {
                    assert(list_v(acc@) =~= Seq::<ValueV>::empty());
                }
                while j < count_us
                    invariant
                        0 <= j <= count_us,
                        pos < e + 1 <= cur <= n,
                        acc@.len() == j,
                        match sp_list(s@, cur as int, (count_us - j) as nat) {
                            Some((rest, pe)) => sp_list(s@, e as int + 1, count_us as nat)
                                == Some((list_v(acc@) + rest, pe)),
                            None => sp_list(s@, e as int + 1, count_us as nat) is None,
                        },
                    decreases count_us - j,
                {
                    match parse_value(s, cur) {
                        Some((cv, p2)) => {
                            let ghost acc0 = acc@;
                            let ghost cur0 = cur;
                            acc.push(cv);
                            cur = p2;
                            j += 1;
                            proof {
                                lemma_sp_value_advance(s@, cur0 as int);
                                lemma_list_v_push(acc0, acc@.last());
                                let rest1 = sp_list(
                                    s@,
                                    p2 as int,
                                    (count_us - j) as nat,
                                );
                                if rest1 is Some {
                                    assert(list_v(acc0).push(acc@.last()@) + rest1->Some_0.0
                                        =~= list_v(acc0) + (seq![acc@.last()@]
                                        + rest1->Some_0.0));
                                }
                            }
                        },
                        None => {
                            proof {
                                let spv = sp_value(s@, cur as int);
                                if spv is Some && !v_bounded(spv->Some_0.0) {
                                    lemma_sp_value_advance(s@, cur as int);
                                    lemma_list_v(acc@);
                                    if sp_list(s@, e as int + 1, count_us as nat) is Some {
                                        let k = (count_us - j) as nat;
                                        let inner = sp_list(s@, cur as int, k);
                                        assert(inner is Some);
                                        let items = sp_list(
                                            s@,
                                            e as int + 1,
                                            count_us as nat,
                                        )->Some_0.0;
                                        assert(items == list_v(acc@) + inner->Some_0.0);
                                        assert(inner->Some_0.0[0] == spv->Some_0.0);
                                        assert(list_v(acc@).len() == acc@.len());
                                        assert(items[acc@.len() as int] == spv->Some_0.0);
                                        lemma_sp_list_advance(
                                            s@,
                                            e as int + 1,
                                            count_us as nat,
                                        );
                                        assert(items.len() == count_us);
                                        assert(sp_value(s@, pos as int)->Some_0.0
                                            == ValueV::Arr(items));
                                        lemma_arr_unbounded(items, acc@.len() as int);
                                    }
                                }
                            }
                            return None;
                        },
                    }
                }
                proof {
                    assert(sp_list(s@, cur as int, 0nat) == Some(
                        (Seq::<ValueV>::empty(), cur as int),
                    ));
                    assert(list_v(acc@) + Seq::<ValueV>::empty() =~= list_v(acc@));
                }
                Some((ClaimValue::Arr(acc), cur))
            },
            None => {
                proof {
                    if sp_num(s@, pos as int + 1) is Some {
                        let nn = sp_num(s@, pos as int + 1)->Some_0.0;
                        let ee = sp_num(s@, pos as int + 1)->Some_0.1;
                        assert(nn > u64::MAX);
                        lemma_run_end_bounds(s@, pos as int + 1);
                        lemma_sp_list_advance(s@, ee + 1, nn);
                    }
                }
                None
            },
        }
    } else if c == 'o' {
        match parse_num(s, pos + 1) {
            Some((count, e)) => {
                if !(e < n && s[e] == ':') {
                    return None;
                }
                proof {
                    assert(digit_run_end(s@, pos as int + 1) == digit_run_end(
                        s@,
                        pos as int + 2,
                    ));
                    lemma_run_end_bounds(s@, pos as int + 2);
                }
                if count > (n - e - 1) as u64 {
                    proof {
                        lemma_sp_entries_advance(s@, e as int + 1, count as nat);
                    }
                    return None;
                }
                let count_us = count as usize;
                let mut acc: Vec<ClaimEntry> = Vec::new();
                let mut cur: usize = e + 1;
                let mut j: usize = 0;
                proof {
                    assert(entries_v(acc@) =~= Seq::<(Seq<char>, ValueV)>::empty());
                }
                while j < count_us
                    invariant
                        0 <= j <= count_us,
                        pos < e + 1 <= cur <= n,
                        acc@.len() == j,
                        match sp_entries(s@, cur as int, (count_us - j) as nat) {
                            Some((rest, pe)) => sp_entries(s@, e as int + 1, count_us as nat)
                                == Some((entries_v(acc@) + rest, pe)),
                            None => sp_entries(s@, e as int + 1, count_us as nat) is None,
                        },
                    decreases count_us - j,
                {
                    let (key, p1) = match parse_str(s, cur) {
                        Some(kp) => kp,
                        None => {
                            return None;
                        },
                    };
                    proof {
                        lemma_sp_str_advance(s@, cur as int);
                    }
                    match parse_value(s, p1) {
                        Some((cv, p2)) => {
                            let ghost acc0 = acc@;
                            let ghost cur0 = cur;
                            acc.push(ClaimEntry { key, value: cv });
                            cur = p2;
                            j += 1;
                            proof {
                                lemma_sp_value_advance(s@, p1 as int);
                                lemma_entries_v_push(acc0, acc@.last());
                                let rest1 = sp_entries(
                                    s@,
                                    p2 as int,
                                    (count_us - j) as nat,
                                );
                                if rest1 is Some {
                                    assert(entries_v(acc0).push(
                                        (acc@.last().key@, acc@.last().value@),
                                    ) + rest1->Some_0.0 =~= entries_v(acc0) + (seq![
                                        (acc@.last().key@, acc@.last().value@)]
                                        + rest1->Some_0.0));
                                }
                            }
                        },
                        None => {
                            proof {
                                let spv = sp_value(s@, p1 as int);
                                if spv is Some && !v_bounded(spv->Some_0.0) {
                                    lemma_sp_value_advance(s@, p1 as int);
                                    lemma_entries_v(acc@);
                                    if sp_entries(s@, e as int + 1, count_us as nat) is Some {
                                        let k = (count_us - j) as nat;
                                        let inner = sp_entries(s@, cur as int, k);
                                        assert(inner is Some);
                                        let items = sp_entries(
                                            s@,
                                            e as int + 1,
                                            count_us as nat,
                                        )->Some_0.0;
                                        assert(items == entries_v(acc@) + inner->Some_0.0);
                                        assert(inner->Some_0.0[0].1 == spv->Some_0.0);
                                        assert(entries_v(acc@).len() == acc@.len());
                                        assert(items[acc@.len() as int].1 == spv->Some_0.0);
                                        lemma_sp_entries_advance(
                                            s@,
                                            e as int + 1,
                                            count_us as nat,
                                        );
                                        assert(items.len() == count_us);
                                        assert(sp_value(s@, pos as int)->Some_0.0
                                            == ValueV::Obj(items));
                                        lemma_obj_unbounded(items, acc@.len() as int);
                                    }
                                }
                            }
                            return None;
                        },
                    }
                }
                proof {
                    assert(sp_entries(s@, cur as int, 0nat) == Some(
                        (Seq::<(Seq<char>, ValueV)>::empty(), cur as int),
                    ));
                    assert(entries_v(acc@) + Seq::<(Seq<char>, ValueV)>::empty() =~= entries_v(
                        acc@,
                    ));
                }
                Some((ClaimValue::Obj(acc), cur))
            },
            None => {
                proof {
                    if sp_num(s@, pos as int + 1) is Some {
                        let nn = sp_num(s@, pos as int + 1)->Some_0.0;
                        let ee = sp_num(s@, pos as int + 1)->Some_0.1;
                        assert(nn > u64::MAX);
                        lemma_run_end_bounds(s@, pos as int + 1);
                        lemma_sp_entries_advance(s@, ee + 1, nn);
                    }
                }
                None
            },
        }
    } else {
        None
    }
}

} // verus!
