//! The three-segment signed token: header and claims records, their
//! canonical encoding, and (further down) token creation and verification.

use vstd::prelude::*;

verus! {

use crate::value::{ClaimEntry, ClaimValue, ValueV, entries_v, lemma_entries_v, v_bounded};
use crate::codec::{
    chars_to_string, enc_int_v, enc_str_v, enc_value_v, lemma_int_rt, lemma_seq_at_char,
    lemma_seq_at_split, lemma_str_rt, lemma_value_rt, parse_int, parse_str, parse_value,
    push_enc_int, push_enc_str, push_enc_value, push_str_chars, seq_at, sp_int, sp_str, sp_value,
};
use crate::crypto::{
    DLM_PUBLICKEYBYTES, DLM_SECRETKEYBYTES, b64u_dec_of, b64u_decode, b64u_decode_str, b64u_encode,
    b64u_encode_str, b64u_of, b64u_str_dec_of, b64u_str_of, dilithium_sign, dilithium_verify,
    dlm_sig_of, dlm_verifies, hex_dec_of, hex_of, now_ts,
};
use crate::errors::AppError;
use crate::value::{spec_lookup, str_eq};
use vstd::utf8::encode_utf8;

/// A token header: algorithm tag, type tag and key identifier.
pub struct JwtHeader {
    pub alg: String,
    pub typ: String,
    pub kid: String,
}

/// Mathematical model of a token header.
#[verifier::ext_equal]
pub ghost struct HeaderV {
    pub alg: Seq<char>,
    pub typ: Seq<char>,
    pub kid: Seq<char>,
}

impl View for JwtHeader {
    type V = HeaderV;

    open spec fn view(&self) -> HeaderV {
        HeaderV { alg: self.alg@, typ: self.typ@, kid: self.kid@ }
    }
}

/// Token claims: registered fields and an open mapping of further claims.
pub struct JwtClaims {
    pub iss: String,
    pub sub: Option<String>,
    pub aud: Option<String>,
    pub exp: Option<i64>,
    pub nbf: Option<i64>,
    pub iat: i64,
    pub jti: String,
    pub additional_claims: Vec<ClaimEntry>,
}

/// Mathematical model of token claims.
#[verifier::ext_equal]
pub ghost struct ClaimsV {
    pub iss: Seq<char>,
    pub sub: Option<Seq<char>>,
    pub aud: Option<Seq<char>>,
    pub exp: Option<int>,
    pub nbf: Option<int>,
    pub iat: int,
    pub jti: Seq<char>,
    pub additional: Seq<(Seq<char>, ValueV)>,
}

impl View for JwtClaims {
    type V = ClaimsV;

    open spec fn view(&self) -> ClaimsV {
        ClaimsV {
            iss: self.iss@,
            sub: match self.sub {
                Some(ref s) => Some(s@),
                None => None,
            },
            aud: match self.aud {
                Some(ref s) => Some(s@),
                None => None,
            },
            exp: match self.exp {
                Some(e) => Some(e as int),
                None => None,
            },
            nbf: match self.nbf {
                Some(e) => Some(e as int),
                None => None,
            },
            iat: self.iat as int,
            jti: self.jti@,
            additional: entries_v(self.additional_claims@),
        }
    }
}

/// The claims whose numeric fields fit in `i64`; only these can be
/// rebuilt by the decoder.
pub open spec fn claims_bounded(c: ClaimsV) -> bool {
    &&& (c.exp matches Some(e) ==> i64::MIN <= e <= i64::MAX)
    &&& (c.nbf matches Some(e) ==> i64::MIN <= e <= i64::MAX)
    &&& i64::MIN <= c.iat <= i64::MAX
    &&& v_bounded(ValueV::Obj(c.additional))
}

// ---------------------------------------------------------------------------
// Optional fields
// ---------------------------------------------------------------------------
/// The encoding of an optional string: `x` for absent, `y` plus the string.
pub open spec fn enc_opt_str_v(o: Option<Seq<char>>) -> Seq<char> {
    match o {
        None => seq!['x'],
        Some(x) => seq!['y'] + enc_str_v(x),
    }
}

/// The encoding of an optional integer.
pub open spec fn enc_opt_int_v(o: Option<int>) -> Seq<char> {
    match o {
        None => seq!['x'],
        Some(i) => seq!['y'] + enc_int_v(i),
    }
}

/// Reads an optional string at `pos`.
pub open spec fn sp_opt_str(s: Seq<char>, pos: int) -> Option<(Option<Seq<char>>, int)> {
    if 0 <= pos < s.len() && s[pos] == 'x' {
        Some((None, pos + 1))
    } else if 0 <= pos < s.len() && s[pos] == 'y' {
        match sp_str(s, pos + 1) {
            Some((x, e)) => Some((Some(x), e)),
            None => None,
        }
    } else {
        None
    }
}

/// Reads an optional integer at `pos`.
pub open spec fn sp_opt_int(s: Seq<char>, pos: int) -> Option<(Option<int>, int)> {
    if 0 <= pos < s.len() && s[pos] == 'x' {
        Some((None, pos + 1))
    } else if 0 <= pos < s.len() && s[pos] == 'y' {
        match sp_int(s, pos + 1) {
            Some((i, e)) => Some((Some(i), e)),
            None => None,
        }
    } else {
        None
    }
}

/// An encoded optional string parses back to itself.
pub proof fn lemma_opt_str_rt(s: Seq<char>, pos: int, o: Option<Seq<char>>)
    requires
        seq_at(s, pos, enc_opt_str_v(o)),
    ensures
        sp_opt_str(s, pos) == Some((o, pos + enc_opt_str_v(o).len())),
{
    match o {
        None => {
            lemma_seq_at_char(s, pos, 'x');
        },
        Some(x) => {
            lemma_seq_at_split(s, pos, seq!['y'], enc_str_v(x));
            lemma_seq_at_char(s, pos, 'y');
            lemma_str_rt(s, pos + 1, x);
        },
    }
}

/// An encoded optional integer parses back to itself.
pub proof fn lemma_opt_int_rt(s: Seq<char>, pos: int, o: Option<int>)
    requires
        seq_at(s, pos, enc_opt_int_v(o)),
    ensures
        sp_opt_int(s, pos) == Some((o, pos + enc_opt_int_v(o).len())),
{
    match o {
        None => {
            lemma_seq_at_char(s, pos, 'x');
        },
        Some(i) => {
            lemma_seq_at_split(s, pos, seq!['y'], enc_int_v(i));
            lemma_seq_at_char(s, pos, 'y');
            lemma_int_rt(s, pos + 1, i);
        },
    }
}

/// Appends the encoding of an optional string.
pub fn push_enc_opt_str(o: &Option<String>, out: &mut Vec<char>)
    ensures
        final(out)@ == old(out)@ + enc_opt_str_v(match o {
            Some(ref x) => Some(x@),
            None => None,
        }),
{
    match o {
        None => {
            out.push('x');
            proof {
                assert(out@ =~= old(out)@ + seq!['x']);
            }
        },
        Some(x) => {
            out.push('y');
            push_enc_str(x.as_str(), out);
            proof {
                assert(out@ =~= old(out)@ + (seq!['y'] + enc_str_v(x@)));
            }
        },
    }
}

/// Appends the encoding of an optional integer.
pub fn push_enc_opt_int(o: &Option<i64>, out: &mut Vec<char>)
    ensures
        final(out)@ == old(out)@ + enc_opt_int_v(match o {
            Some(x) => Some(x as int),
            None => None,
        }),
{
    match o {
        None => {
            out.push('x');
            proof {
                assert(out@ =~= old(out)@ + seq!['x']);
            }
        },
        Some(x) => {
            out.push('y');
            push_enc_int(*x, out);
            proof {
                assert(out@ =~= old(out)@ + (seq!['y'] + enc_int_v(*x as int)));
            }
        },
    }
}

/// Reads an optional string at `pos`.
pub fn parse_opt_str(s: &Vec<char>, pos: usize) -> (r: Option<(Option<String>, usize)>)
    ensures
        match r {
            Some((o, e)) => sp_opt_str(s@, pos as int) == Some(
                (
                    match o {
                        Some(ref x) => Some(x@),
                        None => None,
                    },
                    e as int,
                ),
            ),
            None => sp_opt_str(s@, pos as int) is None,
        },
{
    let n = s.len();
    if pos >= n {
        return None;
    }
    if s[pos] == 'x' {
        Some((None, pos + 1))
    } else if s[pos] == 'y' {
        match parse_str(s, pos + 1) {
            Some((x, e)) => Some((Some(x), e)),
            None => None,
        }
    } else {
        None
    }
}

/// Reads an optional integer at `pos`; fails when it does not fit `i64`.
pub fn parse_opt_int(s: &Vec<char>, pos: usize) -> (r: Option<(Option<i64>, usize)>)
    ensures
        match r {
            Some((o, e)) => sp_opt_int(s@, pos as int) == Some(
                (
                    match o {
                        Some(x) => Some(x as int),
                        None => None,
                    },
                    e as int,
                ),
            ),
            None => sp_opt_int(s@, pos as int) is None || (sp_opt_int(s@, pos as int)
                matches Some((Some(i), _)) && !(i64::MIN <= i <= i64::MAX)),
        },
{
    let n = s.len();
    if pos >= n {
        return None;
    }
    if s[pos] == 'x' {
        Some((None, pos + 1))
    } else if s[pos] == 'y' {
        match parse_int(s, pos + 1) {
            Some((x, e)) => Some((Some(x), e)),
            None => None,
        }
    } else {
        None
    }
}

// ---------------------------------------------------------------------------
// Header and claims records
// ---------------------------------------------------------------------------
/// The encoding of a header: its three strings in order.
pub open spec fn enc_header_v(h: HeaderV) -> Seq<char> {
    enc_str_v(h.alg) + enc_str_v(h.typ) + enc_str_v(h.kid)
}

/// Reads a whole header record; the record must fill the sequence.
pub open spec fn sp_header(s: Seq<char>) -> Option<HeaderV> {
    match sp_str(s, 0) {
        Some((alg, p1)) => match sp_str(s, p1) {
            Some((typ, p2)) => match sp_str(s, p2) {
                Some((kid, p3)) => if p3 == s.len() {
                    Some(HeaderV { alg, typ, kid })
                } else {
                    None
                },
                None => None,
            },
            None => None,
        },
        None => None,
    }
}

/// The encoding of a claims record: registered fields, then the mapping.
pub open spec fn enc_claims_v(c: ClaimsV) -> Seq<char> {
    enc_str_v(c.iss) + enc_opt_str_v(c.sub) + enc_opt_str_v(c.aud) + enc_opt_int_v(c.exp)
        + enc_opt_int_v(c.nbf) + enc_int_v(c.iat) + enc_str_v(c.jti) + enc_value_v(
        ValueV::Obj(c.additional),
    )
}

/// Reads a whole claims record; the record must fill the sequence.
pub open spec fn sp_claims(s: Seq<char>) -> Option<ClaimsV> {
    match sp_str(s, 0) {
        Some((iss, p1)) => match sp_opt_str(s, p1) {
            Some((sub, p2)) => match sp_opt_str(s, p2) {
                Some((aud, p3)) => match sp_opt_int(s, p3) {
                    Some((exp, p4)) => match sp_opt_int(s, p4) {
                        Some((nbf, p5)) => match sp_int(s, p5) {
                            Some((iat, p6)) => match sp_str(s, p6) {
                                Some((jti, p7)) => match sp_value(s, p7) {
                                    Some((ValueV::Obj(additional), p8)) => if p8 == s.len() {
                                        Some(
                                            ClaimsV {
                                                iss,
                                                sub,
                                                aud,
                                                exp,
                                                nbf,
                                                iat,
                                                jti,
                                                additional,
                                            },
                                        )
                                    } else {
                                        None
                                    },
                                    _ => None,
                                },
                                None => None,
                            },
                            None => None,
                        },
                        None => None,
                    },
                    None => None,
                },
                None => None,
            },
            None => None,
        },
        None => None,
    }
}

/// An encoded header parses back to itself.
pub proof fn lemma_header_rt(h: HeaderV)
    ensures
        sp_header(enc_header_v(h)) == Some(h),
{
    let s = enc_header_v(h);
    assert(seq_at(s, 0, s)) by {
        assert(forall|i: int| 0 <= i < s.len() ==> s[0 + i] == (#[trigger] s[i]));
    }
    lemma_seq_at_split(s, 0, enc_str_v(h.alg) + enc_str_v(h.typ), enc_str_v(h.kid));
    lemma_seq_at_split(s, 0, enc_str_v(h.alg), enc_str_v(h.typ));
    lemma_str_rt(s, 0, h.alg);
    lemma_str_rt(s, enc_str_v(h.alg).len() as int, h.typ);
    lemma_str_rt(s, (enc_str_v(h.alg).len() + enc_str_v(h.typ).len()) as int, h.kid);
}

/// An encoded claims record parses back to itself.
pub proof fn lemma_claims_rt(c: ClaimsV)
    ensures
        sp_claims(enc_claims_v(c)) == Some(c),
{
    let s = enc_claims_v(c);
    let a1 = enc_str_v(c.iss);
    let a2 = enc_opt_str_v(c.sub);
    let a3 = enc_opt_str_v(c.aud);
    let a4 = enc_opt_int_v(c.exp);
    let a5 = enc_opt_int_v(c.nbf);
    let a6 = enc_int_v(c.iat);
    let a7 = enc_str_v(c.jti);
    let a8 = enc_value_v(ValueV::Obj(c.additional));
    assert(seq_at(s, 0, s)) by {
        assert(forall|i: int| 0 <= i < s.len() ==> s[0 + i] == (#[trigger] s[i]));
    }
    lemma_seq_at_split(s, 0, a1 + a2 + a3 + a4 + a5 + a6 + a7, a8);
    lemma_seq_at_split(s, 0, a1 + a2 + a3 + a4 + a5 + a6, a7);
    lemma_seq_at_split(s, 0, a1 + a2 + a3 + a4 + a5, a6);
    lemma_seq_at_split(s, 0, a1 + a2 + a3 + a4, a5);
    lemma_seq_at_split(s, 0, a1 + a2 + a3, a4);
    lemma_seq_at_split(s, 0, a1 + a2, a3);
    lemma_seq_at_split(s, 0, a1, a2);
    let p1 = a1.len() as int;
    let p2 = p1 + a2.len();
    let p3 = p2 + a3.len();
    let p4 = p3 + a4.len();
    let p5 = p4 + a5.len();
    let p6 = p5 + a6.len();
    let p7 = p6 + a7.len();
    lemma_str_rt(s, 0, c.iss);
    lemma_opt_str_rt(s, p1, c.sub);
    lemma_opt_str_rt(s, p2, c.aud);
    lemma_opt_int_rt(s, p3, c.exp);
    lemma_opt_int_rt(s, p4, c.nbf);
    lemma_int_rt(s, p5, c.iat);
    lemma_str_rt(s, p6, c.jti);
    lemma_value_rt(s, p7, ValueV::Obj(c.additional));
}

/// Encodes a header record.
pub fn encode_header(h: &JwtHeader) -> (r: Vec<char>)
    ensures
        r@ == enc_header_v(h@),
{
    let mut out: Vec<char> = Vec::new();
    push_enc_str(h.alg.as_str(), &mut out);
    push_enc_str(h.typ.as_str(), &mut out);
    push_enc_str(h.kid.as_str(), &mut out);
    proof {
        assert(out@ =~= enc_header_v(h@));
    }
    out
}

/// Encodes a claims record.
pub fn encode_claims(c: &JwtClaims) -> (r: Vec<char>)
    ensures
        r@ == enc_claims_v(c@),
{
    let mut out: Vec<char> = Vec::new();
    push_enc_str(c.iss.as_str(), &mut out);
    push_enc_opt_str(&c.sub, &mut out);
    push_enc_opt_str(&c.aud, &mut out);
    push_enc_opt_int(&c.exp, &mut out);
    push_enc_opt_int(&c.nbf, &mut out);
    push_enc_int(c.iat, &mut out);
    push_enc_str(c.jti.as_str(), &mut out);
    push_enc_obj_entries(&c.additional_claims, &mut out);
    proof {
        assert(out@ =~= enc_claims_v(c@));
    }
    out
}

/// Appends the encoding of an entry list as an object value.
fn push_enc_obj_entries(entries: &Vec<ClaimEntry>, out: &mut Vec<char>)
    ensures
        final(out)@ == old(out)@ + enc_value_v(ValueV::Obj(entries_v(entries@))),
{
    let v = ClaimValue::Obj(crate::value::clone_entries(entries));
    push_enc_value(&v, out);
}

/// Decodes a header record; the record must fill the input.
pub fn parse_header(s: &Vec<char>) -> (r: Option<JwtHeader>)
    ensures
        match r {
            Some(h) => sp_header(s@) == Some(h@),
            None => sp_header(s@) is None,
        },
{
    let (alg, p1) = match parse_str(s, 0) {
        Some(x) => x,
        None => {
            return None;
        },
    };
    let (typ, p2) = match parse_str(s, p1) {
        Some(x) => x,
        None => {
            return None;
        },
    };
    let (kid, p3) = match parse_str(s, p2) {
        Some(x) => x,
        None => {
            return None;
        },
    };
    if p3 != s.len() {
        return None;
    }
    Some(JwtHeader { alg, typ, kid })
}

/// Decodes a claims record; the record must fill the input and its numeric
/// fields must fit `i64`.
pub fn parse_claims(s: &Vec<char>) -> (r: Option<JwtClaims>)
    ensures
        match r {
            Some(c) => sp_claims(s@) == Some(c@) && claims_bounded(c@),
            None => sp_claims(s@) is None || !claims_bounded(sp_claims(s@)->Some_0),
        },
{
    let (iss, p1) = match parse_str(s, 0) {
        Some(x) => x,
        None => {
            return None;
        },
    };
    let (sub, p2) = match parse_opt_str(s, p1) {
        Some(x) => x,
        None => {
            return None;
        },
    };
    let (aud, p3) = match parse_opt_str(s, p2) {
        Some(x) => x,
        None => {
            return None;
        },
    };
    let (exp, p4) = match parse_opt_int(s, p3) {
        Some(x) => x,
        None => {
            return None;
        },
    };
    let (nbf, p5) = match parse_opt_int(s, p4) {
        Some(x) => x,
        None => {
            return None;
        },
    };
    let (iat, p6) = match parse_int(s, p5) {
        Some(x) => x,
        None => {
            return None;
        },
    };
    let (jti, p7) = match parse_str(s, p6) {
        Some(x) => x,
        None => {
            return None;
        },
    };
    let (additional, p8) = match parse_value(s, p7) {
        Some((ClaimValue::Obj(entries), e)) => (entries, e),
        Some(_) => {
            return None;
        },
        None => {
            return None;
        },
    };
    if p8 != s.len() {
        return None;
    }
    proof {
        crate::value::lemma_entries_vec_bounded(&additional);
    }
    Some(JwtClaims { iss, sub, aud, exp, nbf, iat, jti, additional_claims: additional })
}

// ---------------------------------------------------------------------------
// Splitting a token into its three segments
// ---------------------------------------------------------------------------
/// The position of the first `.` at or after `from`, or the length.
pub open spec fn first_dot(s: Seq<char>, from: int) -> int
    decreases s.len() - from,
{
    if from < s.len() {
        if s[from] == '.' {
            from
        } else {
            first_dot(s, from + 1)
        }
    } else {
        from
    }
}

/// Splits a string into exactly three segments at its two dots.
pub open spec fn spec_split3(s: Seq<char>) -> Option<(Seq<char>, Seq<char>, Seq<char>)> {
    let i = first_dot(s, 0);
    if i == s.len() {
        None
    } else {
        let j = first_dot(s, i + 1);
        if j == s.len() {
            None
        } else {
            let k = first_dot(s, j + 1);
            if k != s.len() {
                None
            } else {
                Some((s.take(i), s.subrange(i + 1, j), s.skip(j + 1)))
            }
        }
    }
}

/// Where the first dot lies: within bounds, on a dot, after none.
pub proof fn lemma_first_dot_bounds(s: Seq<char>, from: int)
    requires
        0 <= from <= s.len(),
    ensures
        from <= first_dot(s, from) <= s.len(),
        first_dot(s, from) < s.len() ==> s[first_dot(s, from)] == '.',
        forall|m: int| from <= m < first_dot(s, from) ==> s[m] != '.',
    decreases s.len() - from,
{
    if from < s.len() && s[from] != '.' {
        lemma_first_dot_bounds(s, from + 1);
    }
}

/// A dotless stretch of `k` characters followed by a dot (or the end) puts
/// the first dot at `from + k`.
pub proof fn lemma_first_dot_of(s: Seq<char>, from: int, k: int)
    requires
        0 <= from,
        0 <= k,
        from + k <= s.len(),
        forall|m: int| from <= m < from + k ==> s[m] != '.',
        from + k == s.len() || s[from + k] == '.',
    ensures
        first_dot(s, from) == from + k,
    decreases k,
{
    if k == 0 {
    } else {
        assert(s[from] != '.');
        lemma_first_dot_of(s, from + 1, k - 1);
    }
}

/// Three dotless segments joined by dots split back into themselves.
pub proof fn lemma_split3_parts(a: Seq<char>, b: Seq<char>, c: Seq<char>)
    requires
        forall|i: int| 0 <= i < a.len() ==> a[i] != '.',
        forall|i: int| 0 <= i < b.len() ==> b[i] != '.',
        forall|i: int| 0 <= i < c.len() ==> c[i] != '.',
    ensures
        spec_split3(a + seq!['.'] + b + seq!['.'] + c) == Some((a, b, c)),
{
    let s = a + seq!['.'] + b + seq!['.'] + c;
    let i = a.len() as int;
    let j = i + 1 + b.len();
    assert forall|m: int| 0 <= m < i implies s[m] != '.' by {
        assert(s[m] == a[m]);
    }
    assert(s[i] == '.') by {
        assert(s[i] == (a + seq!['.'])[i]);
    }
    lemma_first_dot_of(s, 0, i);
    assert forall|m: int| i + 1 <= m < j implies s[m] != '.' by {
        assert(s[m] == b[m - i - 1]);
    }
    assert(s[j] == '.') by {
        assert(s[j] == (a + seq!['.'] + b + seq!['.'])[j]);
    }
    lemma_first_dot_of(s, i + 1, b.len() as int);
    assert forall|m: int| j + 1 <= m < s.len() implies s[m] != '.' by {
        assert(s[m] == c[m - j - 1]);
    }
    lemma_first_dot_of(s, j + 1, c.len() as int);
    assert(s.take(i) =~= a);
    assert(s.subrange(i + 1, j) =~= b);
    assert(s.skip(j + 1) =~= c);
}

/// Finds the first `.` at or after `from`; yields the length if none.
fn find_dot(s: &str, from: usize) -> (r: usize)
    requires
        from <= s@.len(),
    ensures
        r == first_dot(s@, from as int),
        from <= r <= s@.len(),
{
    let n = s.unicode_len();
    let mut i: usize = from;
    while i < n
        invariant
            from <= i <= n,
            n == s@.len(),
            first_dot(s@, from as int) == first_dot(s@, i as int),
        decreases n - i,
    {
        if s.get_char(i) == '.' {
            return i;
        }
        i += 1;
    }
    i
}

/// Splits a token into its three segments; fails unless there are exactly
/// two dots.
pub fn split3(s: &str) -> (r: Option<(String, String, String)>)
    ensures
        match r {
            Some((a, b, c)) => spec_split3(s@) == Some((a@, b@, c@)),
            None => spec_split3(s@) is None,
        },
{
    let n = s.unicode_len();
    let i = find_dot(s, 0);
    if i == n {
        return None;
    }
    let j = find_dot(s, i + 1);
    if j == n {
        return None;
    }
    let k = find_dot(s, j + 1);
    if k != n {
        return None;
    }
    let a = s.substring_char(0, i).to_owned();
    let b = s.substring_char(i + 1, j).to_owned();
    let c = s.substring_char(j + 1, n).to_owned();
    proof {
        assert(a@ =~= s@.take(i as int));
        assert(b@ =~= s@.subrange(i as int + 1, j as int));
        assert(c@ =~= s@.skip(j as int + 1));
    }
    Some((a, b, c))
}

// ---------------------------------------------------------------------------
// The token pipeline
// ---------------------------------------------------------------------------
/// The header a segment decodes to, if any.
pub open spec fn spec_header_of_seg(seg: Seq<char>) -> Option<HeaderV> {
    match b64u_str_dec_of(seg) {
        Some(hs) => sp_header(hs),
        None => None,
    }
}

/// The claims a segment decodes to, if any; claims whose numbers do not
/// fit the executable representation count as undecodable.
pub open spec fn spec_claims_of_seg(seg: Seq<char>) -> Option<ClaimsV> {
    match b64u_str_dec_of(seg) {
        Some(cs) => match sp_claims(cs) {
            Some(c) => if claims_bounded(c) {
                Some(c)
            } else {
                None
            },
            None => None,
        },
        None => None,
    }
}

/// The verification public key carried in the claims: the `pqk` entry,
/// hex-decoded, of the scheme's exact length.
pub open spec fn spec_pqk_of(c: ClaimsV) -> Option<Seq<u8>> {
    match spec_lookup(c.additional, "pqk"@) {
        Some(ValueV::Str(h)) => match hex_dec_of(h) {
            Some(pk) => if pk.len() == DLM_PUBLICKEYBYTES {
                Some(pk)
            } else {
                None
            },
            None => None,
        },
        _ => None,
    }
}

/// Every way token verification can end.
pub ghost enum VOut {
    /// The token cannot be split, decoded, or lacks its key.
    Malformed,
    /// The header names an unsupported algorithm.
    WrongAlg,
    /// The signature does not verify under the embedded key.
    BadSig,
    /// The expiry lies before `now`.
    TooOld,
    /// The not-before time lies after `now`.
    TooEarly,
    /// The token verifies; its header and claims.
    Good(HeaderV, ClaimsV),
}

/// What verifying a token at time `now` yields, stage by stage: split,
/// header, algorithm, claims, embedded key, signature, expiry, not-before.
pub open spec fn spec_verify_token(s: Seq<char>, now: int) -> VOut {
    match spec_split3(s) {
        None => VOut::Malformed,
        Some((s1, s2, s3)) => match spec_header_of_seg(s1) {
            None => VOut::Malformed,
            Some(h) => if h.alg != "Dilithium"@ {
                VOut::WrongAlg
            } else {
                match spec_claims_of_seg(s2) {
                    None => VOut::Malformed,
                    Some(c) => match spec_pqk_of(c) {
                        None => VOut::Malformed,
                        Some(pk) => match b64u_dec_of(s3) {
                            None => VOut::Malformed,
                            Some(sig) => if !dlm_verifies(
                                encode_utf8(s1 + seq!['.'] + s2),
                                sig,
                                pk,
                            ) {
                                VOut::BadSig
                            } else if c.exp matches Some(e) && e < now {
                                VOut::TooOld
                            } else if c.nbf matches Some(b) && b > now {
                                VOut::TooEarly
                            } else {
                                VOut::Good(h, c)
                            },
                        },
                    },
                }
            },
        },
    }
}

/// The base64url segment carrying a header.
pub open spec fn spec_hseg(h: HeaderV) -> Seq<char> {
    b64u_str_of(enc_header_v(h))
}

/// The base64url segment carrying claims.
pub open spec fn spec_cseg(c: ClaimsV) -> Seq<char> {
    b64u_str_of(enc_claims_v(c))
}

/// The signing input: header segment, dot, claims segment.
pub open spec fn spec_signing_input(h: HeaderV, c: ClaimsV) -> Seq<char> {
    spec_hseg(h) + seq!['.'] + spec_cseg(c)
}

/// The signature over the signing input's UTF-8 bytes.
pub open spec fn spec_sig_of(h: HeaderV, c: ClaimsV, sk: Seq<u8>) -> Seq<u8> {
    dlm_sig_of(encode_utf8(spec_signing_input(h, c)), sk)
}

/// The whole token: signing input, dot, encoded signature.
pub open spec fn spec_token_of(h: HeaderV, c: ClaimsV, sk: Seq<u8>) -> Seq<char> {
    spec_signing_input(h, c) + seq!['.'] + b64u_of(spec_sig_of(h, c, sk))
}

/// The facts the base64url engine gives about this token's segments:
/// each decodes back, and none contains a dot.
pub open spec fn spec_token_facts(h: HeaderV, c: ClaimsV, sk: Seq<u8>) -> bool {
    &&& b64u_str_dec_of(spec_hseg(h)) == Some(enc_header_v(h))
    &&& b64u_str_dec_of(spec_cseg(c)) == Some(enc_claims_v(c))
    &&& b64u_dec_of(b64u_of(spec_sig_of(h, c, sk))) == Some(spec_sig_of(h, c, sk))
    &&& forall|i: int| 0 <= i < spec_hseg(h).len() ==> spec_hseg(h)[i] != '.'
    &&& forall|i: int| 0 <= i < spec_cseg(c).len() ==> spec_cseg(c)[i] != '.'
    &&& forall|i: int|
        0 <= i < b64u_of(spec_sig_of(h, c, sk)).len() ==> b64u_of(spec_sig_of(h, c, sk))[i]
            != '.'
}

/// Create a signed token from a header, claims and a secret key.
pub fn create_pq_jwt(header: &JwtHeader, claims: &JwtClaims, private_key: &[u8]) -> (r: Result<
    String,
    AppError,
>)
    ensures
        private_key@.len() != DLM_SECRETKEYBYTES ==> (r matches Err(AppError::CryptoError(_))),
        private_key@.len() == DLM_SECRETKEYBYTES ==> r is Ok,
        r matches Ok(t) ==> t@ == spec_token_of(header@, claims@, private_key@)
            && spec_token_facts(header@, claims@, private_key@),
{
    if private_key.len() != DLM_SECRETKEYBYTES {
        return Err(AppError::CryptoError("secret key has the wrong length".to_owned()));
    }
    let h_chars = encode_header(header);
    let h_str = chars_to_string(&h_chars);
    let h_seg = b64u_encode_str(h_str.as_str());
    let c_chars = encode_claims(claims);
    let c_str = chars_to_string(&c_chars);
    let c_seg = b64u_encode_str(c_str.as_str());
    let mut input = h_seg;
    input.append(".");
    input.append(c_seg.as_str());
    proof {
        reveal_strlit(".");
        assert(input@ =~= spec_signing_input(header@, claims@));
    }
    let signature = dilithium_sign(input.as_str().as_bytes(), private_key);
    let sig_seg = b64u_encode(signature.as_slice());
    let mut token = input;
    token.append(".");
    token.append(sig_seg.as_str());
    proof {
        reveal_strlit(".");
        assert(token@ =~= spec_token_of(header@, claims@, private_key@));
    }
    Ok(token)
}

/// Verify a signed token at time `now`: split it, decode its header and
/// claims, check the algorithm tag, check the signature under the key the
/// claims carry, then check the time window.
pub fn verify_pq_jwt_at(jwt: &str, now: i64) -> (r: Result<(JwtHeader, JwtClaims), AppError>)
    ensures
        match r {
            Ok((h, c)) => spec_verify_token(jwt@, now as int) == VOut::Good(h@, c@),
            Err(e) => match e {
                AppError::ProtocolError(_) => spec_verify_token(jwt@, now as int)
                    == VOut::Malformed,
                AppError::UnsupportedAlgorithm => spec_verify_token(jwt@, now as int)
                    == VOut::WrongAlg,
                AppError::InvalidSignature => spec_verify_token(jwt@, now as int) == VOut::BadSig,
                AppError::Expired => spec_verify_token(jwt@, now as int) == VOut::TooOld,
                AppError::NotYetValid => spec_verify_token(jwt@, now as int) == VOut::TooEarly,
                _ => false,
            },
        },
{
    let (s1, s2, s3) = match split3(jwt) {
        Some(parts) => parts,
        None => {
            return Err(AppError::ProtocolError("token does not have three segments".to_owned()));
        },
    };
    let ghost s1v = s1@;
    let h_str = match b64u_decode_str(s1.as_str()) {
        Some(v) => v,
        None => {
            return Err(AppError::ProtocolError("header segment does not decode".to_owned()));
        },
    };
    let h_chars = str_chars(h_str.as_str());
    let header = match parse_header(&h_chars) {
        Some(h) => h,
        None => {
            return Err(AppError::ProtocolError("header segment does not parse".to_owned()));
        },
    };
    if !str_eq(header.alg.as_str(), "Dilithium") {
        return Err(AppError::UnsupportedAlgorithm);
    }
    let c_str = match b64u_decode_str(s2.as_str()) {
        Some(v) => v,
        None => {
            return Err(AppError::ProtocolError("claims segment does not decode".to_owned()));
        },
    };
    let c_chars = str_chars(c_str.as_str());
    let claims = match parse_claims(&c_chars) {
        Some(c) => c,
        None => {
            return Err(AppError::ProtocolError("claims segment does not parse".to_owned()));
        },
    };
    let pk_hex = match crate::value::lookup_entry(&claims.additional_claims, "pqk") {
        Some(ClaimValue::Str(hx)) => hx,
        _ => {
            return Err(AppError::ProtocolError("token carries no verification key".to_owned()));
        },
    };
    let pk = match crate::crypto::hex_decode(pk_hex.as_str()) {
        Some(v) => v,
        None => {
            return Err(
                AppError::ProtocolError("verification key is not hex-encoded".to_owned()),
            );
        },
    };
    if pk.len() != DLM_PUBLICKEYBYTES {
        return Err(AppError::ProtocolError("verification key has the wrong length".to_owned()));
    }
    let sig = match b64u_decode(s3.as_str()) {
        Some(v) => v,
        None => {
            return Err(AppError::ProtocolError("signature segment does not decode".to_owned()));
        },
    };
    let mut input = s1;
    input.append(".");
    input.append(s2.as_str());
    proof {
        reveal_strlit(".");
        assert(input@ =~= s1v + seq!['.'] + s2@);
        assert(spec_pqk_of(claims@) == Some(pk@));
    }
    let ok = dilithium_verify(input.as_str().as_bytes(), sig.as_slice(), pk.as_slice());
    if !ok {
        return Err(AppError::InvalidSignature);
    }
    match claims.exp {
        Some(e) => {
            if e < now {
                return Err(AppError::Expired);
            }
        },
        None => {},
    }
    match claims.nbf {
        Some(b) => {
            if b > now {
                return Err(AppError::NotYetValid);
            }
        },
        None => {},
    }
    Ok((header, claims))
}

/// Verify a signed token against the current clock.
pub fn verify_pq_jwt(jwt: &str) -> (r: Result<(JwtHeader, JwtClaims), AppError>)
    ensures
        r matches Ok((h, c)) ==> exists|now: int|
            #![trigger spec_verify_token(jwt@, now)]
            spec_verify_token(jwt@, now) == VOut::Good(h@, c@),
        r is Err ==> exists|now: int|
            #![trigger spec_verify_token(jwt@, now)]
            !(spec_verify_token(jwt@, now) matches VOut::Good(_, _)),
{
    let now = now_ts();
    let r = verify_pq_jwt_at(jwt, now);
    proof {
        if r is Ok {
            assert(spec_verify_token(jwt@, now as int) == VOut::Good(
                r->Ok_0.0@,
                r->Ok_0.1@,
            ));
        } else {
            assert(!(spec_verify_token(jwt@, now as int) matches VOut::Good(_, _)));
        }
    }
    r
}

/// Decode a token's header and claims without checking its signature or
/// time window.
pub fn decode_jwt_unverified(jwt: &str) -> (r: Result<(JwtHeader, JwtClaims), AppError>)
    ensures
        match r {
            Ok((h, c)) => spec_decode_unverified(jwt@) == Some((h@, c@)),
            Err(_) => spec_decode_unverified(jwt@) is None,
        },
{
    let (s1, s2, _s3) = match split3(jwt) {
        Some(parts) => parts,
        None => {
            return Err(AppError::ProtocolError("token does not have three segments".to_owned()));
        },
    };
    let h_str = match b64u_decode_str(s1.as_str()) {
        Some(v) => v,
        None => {
            return Err(AppError::ProtocolError("header segment does not decode".to_owned()));
        },
    };
    let h_chars = str_chars(h_str.as_str());
    let header = match parse_header(&h_chars) {
        Some(h) => h,
        None => {
            return Err(AppError::ProtocolError("header segment does not parse".to_owned()));
        },
    };
    let c_str = match b64u_decode_str(s2.as_str()) {
        Some(v) => v,
        None => {
            return Err(AppError::ProtocolError("claims segment does not decode".to_owned()));
        },
    };
    let c_chars = str_chars(c_str.as_str());
    let claims = match parse_claims(&c_chars) {
        Some(c) => c,
        None => {
            return Err(AppError::ProtocolError("claims segment does not parse".to_owned()));
        },
    };
    Ok((header, claims))
}

/// What decoding a token without verification yields.
pub open spec fn spec_decode_unverified(s: Seq<char>) -> Option<(HeaderV, ClaimsV)> {
    match spec_split3(s) {
        None => None,
        Some((s1, s2, _s3)) => match spec_header_of_seg(s1) {
            None => None,
            Some(h) => match spec_claims_of_seg(s2) {
                None => None,
                Some(c) => Some((h, c)),
            },
        },
    }
}

/// Collects the characters of a string slice.
pub fn str_chars(s: &str) -> (r: Vec<char>)
    ensures
        r@ == s@,
{
    let mut out: Vec<char> = Vec::new();
    push_str_chars(s, &mut out);
    out
}

// ---------------------------------------------------------------------------
// Round trips of whole tokens
// ---------------------------------------------------------------------------
/// A token built from a header, claims and secret key verifies back to
/// exactly that header and those claims, provided the header names the
/// supported algorithm, the claims carry the hex of the matching public
/// key under `pqk`, the key pair signs correctly, and the time window is
/// open.  The base64url facts are those every call of the engine
/// establishes.
pub proof fn lemma_token_round_trip(
    h: HeaderV,
    c: ClaimsV,
    pk: Seq<u8>,
    sk: Seq<u8>,
    now: int,
)
    requires
        spec_token_facts(h, c, sk),
        h.alg == "Dilithium"@,
        claims_bounded(c),
        spec_pqk_of(c) == Some(pk),
        forall|m: Seq<u8>| dlm_verifies(m, dlm_sig_of(m, sk), pk),
        !(c.exp matches Some(e) && e < now),
        !(c.nbf matches Some(b) && b > now),
    ensures
        spec_verify_token(spec_token_of(h, c, sk), now) == VOut::Good(h, c),
{
    let s = spec_token_of(h, c, sk);
    let s1 = spec_hseg(h);
    let s2 = spec_cseg(c);
    let s3 = b64u_of(spec_sig_of(h, c, sk));
    lemma_split3_parts(s1, s2, s3);
    assert(s =~= s1 + seq!['.'] + s2 + seq!['.'] + s3);
    assert(spec_split3(s) == Some((s1, s2, s3)));
    lemma_header_rt(h);
    assert(spec_header_of_seg(s1) == Some(h));
    lemma_claims_rt(c);
    assert(spec_claims_of_seg(s2) == Some(c));
    assert(b64u_dec_of(s3) == Some(spec_sig_of(h, c, sk)));
    assert(dlm_verifies(
        encode_utf8(s1 + seq!['.'] + s2),
        spec_sig_of(h, c, sk),
        pk,
    ));
}

/// A token whose `exp` lies before `now` fails verification as expired,
/// whatever else is true of it, provided it is otherwise well-formed.
pub proof fn lemma_token_expired(
    h: HeaderV,
    c: ClaimsV,
    pk: Seq<u8>,
    sk: Seq<u8>,
    now: int,
)
    requires
        spec_token_facts(h, c, sk),
        h.alg == "Dilithium"@,
        claims_bounded(c),
        spec_pqk_of(c) == Some(pk),
        forall|m: Seq<u8>| dlm_verifies(m, dlm_sig_of(m, sk), pk),
        c.exp matches Some(e) && e < now,
    ensures
        spec_verify_token(spec_token_of(h, c, sk), now) == VOut::TooOld,
{
    let s = spec_token_of(h, c, sk);
    let s1 = spec_hseg(h);
    let s2 = spec_cseg(c);
    let s3 = b64u_of(spec_sig_of(h, c, sk));
    lemma_split3_parts(s1, s2, s3);
    assert(s =~= s1 + seq!['.'] + s2 + seq!['.'] + s3);
    assert(spec_split3(s) == Some((s1, s2, s3)));
    lemma_header_rt(h);
    lemma_claims_rt(c);
    assert(dlm_verifies(
        encode_utf8(s1 + seq!['.'] + s2),
        spec_sig_of(h, c, sk),
        pk,
    ));
}

// ---------------------------------------------------------------------------
// Credential and presentation tokens
// ---------------------------------------------------------------------------
/// The header of a token signed by `signer`: the supported algorithm, the
/// token type tag, and the signer's key identifier.
pub open spec fn spec_pq_header(signer: Seq<char>) -> HeaderV {
    HeaderV { alg: "Dilithium"@, typ: "JWT"@, kid: signer + "#pq-keys-1"@ }
}

/// Builds the header for a token signed by `signer`.
pub fn make_pq_header(signer: &str) -> (r: JwtHeader)
    ensures
        r@ == spec_pq_header(signer@),
{
    JwtHeader {
        alg: "Dilithium".to_owned(),
        typ: "JWT".to_owned(),
        kid: signer.to_owned().concat("#pq-keys-1"),
    }
}

/// The `vc` structure of a credential token: type tags, identifier,
/// issuer, issuance and expiry times, and the subject with its claims.
pub open spec fn spec_vc_value(
    issuer: Seq<char>,
    subject: Seq<char>,
    attrs: Seq<(Seq<char>, ValueV)>,
    id: Seq<char>,
    now: int,
    exp: Option<int>,
) -> ValueV {
    ValueV::Obj(
        seq![
            ("type"@, ValueV::Arr(
                seq![
                    ValueV::Str("VerifiableCredential"@),
                    ValueV::Str("PostQuantumCredential"@),
                ],
            )),
            ("id"@, ValueV::Str(id)),
            ("issuer"@, ValueV::Str(issuer)),
            ("issuanceDate"@, ValueV::Int(now)),
            ("expirationDate"@, match exp {
                Some(e) => ValueV::Int(e),
                None => ValueV::Null,
            }),
            ("credentialSubject"@, ValueV::Obj(
                seq![("id"@, ValueV::Str(subject)), ("claims"@, ValueV::Obj(attrs))],
            )),
        ],
    )
}

/// The claims of a credential token: the registered fields plus `vc` and
/// the signer's public key under `pqk`.
pub open spec fn spec_credential_claims(
    issuer: Seq<char>,
    subject: Seq<char>,
    attrs: Seq<(Seq<char>, ValueV)>,
    pk: Seq<u8>,
    now: int,
    jti: Seq<char>,
    exp: Option<int>,
) -> ClaimsV {
    ClaimsV {
        iss: issuer,
        sub: Some(subject),
        aud: None,
        exp,
        nbf: Some(now),
        iat: now,
        jti,
        additional: seq![
            ("vc"@, spec_vc_value(issuer, subject, attrs, jti, now, exp)),
            ("pqk"@, ValueV::Str(hex_of(pk))),
        ],
    }
}

/// The `pqk` lookup in credential claims finds the signer's key.
pub proof fn lemma_credential_claims_pqk(
    issuer: Seq<char>,
    subject: Seq<char>,
    attrs: Seq<(Seq<char>, ValueV)>,
    pk: Seq<u8>,
    now: int,
    jti: Seq<char>,
    exp: Option<int>,
)
    requires
        pk.len() == DLM_PUBLICKEYBYTES,
        hex_dec_of(hex_of(pk)) == Some(pk),
    ensures
        spec_pqk_of(spec_credential_claims(issuer, subject, attrs, pk, now, jti, exp)) == Some(
            pk,
        ),
        spec_lookup(
            spec_credential_claims(issuer, subject, attrs, pk, now, jti, exp).additional,
            "vc"@,
        ) == Some(spec_vc_value(issuer, subject, attrs, jti, now, exp)),
{
    reveal_strlit("vc");
    reveal_strlit("pqk");
    let add = spec_credential_claims(issuer, subject, attrs, pk, now, jti, exp).additional;
    assert(add[0].0 == "vc"@ && add[1].0 == "pqk"@);
    assert("vc"@.len() != "pqk"@.len());
    assert(add.drop_first()[0] == add[1]);
    assert(add.drop_first().len() == 1);
    assert(spec_lookup(add.drop_first(), "pqk"@) == Some(ValueV::Str(hex_of(pk))));
    assert(spec_lookup(add, "pqk"@) == Some(ValueV::Str(hex_of(pk))));
    assert(spec_lookup(add, "vc"@) == Some(add[0].1));
}

/// Builds the claims of a credential token.
pub fn build_credential_claims(
    issuer_did: &str,
    subject_did: &str,
    attributes: &Vec<ClaimEntry>,
    public_key: &[u8],
    now: i64,
    jti: &str,
    expiration_seconds: Option<i64>,
) -> (r: JwtClaims)
    ensures
        r@ == spec_credential_claims(
            issuer_did@,
            subject_did@,
            entries_v(attributes@),
            public_key@,
            now as int,
            jti@,
            match expiration_seconds {
                Some(secs) => Some(spec_saturating_add(now as int, secs as int)),
                None => None,
            },
        ),
{
    let exp: Option<i64> = match expiration_seconds {
        Some(secs) => Some(saturating_add_i64(now, secs)),
        None => None,
    };
    let vc = build_vc_value(issuer_did, subject_did, attributes, now, jti, exp);
    let pk_hex = crate::crypto::hex_encode(public_key);
    let mut additional: Vec<ClaimEntry> = Vec::new();
    additional.push(ClaimEntry { key: "vc".to_owned(), value: vc });
    additional.push(ClaimEntry { key: "pqk".to_owned(), value: ClaimValue::Str(pk_hex) });
    let r = JwtClaims {
        iss: issuer_did.to_owned(),
        sub: Some(subject_did.to_owned()),
        aud: None,
        exp,
        nbf: Some(now),
        iat: now,
        jti: jti.to_owned(),
        additional_claims: additional,
    };
    proof {
        lemma_entries_v(r.additional_claims@);
        assert(entries_v(r.additional_claims@)[0] == (r.additional_claims@[0].key@,
        r.additional_claims@[0].value@));
        assert(entries_v(r.additional_claims@)[1] == (r.additional_claims@[1].key@,
        r.additional_claims@[1].value@));
        assert(r@.additional =~= spec_credential_claims(
            issuer_did@,
            subject_did@,
            entries_v(attributes@),
            public_key@,
            now as int,
            jti@,
            match expiration_seconds {
                Some(secs) => Some(spec_saturating_add(now as int, secs as int)),
                None => None,
            },
        ).additional);
    }
    r
}

/// Builds the `vc` structure of a credential token.
fn build_vc_value(
    issuer_did: &str,
    subject_did: &str,
    attributes: &Vec<ClaimEntry>,
    now: i64,
    jti: &str,
    exp: Option<i64>,
) -> (r: ClaimValue)
    ensures
        r@ == spec_vc_value(
            issuer_did@,
            subject_did@,
            entries_v(attributes@),
            jti@,
            now as int,
            match exp {
                Some(e) => Some(e as int),
                None => None,
            },
        ),
{
    let mut types: Vec<ClaimValue> = Vec::new();
    types.push(ClaimValue::Str("VerifiableCredential".to_owned()));
    types.push(ClaimValue::Str("PostQuantumCredential".to_owned()));
    let mut subject: Vec<ClaimEntry> = Vec::new();
    subject.push(ClaimEntry { key: "id".to_owned(), value: ClaimValue::Str(subject_did.to_owned()) });
    subject.push(
        ClaimEntry {
            key: "claims".to_owned(),
            value: ClaimValue::Obj(crate::value::clone_entries(attributes)),
        },
    );
    let ghost typesv = types@;
    let ghost subjectv = subject@;
    let mut fields: Vec<ClaimEntry> = Vec::new();
    fields.push(ClaimEntry { key: "type".to_owned(), value: ClaimValue::Arr(types) });
    fields.push(ClaimEntry { key: "id".to_owned(), value: ClaimValue::Str(jti.to_owned()) });
    fields.push(
        ClaimEntry { key: "issuer".to_owned(), value: ClaimValue::Str(issuer_did.to_owned()) },
    );
    fields.push(ClaimEntry { key: "issuanceDate".to_owned(), value: ClaimValue::Int(now) });
    fields.push(
        ClaimEntry {
            key: "expirationDate".to_owned(),
            value: match exp {
                Some(e) => ClaimValue::Int(e),
                None => ClaimValue::Null,
            },
        },
    );
    fields.push(
        ClaimEntry { key: "credentialSubject".to_owned(), value: ClaimValue::Obj(subject) },
    );
    let ghost fieldsv = fields@;
    let r = ClaimValue::Obj(fields);
    proof {
        lemma_entries_v(fieldsv);
        lemma_list_v_local(typesv);
        lemma_entries_v(subjectv);
        let want = spec_vc_value(
            issuer_did@,
            subject_did@,
            entries_v(attributes@),
            jti@,
            now as int,
            match exp {
                Some(e) => Some(e as int),
                None => None,
            },
        );
        assert(list_v_of(typesv)[0] == typesv[0]@ && list_v_of(typesv)[1] == typesv[1]@);
        assert(list_v_of(typesv) =~= want->Obj_0[0].1->Arr_0);
        assert(entries_v(subjectv)[0] == (subjectv[0].key@, subjectv[0].value@));
        assert(entries_v(subjectv)[1] == (subjectv[1].key@, subjectv[1].value@));
        assert(entries_v(subjectv) =~= want->Obj_0[5].1->Obj_0);
        assert(entries_v(fieldsv)[0] == (fieldsv[0].key@, fieldsv[0].value@));
        assert(entries_v(fieldsv)[1] == (fieldsv[1].key@, fieldsv[1].value@));
        assert(entries_v(fieldsv)[2] == (fieldsv[2].key@, fieldsv[2].value@));
        assert(entries_v(fieldsv)[3] == (fieldsv[3].key@, fieldsv[3].value@));
        assert(entries_v(fieldsv)[4] == (fieldsv[4].key@, fieldsv[4].value@));
        assert(entries_v(fieldsv)[5] == (fieldsv[5].key@, fieldsv[5].value@));
        assert(entries_v(fieldsv) =~= want->Obj_0);
        assert(r@ == want);
    }
    r
}

/// `list_v` under its own name, for use in this module's proofs.
pub open spec fn list_v_of(items: Seq<ClaimValue>) -> Seq<ValueV> {
    crate::value::list_v(items)
}

/// `list_v` maps each element to its model (local alias for proofs).
proof fn lemma_list_v_local(items: Seq<ClaimValue>)
    ensures
        crate::value::list_v(items).len() == items.len(),
        forall|i: int|
            0 <= i < items.len() ==> crate::value::list_v(items)[i] == (#[trigger] items[i])@,
{
    crate::value::lemma_list_v(items);
}

/// Saturating addition on `i64`.
pub open spec fn spec_saturating_add(a: int, b: int) -> int {
    if a + b > i64::MAX {
        i64::MAX as int
    } else if a + b < i64::MIN {
        i64::MIN as int
    } else {
        a + b
    }
}

/// Subtracts two timestamps, clamping at the representation's ends.
pub fn saturating_sub_i64(a: i64, b: i64) -> (r: i64)
    ensures
        r as int == spec_saturating_add(a as int, -(b as int)),
{
    let wide: i128 = a as i128 - b as i128;
    if wide > (i64::MAX as i128) {
        i64::MAX
    } else if wide < (i64::MIN as i128) {
        i64::MIN
    } else {
        wide as i64
    }
}

/// Adds two timestamps, clamping at the representation's ends.
pub fn saturating_add_i64(a: i64, b: i64) -> (r: i64)
    ensures
        r as int == spec_saturating_add(a as int, b as int),
{
    let wide: i128 = a as i128 + b as i128;
    if wide > (i64::MAX as i128) {
        i64::MAX
    } else if wide < (i64::MIN as i128) {
        i64::MIN
    } else {
        wide as i64
    }
}

/// The mathematical form of an optional `i64` duration.
pub open spec fn spec_ttl_of(o: Option<i64>) -> Option<int> {
    match o {
        Some(s) => Some(s as int),
        None => None,
    }
}

/// The token `t` is the credential token for these inputs, made at `now`
/// with identifier `jti`, and the engine facts hold of its segments.
pub open spec fn spec_credential_token_shape(
    issuer: Seq<char>,
    subject: Seq<char>,
    attrs: Seq<(Seq<char>, ValueV)>,
    pk: Seq<u8>,
    sk: Seq<u8>,
    t: Seq<char>,
    now: int,
    jti: Seq<char>,
    ttl: Option<int>,
) -> bool {
    let exp = match ttl {
        Some(secs) => Some(spec_saturating_add(now, secs)),
        None => None,
    };
    let h = spec_pq_header(issuer);
    let c = spec_credential_claims(issuer, subject, attrs, pk, now, jti, exp);
    &&& i64::MIN <= now <= i64::MAX
    &&& claims_bounded(c)
    &&& spec_token_of(h, c, sk) == t
    &&& spec_token_facts(h, c, sk)
}

/// Create a credential token: claims carrying a `vc` structure for the
/// subject and the signer's public key, signed with the secret key.
pub fn create_pq_credential_jwt(
    issuer_did: &str,
    subject_did: &str,
    credential_data: &Vec<ClaimEntry>,
    private_key: &[u8],
    public_key: &[u8],
    expiration_seconds: Option<i64>,
) -> (r: Result<String, AppError>)
    ensures
        private_key@.len() != DLM_SECRETKEYBYTES ==> (r matches Err(AppError::CryptoError(_))),
        private_key@.len() == DLM_SECRETKEYBYTES ==> r is Ok,
        r matches Ok(t) ==> exists|now: int, jti: Seq<char>|
            #[trigger] spec_credential_token_shape(
                issuer_did@,
                subject_did@,
                entries_v(credential_data@),
                public_key@,
                private_key@,
                t@,
                now,
                jti,
                spec_ttl_of(expiration_seconds),
            ),
{
    let now = now_ts();
    let jti = crate::crypto::new_uuid();
    let header = make_pq_header(issuer_did);
    let claims = build_credential_claims(
        issuer_did,
        subject_did,
        credential_data,
        public_key,
        now,
        jti.as_str(),
        expiration_seconds,
    );
    let r = create_pq_jwt(&header, &claims, private_key);
    proof {
        crate::value::lemma_entries_vec_bounded(&claims.additional_claims);
        if r is Ok {
            assert(spec_credential_token_shape(
                issuer_did@,
                subject_did@,
                entries_v(credential_data@),
                public_key@,
                private_key@,
                r->Ok_0@,
                now as int,
                jti@,
                spec_ttl_of(expiration_seconds),
            ));
        }
    }
    r
}

/// The `vp` structure of a presentation token: type tags, identifier,
/// holder, and the embedded credential tokens verbatim.
pub open spec fn spec_vp_value(
    holder: Seq<char>,
    credential_jwts: Seq<Seq<char>>,
    id: Seq<char>,
) -> ValueV {
    ValueV::Obj(
        seq![
            ("type"@, ValueV::Arr(
                seq![
                    ValueV::Str("VerifiablePresentation"@),
                    ValueV::Str("PostQuantumPresentation"@),
                ],
            )),
            ("id"@, ValueV::Str(id)),
            ("holder"@, ValueV::Str(holder)),
            ("verifiableCredential"@, ValueV::Arr(
                Seq::new(credential_jwts.len(), |i: int| ValueV::Str(credential_jwts[i])),
            )),
        ],
    )
}

/// The claims of a presentation token.
pub open spec fn spec_presentation_claims(
    holder: Seq<char>,
    verifier: Option<Seq<char>>,
    credential_jwts: Seq<Seq<char>>,
    pk: Seq<u8>,
    now: int,
    jti: Seq<char>,
    exp: Option<int>,
) -> ClaimsV {
    ClaimsV {
        iss: holder,
        sub: None,
        aud: verifier,
        exp,
        nbf: Some(now),
        iat: now,
        jti,
        additional: seq![
            ("vp"@, spec_vp_value(holder, credential_jwts, jti)),
            ("pqk"@, ValueV::Str(hex_of(pk))),
        ],
    }
}

/// The models of a list of token strings.
pub open spec fn strings_v(xs: Seq<String>) -> Seq<Seq<char>> {
    Seq::new(xs.len(), |i: int| xs[i]@)
}

/// Builds the claims of a presentation token.
pub fn build_presentation_claims(
    holder_did: &str,
    verifier_did: Option<&str>,
    credential_jwt_list: &Vec<String>,
    public_key: &[u8],
    now: i64,
    jti: &str,
    expiration_seconds: Option<i64>,
) -> (r: JwtClaims)
    ensures
        r@ == spec_presentation_claims(
            holder_did@,
            match verifier_did {
                Some(v) => Some(v@),
                None => None,
            },
            strings_v(credential_jwt_list@),
            public_key@,
            now as int,
            jti@,
            match expiration_seconds {
                Some(secs) => Some(spec_saturating_add(now as int, secs as int)),
                None => None,
            },
        ),
{
    let exp: Option<i64> = match expiration_seconds {
        Some(secs) => Some(saturating_add_i64(now, secs)),
        None => None,
    };
    let mut types: Vec<ClaimValue> = Vec::new();
    types.push(ClaimValue::Str("VerifiablePresentation".to_owned()));
    types.push(ClaimValue::Str("PostQuantumPresentation".to_owned()));
    let n = credential_jwt_list.len();
    let mut tokens: Vec<ClaimValue> = Vec::new();
    let mut i: usize = 0;
    while i < n
        invariant
            0 <= i <= n,
            n == credential_jwt_list@.len(),
            tokens@.len() == i,
            forall|j: int|
                0 <= j < i ==> (#[trigger] tokens@[j])@ == ValueV::Str(
                    credential_jwt_list@[j]@,
                ),
        decreases n - i,
    {
        tokens.push(ClaimValue::Str(credential_jwt_list[i].clone()));
        i += 1;
    }
    let ghost typesv = types@;
    let ghost tokensv = tokens@;
    let mut fields: Vec<ClaimEntry> = Vec::new();
    fields.push(ClaimEntry { key: "type".to_owned(), value: ClaimValue::Arr(types) });
    fields.push(ClaimEntry { key: "id".to_owned(), value: ClaimValue::Str(jti.to_owned()) });
    fields.push(
        ClaimEntry { key: "holder".to_owned(), value: ClaimValue::Str(holder_did.to_owned()) },
    );
    fields.push(
        ClaimEntry { key: "verifiableCredential".to_owned(), value: ClaimValue::Arr(tokens) },
    );
    let ghost fieldsv = fields@;
    let vp = ClaimValue::Obj(fields);
    let pk_hex = crate::crypto::hex_encode(public_key);
    let mut additional: Vec<ClaimEntry> = Vec::new();
    additional.push(ClaimEntry { key: "vp".to_owned(), value: vp });
    additional.push(ClaimEntry { key: "pqk".to_owned(), value: ClaimValue::Str(pk_hex) });
    let aud: Option<String> = match verifier_did {
        Some(v) => Some(v.to_owned()),
        None => None,
    };
    let r = JwtClaims {
        iss: holder_did.to_owned(),
        sub: None,
        aud,
        exp,
        nbf: Some(now),
        iat: now,
        jti: jti.to_owned(),
        additional_claims: additional,
    };
    proof {
        lemma_entries_v(r.additional_claims@);
        lemma_entries_v(fieldsv);
        lemma_list_v_local(typesv);
        lemma_list_v_local(tokensv);
        let want = spec_presentation_claims(
            holder_did@,
            match verifier_did {
                Some(v) => Some(v@),
                None => None,
            },
            strings_v(credential_jwt_list@),
            public_key@,
            now as int,
            jti@,
            match expiration_seconds {
                Some(secs) => Some(spec_saturating_add(now as int, secs as int)),
                None => None,
            },
        );
        let wantvp = want.additional[0].1;
        assert(list_v_of(typesv)[0] == typesv[0]@ && list_v_of(typesv)[1] == typesv[1]@);
        assert(list_v_of(typesv) =~= wantvp->Obj_0[0].1->Arr_0);
        assert forall|k: int| 0 <= k < list_v_of(tokensv).len() implies list_v_of(tokensv)[k]
            == wantvp->Obj_0[3].1->Arr_0[k] by {
            assert(list_v_of(tokensv)[k] == tokensv[k]@);
        }
        assert(list_v_of(tokensv) =~= wantvp->Obj_0[3].1->Arr_0);
        assert(entries_v(fieldsv)[0] == (fieldsv[0].key@, fieldsv[0].value@));
        assert(entries_v(fieldsv)[1] == (fieldsv[1].key@, fieldsv[1].value@));
        assert(entries_v(fieldsv)[2] == (fieldsv[2].key@, fieldsv[2].value@));
        assert(entries_v(fieldsv)[3] == (fieldsv[3].key@, fieldsv[3].value@));
        assert(entries_v(fieldsv) =~= wantvp->Obj_0);
        assert(entries_v(r.additional_claims@)[0] == (r.additional_claims@[0].key@,
        r.additional_claims@[0].value@));
        assert(entries_v(r.additional_claims@)[1] == (r.additional_claims@[1].key@,
        r.additional_claims@[1].value@));
        assert(r@.additional =~= want.additional);
        assert(r@ =~~= want);
    }
    r
}

/// The token `t` is the presentation token for these inputs, made at
/// `now` with identifier `jti`, and the engine facts hold of its segments.
pub open spec fn spec_presentation_token_shape(
    holder: Seq<char>,
    verifier: Option<Seq<char>>,
    credential_jwts: Seq<Seq<char>>,
    pk: Seq<u8>,
    sk: Seq<u8>,
    t: Seq<char>,
    now: int,
    jti: Seq<char>,
    ttl: Option<int>,
) -> bool {
    let exp = match ttl {
        Some(secs) => Some(spec_saturating_add(now, secs)),
        None => None,
    };
    let h = spec_pq_header(holder);
    let c = spec_presentation_claims(holder, verifier, credential_jwts, pk, now, jti, exp);
    &&& i64::MIN <= now <= i64::MAX
    &&& claims_bounded(c)
    &&& spec_token_of(h, c, sk) == t
    &&& spec_token_facts(h, c, sk)
}

/// The model of an optional borrowed string.
pub open spec fn spec_opt_str_view(o: Option<&str>) -> Option<Seq<char>> {
    match o {
        Some(v) => Some(v@),
        None => None,
    }
}

/// Create a presentation token: claims carrying a `vp` structure that
/// embeds the credential tokens verbatim, signed with the holder's key.
pub fn create_pq_presentation_jwt(
    holder_did: &str,
    verifier_did: Option<&str>,
    credential_jwt_list: &Vec<String>,
    private_key: &[u8],
    public_key: &[u8],
    expiration_seconds: Option<i64>,
) -> (r: Result<String, AppError>)
    ensures
        private_key@.len() != DLM_SECRETKEYBYTES ==> (r matches Err(AppError::CryptoError(_))),
        private_key@.len() == DLM_SECRETKEYBYTES ==> r is Ok,
        r matches Ok(t) ==> exists|now: int, jti: Seq<char>|
            #[trigger] spec_presentation_token_shape(
                holder_did@,
                spec_opt_str_view(verifier_did),
                strings_v(credential_jwt_list@),
                public_key@,
                private_key@,
                t@,
                now,
                jti,
                spec_ttl_of(expiration_seconds),
            ),
{
    let now = now_ts();
    let jti = crate::crypto::new_uuid();
    let header = make_pq_header(holder_did);
    let claims = build_presentation_claims(
        holder_did,
        verifier_did,
        credential_jwt_list,
        public_key,
        now,
        jti.as_str(),
        expiration_seconds,
    );
    let r = create_pq_jwt(&header, &claims, private_key);
    proof {
        crate::value::lemma_entries_vec_bounded(&claims.additional_claims);
        if r is Ok {
            assert(spec_presentation_token_shape(
                holder_did@,
                spec_opt_str_view(verifier_did),
                strings_v(credential_jwt_list@),
                public_key@,
                private_key@,
                r->Ok_0@,
                now as int,
                jti@,
                spec_ttl_of(expiration_seconds),
            ));
        }
    }
    r
}

/// A credential token made for a key pair that signs correctly verifies
/// back to exactly its header and claims, at any time inside its
/// validity window.
pub proof fn lemma_credential_token_verifies(
    issuer: Seq<char>,
    subject: Seq<char>,
    attrs: Seq<(Seq<char>, ValueV)>,
    pk: Seq<u8>,
    sk: Seq<u8>,
    t: Seq<char>,
    now0: int,
    jti: Seq<char>,
    ttl: Option<int>,
    now: int,
)
    requires
        spec_credential_token_shape(issuer, subject, attrs, pk, sk, t, now0, jti, ttl),
        pk.len() == DLM_PUBLICKEYBYTES,
        forall|m: Seq<u8>| dlm_verifies(m, dlm_sig_of(m, sk), pk),
        ({
            let exp = match ttl {
                Some(secs) => Some(spec_saturating_add(now0, secs)),
                None => None,
            };
            !(exp matches Some(e) && e < now)
        }),
        now0 <= now,
    ensures
        ({
            let exp = match ttl {
                Some(secs) => Some(spec_saturating_add(now0, secs)),
                None => None,
            };
            spec_verify_token(t, now) == VOut::Good(
                spec_pq_header(issuer),
                spec_credential_claims(issuer, subject, attrs, pk, now0, jti, exp),
            )
        }),
{
    let exp = match ttl {
        Some(secs) => Some(spec_saturating_add(now0, secs)),
        None => None,
    };
    let h = spec_pq_header(issuer);
    let c = spec_credential_claims(issuer, subject, attrs, pk, now0, jti, exp);
    crate::crypto::lemma_hex_rt(pk);
    lemma_credential_claims_pqk(issuer, subject, attrs, pk, now0, jti, exp);
    lemma_token_round_trip(h, c, pk, sk, now);
}

/// Extract the `vc` structure of a credential token, verifying it first.
pub fn extract_credential_at(jwt: &str, now: i64) -> (r: Result<ClaimValue, AppError>)
    ensures
        r matches Ok(v) ==> (spec_verify_token(jwt@, now as int) matches VOut::Good(h, c)
            && spec_lookup(c.additional, "vc"@) == Some(v@)),
        r is Err ==> !(spec_verify_token(jwt@, now as int) matches VOut::Good(h, c)
            && spec_lookup(c.additional, "vc"@) is Some),
{
    let (_h, claims) = match verify_pq_jwt_at(jwt, now) {
        Ok(hc) => hc,
        Err(e) => {
            return Err(e);
        },
    };
    match crate::value::lookup_entry(&claims.additional_claims, "vc") {
        Some(v) => Ok(crate::value::clone_value(v)),
        None => Err(
            AppError::ProtocolError("token does not carry a verifiable credential".to_owned()),
        ),
    }
}

/// Extract the `vp` structure of a presentation token, verifying it first.
pub fn extract_presentation_at(jwt: &str, now: i64) -> (r: Result<ClaimValue, AppError>)
    ensures
        r matches Ok(v) ==> (spec_verify_token(jwt@, now as int) matches VOut::Good(h, c)
            && spec_lookup(c.additional, "vp"@) == Some(v@)),
        r is Err ==> !(spec_verify_token(jwt@, now as int) matches VOut::Good(h, c)
            && spec_lookup(c.additional, "vp"@) is Some),
{
    let (_h, claims) = match verify_pq_jwt_at(jwt, now) {
        Ok(hc) => hc,
        Err(e) => {
            return Err(e);
        },
    };
    match crate::value::lookup_entry(&claims.additional_claims, "vp") {
        Some(v) => Ok(crate::value::clone_value(v)),
        None => Err(
            AppError::ProtocolError("token does not carry a verifiable presentation".to_owned()),
        ),
    }
}

/// Extract the `vc` structure against the current clock.
pub fn extract_credential(jwt: &str) -> (r: Result<ClaimValue, AppError>)
    ensures
        r matches Ok(v) ==> exists|now: int|
            #![trigger spec_verify_token(jwt@, now)]
            (spec_verify_token(jwt@, now) matches VOut::Good(h, c) && spec_lookup(
                c.additional,
                "vc"@,
            ) == Some(v@)),
        r is Err ==> exists|now: int|
            #![trigger spec_verify_token(jwt@, now)]
            !(spec_verify_token(jwt@, now) matches VOut::Good(h, c) && spec_lookup(
                c.additional,
                "vc"@,
            ) is Some),
{
    let now = now_ts();
    let r = extract_credential_at(jwt, now);
    proof {
        let ghost n = now as int;
        assert(spec_verify_token(jwt@, n) == spec_verify_token(jwt@, n));
    }
    r
}

/// Extract the `vp` structure against the current clock.
pub fn extract_presentation(jwt: &str) -> (r: Result<ClaimValue, AppError>)
    ensures
        r matches Ok(v) ==> exists|now: int|
            #![trigger spec_verify_token(jwt@, now)]
            (spec_verify_token(jwt@, now) matches VOut::Good(h, c) && spec_lookup(
                c.additional,
                "vp"@,
            ) == Some(v@)),
        r is Err ==> exists|now: int|
            #![trigger spec_verify_token(jwt@, now)]
            !(spec_verify_token(jwt@, now) matches VOut::Good(h, c) && spec_lookup(
                c.additional,
                "vp"@,
            ) is Some),
{
    let now = now_ts();
    let r = extract_presentation_at(jwt, now);
    proof {
        let ghost n = now as int;
        assert(spec_verify_token(jwt@, n) == spec_verify_token(jwt@, n));
    }
    r
}

} // verus!
