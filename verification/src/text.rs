//! Text primitives: the whitespace class, the integer-literal grammar with
//! its parser, decimal rendering of integers, trimming and whitespace
//! splitting.  Everything here is character-exact: each executable function
//! is proved to compute the spec-level function of the character sequence.
use vstd::prelude::*;

verus! {

/// The whitespace characters (the Unicode `White_Space` class, the same
/// class line splitting and `words` use).
pub open spec fn is_space(c: char) -> bool {
    c == ' ' || c == '\t' || c == '\n' || c == '\u{b}' || c == '\u{c}' || c == '\r'
        || c == '\u{85}' || c == '\u{a0}' || c == '\u{1680}' || c == '\u{2000}'
        || c == '\u{2001}' || c == '\u{2002}' || c == '\u{2003}' || c == '\u{2004}'
        || c == '\u{2005}' || c == '\u{2006}' || c == '\u{2007}' || c == '\u{2008}'
        || c == '\u{2009}' || c == '\u{200a}' || c == '\u{2028}' || c == '\u{2029}'
        || c == '\u{202f}' || c == '\u{205f}' || c == '\u{3000}'
}

/// Whether two strings hold the same characters.
pub fn str_is(a: &str, b: &str) -> (r: bool)
    ensures
        r == (a@ == b@),
{
    let sa = String::from_str(a);
    let sb = String::from_str(b);
    sa.eq(&sb)
}

/// Decides membership in the whitespace class.
pub fn space_char(c: char) -> (b: bool)
    ensures
        b == is_space(c),
{
    match c {
        ' ' | '\t' | '\n' | '\u{b}' | '\u{c}' | '\r' | '\u{85}' | '\u{a0}' | '\u{1680}'
        | '\u{2000}' | '\u{2001}' | '\u{2002}' | '\u{2003}' | '\u{2004}' | '\u{2005}'
        | '\u{2006}' | '\u{2007}' | '\u{2008}' | '\u{2009}' | '\u{200a}' | '\u{2028}'
        | '\u{2029}' | '\u{202f}' | '\u{205f}' | '\u{3000}' => true,
        _ => false,
    }
}

pub open spec fn is_digit(c: char) -> bool {
    48 <= c as int <= 57
}

pub open spec fn digit_of(c: char) -> int {
    c as int - 48
}

// ---------------------------------------------------------------------------
// The integer-literal grammar: an optional `+` or `-` sign followed by one or
// more decimal digits, the whole token and nothing else.
// ---------------------------------------------------------------------------

pub open spec fn has_sign(s: Seq<char>) -> bool {
    s.len() > 0 && (s[0] == '+' || s[0] == '-')
}

pub open spec fn digits_start(s: Seq<char>) -> int {
    if has_sign(s) {
        1int
    } else {
        0int
    }
}

/// Whether `s` is shaped like an integer literal (value range not considered).
pub open spec fn int_form(s: Seq<char>) -> bool {
    s.len() > digits_start(s) && forall|i: int|
        digits_start(s) <= i < s.len() ==> is_digit(#[trigger] s[i])
}

/// The number denoted by a sequence of decimal digits, most significant first.
pub open spec fn digits_val(s: Seq<char>) -> int
    decreases s.len(),
{
    if s.len() == 0 {
        0int
    } else {
        digits_val(s.drop_last()) * 10 + digit_of(s.last())
    }
}

/// The signed value denoted by an integer literal.
pub open spec fn int_value(s: Seq<char>) -> int {
    if has_sign(s) && s[0] == '-' {
        -digits_val(s.skip(1))
    } else {
        digits_val(s.skip(digits_start(s)))
    }
}

/// What parsing a token as a 64-bit integer yields: the literal's value when
/// the token has the literal shape and the value is representable.
pub open spec fn parse_int(s: Seq<char>) -> Option<i64> {
    if int_form(s) && i64::MIN <= int_value(s) <= i64::MAX {
        Some(int_value(s) as i64)
    } else {
        None
    }
}

/// Parses a token as a signed 64-bit decimal integer.
#[verifier::loop_isolation(false)]
pub fn parse_int_str(s: &str) -> (r: Option<i64>)
    ensures
        r == parse_int(s@),
{
    let len = s.unicode_len();
    let mut start: usize = 0;
    let mut neg = false;
    if len > 0 {
        let c0 = s.get_char(0);
        if c0 == '-' {
            neg = true;
            start = 1;
        } else if c0 == '+' {
            start = 1;
        }
    }
    if start >= len {
        // no digits at all
        assert(!int_form(s@));
        return None;
    }
    let mut i: usize = start;
    let mut mag: u64 = 0;
    let mut over = false;
    // 2^63, the magnitude bound of the 64-bit range
    let limit: u64 = 9223372036854775808;
    while i < len
        invariant
            start <= i <= len,
            forall|j: int| start <= j < i ==> is_digit(#[trigger] s@[j]),
            !over ==> mag == digits_val(s@.subrange(start as int, i as int)) && mag <= limit,
            over ==> digits_val(s@.subrange(start as int, i as int)) > limit,
        decreases len - i,
    {
        let c = s.get_char(i);
        let cv = c as u32;
        if cv < 48 || cv > 57 {
            assert(!int_form(s@));
            return None;
        }
        let d = (cv - 48) as u64;
        proof {
            assert(s@.subrange(start as int, i + 1).drop_last() =~= s@.subrange(
                start as int,
                i as int,
            ));
            assert(s@.subrange(start as int, i + 1).last() == s@[i as int]);
        }
        let ghost pv = digits_val(s@.subrange(start as int, i as int));
        assert(digits_val(s@.subrange(start as int, i + 1)) == pv * 10 + d);
        if over {
            assert(pv * 10 + d > limit) by (nonlinear_arith)
                requires
                    pv > limit,
                    d >= 0,
            ;
        } else if mag <= (limit - d) / 10 {
            assert(mag * 10 + d <= limit) by (nonlinear_arith)
                requires
                    mag <= (limit - d) / 10,
                    0 <= d <= 9,
                    limit == 9223372036854775808,
            ;
            mag = mag * 10 + d;
        } else {
            assert(mag * 10 + d > limit) by (nonlinear_arith)
                requires
                    mag > (limit - d) / 10,
                    0 <= d <= 9,
                    limit == 9223372036854775808,
            ;
            over = true;
        }
        i = i + 1;
    }
    proof {
        assert(s@.subrange(start as int, len as int) =~= s@.skip(start as int));
        assert(int_form(s@));
    }
    if neg {
        if over {
            None
        } else if mag == limit {
            Some(i64::MIN)
        } else {
            Some(-(mag as i64))
        }
    } else {
        if over || mag >= limit {
            None
        } else {
            Some(mag as i64)
        }
    }
}

// ---------------------------------------------------------------------------
// Decimal rendering of integers.
// ---------------------------------------------------------------------------

pub open spec fn digit_char(d: int) -> char {
    if d == 0 {
        '0'
    } else if d == 1 {
        '1'
    } else if d == 2 {
        '2'
    } else if d == 3 {
        '3'
    } else if d == 4 {
        '4'
    } else if d == 5 {
        '5'
    } else if d == 6 {
        '6'
    } else if d == 7 {
        '7'
    } else if d == 8 {
        '8'
    } else {
        '9'
    }
}

/// The decimal digit sequence of a non-negative number.
pub open spec fn dec_digits(n: int) -> Seq<char>
    decreases n,
{
    if n < 10 {
        seq![digit_char(n)]
    } else {
        dec_digits(n / 10).push(digit_char(n % 10))
    }
}

/// The decimal text of a signed number: a `-` sign, then the digits.
pub open spec fn int_text(n: int) -> Seq<char> {
    if n < 0 {
        seq!['-'] + dec_digits(-n)
    } else {
        dec_digits(n)
    }
}

fn digit_string(d: u64) -> (r: String)
    requires
        d < 10,
    ensures
        r@ == seq![digit_char(d as int)],
{
    let r = match d {
        0 => {
            proof { reveal_strlit("0"); }
            String::from_str("0")
        },
        1 => {
            proof { reveal_strlit("1"); }
            String::from_str("1")
        },
        2 => {
            proof { reveal_strlit("2"); }
            String::from_str("2")
        },
        3 => {
            proof { reveal_strlit("3"); }
            String::from_str("3")
        },
        4 => {
            proof { reveal_strlit("4"); }
            String::from_str("4")
        },
        5 => {
            proof { reveal_strlit("5"); }
            String::from_str("5")
        },
        6 => {
            proof { reveal_strlit("6"); }
            String::from_str("6")
        },
        7 => {
            proof { reveal_strlit("7"); }
            String::from_str("7")
        },
        8 => {
            proof { reveal_strlit("8"); }
            String::from_str("8")
        },
        _ => {
            proof { reveal_strlit("9"); }
            String::from_str("9")
        },
    };
    proof {
        assert(r@ =~= seq![digit_char(d as int)]);
    }
    r
}

fn dec_string(n: u64) -> (r: String)
    ensures
        r@ == dec_digits(n as int),
    decreases n,
{
    if n < 10 {
        digit_string(n)
    } else {
        let mut r = dec_string(n / 10);
        let d = digit_string(n % 10);
        r.append(d.as_str());
        proof {
            assert(r@ =~= dec_digits(n as int));
        }
        r
    }
}

/// Renders a signed 64-bit integer in decimal.
pub fn int_string(n: i64) -> (r: String)
    ensures
        r@ == int_text(n as int),
{
    if n >= 0 {
        dec_string(n as u64)
    } else {
        let wide: i128 = -(n as i128);
        let mag: u64 = wide as u64;
        let mut r = String::from_str("-");
        proof {
            reveal_strlit("-");
        }
        let d = dec_string(mag);
        r.append(d.as_str());
        proof {
            assert(r@ =~= int_text(n as int));
        }
        r
    }
}

// ---------------------------------------------------------------------------
// Trimming.
// ---------------------------------------------------------------------------

/// How many whitespace characters `s` begins with.
pub open spec fn lead_spaces(s: Seq<char>) -> int
    decreases s.len(),
{
    if s.len() == 0 || !is_space(s[0]) {
        0int
    } else {
        1 + lead_spaces(s.drop_first())
    }
}

/// How many whitespace characters `s` ends with.
pub open spec fn trail_spaces(s: Seq<char>) -> int
    decreases s.len(),
{
    if s.len() == 0 || !is_space(s.last()) {
        0int
    } else {
        1 + trail_spaces(s.drop_last())
    }
}

/// `s` without leading and trailing whitespace.
pub open spec fn trim_s(s: Seq<char>) -> Seq<char> {
    let rest = s.skip(lead_spaces(s));
    rest.take(rest.len() - trail_spaces(rest))
}

proof fn lemma_lead_spaces(s: Seq<char>, k: int)
    requires
        0 <= k <= s.len(),
        forall|j: int| 0 <= j < k ==> is_space(#[trigger] s[j]),
        k == s.len() || !is_space(s[k]),
    ensures
        lead_spaces(s) == k,
    decreases s.len(),
{
    if s.len() == 0 || !is_space(s[0]) {
    } else {
        assert(forall|j: int| 0 <= j < k - 1 ==> is_space(#[trigger] s.drop_first()[j]));
        lemma_lead_spaces(s.drop_first(), k - 1);
    }
}

proof fn lemma_trail_spaces(s: Seq<char>, k: int)
    requires
        0 <= k <= s.len(),
        forall|j: int| s.len() - k <= j < s.len() ==> is_space(#[trigger] s[j]),
        k == s.len() || !is_space(s[s.len() - k - 1]),
    ensures
        trail_spaces(s) == k,
    decreases s.len(),
{
    if s.len() == 0 || !is_space(s.last()) {
    } else {
        assert(forall|j: int|
            s.drop_last().len() - (k - 1) <= j < s.drop_last().len() ==> is_space(
                #[trigger] s.drop_last()[j],
            ));
        lemma_trail_spaces(s.drop_last(), k - 1);
    }
}

/// Removes leading and trailing whitespace.
#[verifier::loop_isolation(false)]
pub fn trim_str(s: &str) -> (r: String)
    ensures
        r@ == trim_s(s@),
{
    let len = s.unicode_len();
    let mut a: usize = 0;
    while a < len && space_char(s.get_char(a))
        invariant
            0 <= a <= len,
            forall|j: int| 0 <= j < a ==> is_space(#[trigger] s@[j]),
        decreases len - a,
    {
        a = a + 1;
    }
    proof {
        lemma_lead_spaces(s@, a as int);
    }
    let mut b: usize = len;
    while b > a && space_char(s.get_char(b - 1))
        invariant
            a <= b <= len,
            forall|j: int| b <= j < len ==> is_space(#[trigger] s@[j]),
        decreases b,
    {
        b = b - 1;
    }
    let piece = s.substring_char(a, b);
    let r = String::from_str(piece);
    proof {
        let rest = s@.skip(a as int);
        if a == len {
            // everything was whitespace
            lemma_trail_spaces(rest, 0);
            assert(r@ =~= trim_s(s@));
        } else {
            assert(forall|j: int|
                rest.len() - (len - b) <= j < rest.len() ==> is_space(#[trigger] rest[j]));
            assert(!is_space(rest[rest.len() - (len - b) - 1]));
            lemma_trail_spaces(rest, len - b);
            assert(r@ =~= trim_s(s@));
        }
    }
    r
}

// ---------------------------------------------------------------------------
// Whitespace splitting.
// ---------------------------------------------------------------------------

/// The length of the maximal non-whitespace prefix of `s`.
pub open spec fn word_len(s: Seq<char>) -> int
    decreases s.len(),
{
    if s.len() == 0 || is_space(s[0]) {
        0int
    } else {
        1 + word_len(s.drop_first())
    }
}

pub proof fn lemma_word_len(s: Seq<char>, k: int)
    requires
        0 <= k <= s.len(),
        forall|j: int| 0 <= j < k ==> !is_space(#[trigger] s[j]),
        k == s.len() || is_space(s[k]),
    ensures
        word_len(s) == k,
    decreases s.len(),
{
    if s.len() == 0 || is_space(s[0]) {
    } else {
        assert(forall|j: int| 0 <= j < k - 1 ==> !is_space(#[trigger] s.drop_first()[j]));
        lemma_word_len(s.drop_first(), k - 1);
    }
}

/// The maximal non-whitespace runs of `s`, in order.
pub open spec fn split_ws(s: Seq<char>) -> Seq<Seq<char>>
    decreases s.len(),
{
    if s.len() == 0 {
        Seq::empty()
    } else if is_space(s[0]) {
        split_ws(s.drop_first())
    } else {
        let k = word_len(s);
        if 1 <= k <= s.len() {
            seq![s.take(k)] + split_ws(s.skip(k))
        } else {
            Seq::empty()
        }
    }
}

/// Splits a string on whitespace runs.
#[verifier::loop_isolation(false)]
pub fn split_ws_str(s: &str) -> (r: Vec<String>)
    ensures
        r.deep_view() == split_ws(s@),
{
    let len = s.unicode_len();
    let mut out: Vec<String> = Vec::new();
    let mut i: usize = 0;
    proof {
        assert(s@.skip(0) =~= s@);
        assert(out.deep_view() + split_ws(s@) =~= split_ws(s@));
    }
    while i < len
        invariant
            0 <= i <= len,
            out.deep_view() + split_ws(s@.skip(i as int)) =~= split_ws(s@),
        decreases len - i,
    {
        let c = s.get_char(i);
        if space_char(c) {
            proof {
                assert(s@.skip(i as int).drop_first() =~= s@.skip(i + 1));
            }
            i = i + 1;
        } else {
            let mut e: usize = i + 1;
            while e < len && !space_char(s.get_char(e))
                invariant
                    i < e <= len,
                    forall|j: int| i <= j < e ==> !is_space(#[trigger] s@[j]),
                decreases len - e,
            {
                e = e + 1;
            }
            let piece = s.substring_char(i, e);
            let w = String::from_str(piece);
            proof {
                let rest = s@.skip(i as int);
                assert(forall|j: int| 0 <= j < e - i ==> !is_space(#[trigger] rest[j]));
                lemma_word_len(rest, e - i);
                assert(rest.take(e - i) =~= s@.subrange(i as int, e as int));
                assert(rest.skip(e - i) =~= s@.skip(e as int));
                assert(split_ws(rest) == seq![w@] + split_ws(s@.skip(e as int)));
            }
            out.push(w);
            proof {
                assert(out.deep_view() + split_ws(s@.skip(e as int)) =~= split_ws(s@));
            }
            i = e;
        }
    }
    proof {
        assert(split_ws(s@.skip(len as int)) =~= Seq::<Seq<char>>::empty());
        assert(out.deep_view() =~= split_ws(s@));
    }
    out
}

} // verus!
