//! The comparison options and the colour-literal parser.
//!
//! One run compares every page pair with the same sensitivity, blend factor
//! and highlight colour.  The two factors are fractions in `(0,1]` and
//! `[0,1]`; they are carried here in thousandths, so that the contracts can
//! speak of them as plain integers, and the caller scales them back to
//! fractions when it invokes the pixel comparison.

use vstd::prelude::*;
use vstd::string::StringSliceAdditionalSpecFns;

verus! {

/// The pixel-comparison options of one run, immutable for its duration.
///
/// `threshold_milli` is the matching threshold in thousandths (smaller makes
/// the comparison more sensitive); `alpha_milli` is the blend factor applied
/// to unchanged pixels, in thousandths; `diff_colour` is the RGBA colour
/// that marks differing pixels.
#[derive(Clone, Copy, Debug)]
pub struct CompareOptions {
    pub threshold_milli: u32,
    pub alpha_milli: u32,
    pub diff_colour: [u32; 4],
}

impl CompareOptions {
    /// The threshold is a fraction in `(0, 1]`, the blend factor one in
    /// `[0, 1]`.
    pub open spec fn wf(self) -> bool {
        &&& 0 < self.threshold_milli <= 1000
        &&& self.alpha_milli <= 1000
    }
}

/// The byte of the opening bracket.
pub const LBRACKET: u8 = 91;

/// The byte of the closing bracket.
pub const RBRACKET: u8 = 93;

/// The byte of the comma.
pub const COMMA: u8 = 44;

/// The byte of the plus sign.
pub const PLUS: u8 = 43;

/// An ASCII whitespace byte, exactly the bytes below `0x80` that Rust's
/// `char::is_whitespace` accepts.
pub open spec fn is_ascii_ws(b: u8) -> bool {
    b == 9 || b == 10 || b == 11 || b == 12 || b == 13 || b == 32
}

/// An ASCII decimal digit byte.
pub open spec fn is_digit_byte(b: u8) -> bool {
    48 <= b <= 57
}

/// `s` with every leading opening bracket removed.
pub open spec fn strip_leading_brackets(s: Seq<u8>) -> Seq<u8>
    decreases s.len(),
{
    if s.len() > 0 && s[0] == LBRACKET {
        strip_leading_brackets(s.drop_first())
    } else {
        s
    }
}

/// `s` with every trailing closing bracket removed.
pub open spec fn strip_trailing_brackets(s: Seq<u8>) -> Seq<u8>
    decreases s.len(),
{
    if s.len() > 0 && s.last() == RBRACKET {
        strip_trailing_brackets(s.drop_last())
    } else {
        s
    }
}

/// `s` with every leading ASCII whitespace byte removed.
pub open spec fn trim_leading_ws(s: Seq<u8>) -> Seq<u8>
    decreases s.len(),
{
    if s.len() > 0 && is_ascii_ws(s[0]) {
        trim_leading_ws(s.drop_first())
    } else {
        s
    }
}

/// `s` with every trailing ASCII whitespace byte removed.
pub open spec fn trim_trailing_ws(s: Seq<u8>) -> Seq<u8>
    decreases s.len(),
{
    if s.len() > 0 && is_ascii_ws(s.last()) {
        trim_trailing_ws(s.drop_last())
    } else {
        s
    }
}

/// `s` trimmed of ASCII whitespace on both sides.
pub open spec fn trimmed(s: Seq<u8>) -> Seq<u8> {
    trim_trailing_ws(trim_leading_ws(s))
}

/// The offset of the first comma in `s`, or `s.len()` if there is none.
pub open spec fn first_comma(s: Seq<u8>) -> nat
    decreases s.len(),
{
    if s.len() == 0 {
        0
    } else if s[0] == COMMA {
        0
    } else {
        (1 + first_comma(s.drop_first())) as nat
    }
}

/// `s` split at its commas.  An empty `s` yields one empty token; a comma
/// with nothing around it yields empty tokens on both sides.
pub open spec fn split_tokens(s: Seq<u8>) -> Seq<Seq<u8>>
    decreases s.len(),
{
    let i = first_comma(s);
    if i >= s.len() {
        seq![s]
    } else {
        seq![s.take(i as int)] + split_tokens(s.skip(i + 1 as int))
    }
}

/// The value of a sequence of decimal digit bytes, most significant first.
pub open spec fn dec_value(s: Seq<u8>) -> nat
    decreases s.len(),
{
    if s.len() == 0 {
        0
    } else {
        dec_value(s.drop_last()) * 10 + (s.last() - 48) as nat
    }
}

/// The digits of a token body: one optional leading plus sign is dropped.
pub open spec fn digits_body(t: Seq<u8>) -> Seq<u8> {
    if t.len() > 0 && t[0] == PLUS {
        t.drop_first()
    } else {
        t
    }
}

/// A token reads as a `u32`: after trimming whitespace and one optional
/// plus sign, at least one byte is left, all are decimal digits, and the
/// value fits.
pub open spec fn token_value_ok(t: Seq<u8>) -> bool {
    let b = digits_body(trimmed(t));
    &&& b.len() > 0
    &&& forall|i: int| 0 <= i < b.len() ==> is_digit_byte(#[trigger] b[i])
    &&& dec_value(b) <= u32::MAX
}

/// The value a token reads as.
pub open spec fn token_value(t: Seq<u8>) -> nat {
    dec_value(digits_body(trimmed(t)))
}

/// The comma-separated tokens of the colour literal, after the surrounding
/// brackets are stripped.
pub open spec fn colour_tokens(s: Seq<u8>) -> Seq<Seq<u8>> {
    split_tokens(strip_trailing_brackets(strip_leading_brackets(s)))
}

/// The literal parses: at most four tokens, each reading as a `u32`.
pub open spec fn colour_parse_ok(s: Seq<u8>) -> bool {
    let ts = colour_tokens(s);
    &&& ts.len() <= 4
    &&& forall|i: int| 0 <= i < ts.len() ==> token_value_ok(#[trigger] ts[i])
}

/// Component `i` of the parsed colour: the `i`-th token's value, or `255`
/// where fewer than four tokens were given.
pub open spec fn colour_component(s: Seq<u8>, i: int) -> u32 {
    let ts = colour_tokens(s);
    if 0 <= i < ts.len() {
        token_value(ts[i]) as u32
    } else {
        255
    }
}

/// The values of a token sequence, in order.
pub open spec fn token_values(ts: Seq<Seq<u8>>) -> Seq<u32>
    decreases ts.len(),
{
    if ts.len() == 0 {
        Seq::empty()
    } else {
        seq![(token_value(ts[0]) as u32)] + token_values(ts.drop_first())
    }
}

proof fn lemma_token_values(ts: Seq<Seq<u8>>)
    ensures
        token_values(ts).len() == ts.len(),
        forall|i: int|
            0 <= i < ts.len() ==> token_values(ts)[i] == (token_value(#[trigger] ts[i]) as u32),
    decreases ts.len(),
{
    if ts.len() > 0 {
        lemma_token_values(ts.drop_first());
        assert forall|i: int| 0 <= i < ts.len() implies token_values(ts)[i] == (token_value(
            ts[i],
        ) as u32) by {
            if i > 0 {
                assert(ts.drop_first()[i - 1] == ts[i]);
            }
        }
    }
}

proof fn lemma_first_comma_at(t: Seq<u8>, m: int)
    requires
        0 <= m <= t.len(),
        forall|k: int| 0 <= k < m ==> #[trigger] t[k] != COMMA,
        m == t.len() || t[m] == COMMA,
    ensures
        first_comma(t) == m,
    decreases t.len(),
{
    if t.len() == 0 {
    } else if t[0] == COMMA {
        assert(m == 0);
    } else {
        assert(m >= 1);
        lemma_first_comma_at(t.drop_first(), m - 1);
    }
}

proof fn lemma_dec_value_prefix(s: Seq<u8>, k: int)
    requires
        0 <= k <= s.len(),
        forall|i: int| 0 <= i < s.len() ==> is_digit_byte(#[trigger] s[i]),
    ensures
        dec_value(s.take(k)) <= dec_value(s),
    decreases s.len() - k,
{
    if k == s.len() {
        assert(s.take(k) =~= s);
    } else {
        lemma_dec_value_prefix(s, k + 1);
        assert(s.take(k + 1).drop_last() =~= s.take(k));
        assert(dec_value(s.take(k + 1)) == dec_value(s.take(k)) * 10 + (s.take(k + 1).last()
            - 48) as nat);
    }
}

fn parse_one_token(s: &[u8], from: usize, to: usize) -> (r: Option<u32>)
    requires
        from <= to <= s@.len(),
    ensures
        r is Some <==> token_value_ok(s@.subrange(from as int, to as int)),
        r is Some ==> r.unwrap() as nat == token_value(s@.subrange(from as int, to as int)),
{
    let ghost t = s@.subrange(from as int, to as int);
    let mut a = from;
    while a < to && (s[a] == 9 || s[a] == 10 || s[a] == 11 || s[a] == 12 || s[a] == 13 || s[a]
        == 32)
        invariant
            from <= a <= to <= s@.len(),
            trim_leading_ws(t) == trim_leading_ws(s@.subrange(a as int, to as int)),
        decreases to - a,
    {
        proof {
            assert(s@.subrange(a as int, to as int).drop_first() =~= s@.subrange(
                a as int + 1,
                to as int,
            ));
        }
        a = a + 1;
    }
    proof {
        assert(trim_leading_ws(t) == s@.subrange(a as int, to as int));
    }
    let mut b = to;
    while b > a && (s[b - 1] == 9 || s[b - 1] == 10 || s[b - 1] == 11 || s[b - 1] == 12 || s[b - 1]
        == 13 || s[b - 1] == 32)
        invariant
            from <= a <= b <= to <= s@.len(),
            trim_leading_ws(t) == s@.subrange(a as int, to as int),
            trim_trailing_ws(s@.subrange(a as int, to as int)) == trim_trailing_ws(
                s@.subrange(a as int, b as int),
            ),
        decreases b,
    {
        proof {
            assert(s@.subrange(a as int, b as int).drop_last() =~= s@.subrange(
                a as int,
                b as int - 1,
            ));
        }
        b = b - 1;
    }
    proof {
        assert(trimmed(t) == s@.subrange(a as int, b as int));
    }
    let body_start = if a < b && s[a] == PLUS {
        proof {
            assert(s@.subrange(a as int, b as int).drop_first() =~= s@.subrange(
                a as int + 1,
                b as int,
            ));
        }
        a + 1
    } else {
        a
    };
    let ghost body = s@.subrange(body_start as int, b as int);
    proof {
        assert(digits_body(trimmed(t)) == body);
    }
    if body_start == b {
        return None;
    }
    let mut i = body_start;
    let mut acc: u32 = 0;
    while i < b
        invariant
            from <= body_start <= i <= b <= to <= s@.len(),
            t == s@.subrange(from as int, to as int),
            body == s@.subrange(body_start as int, b as int),
            digits_body(trimmed(t)) == body,
            b > body_start,
            forall|k: int| body_start <= k < i ==> is_digit_byte(#[trigger] s@[k]),
            acc as nat == dec_value(s@.subrange(body_start as int, i as int)),
        decreases b - i,
    {
        let c = s[i];
        if !(48 <= c && c <= 57) {
            proof {
                assert(body[i - body_start] == c);
                assert(!is_digit_byte(digits_body(trimmed(t))[i - body_start]));
                assert(!token_value_ok(t));
            }
            return None;
        }
        let d = (c - 48) as u32;
        let next: u64 = acc as u64 * 10 + d as u64;
        proof {
            assert(s@.subrange(body_start as int, i as int + 1).drop_last() =~= s@.subrange(
                body_start as int,
                i as int,
            ));
        }
        if next > 0xFFFF_FFFFu64 {
            proof {
                let ext = s@.subrange(body_start as int, i as int + 1);
                assert(ext.last() == c);
                assert(dec_value(ext) == acc as nat * 10 + (c - 48) as nat);
                assert(dec_value(ext) > u32::MAX);
                if forall|k: int| 0 <= k < body.len() ==> is_digit_byte(#[trigger] body[k]) {
                    lemma_dec_value_prefix(body, i - body_start + 1);
                    assert(body.take(i - body_start + 1) =~= ext);
                    assert(dec_value(body) >= dec_value(ext));
                    assert(!token_value_ok(t));
                } else {
                    assert(!token_value_ok(t));
                }
            }
            return None;
        }
        acc = next as u32;
        i = i + 1;
    }
    proof {
        assert(s@.subrange(body_start as int, i as int) =~= body);
        assert forall|k: int| 0 <= k < body.len() implies is_digit_byte(#[trigger] body[k]) by {
            assert(body[k] == s@[body_start + k]);
        }
        assert(token_value_ok(t));
    }
    Some(acc)
}

fn parse_token_list(s: &[u8], from: usize, to: usize, vals: &mut Vec<u32>) -> (ok: bool)
    requires
        from <= to <= s@.len(),
    ensures
        ok <==> (forall|i: int|
            0 <= i < split_tokens(s@.subrange(from as int, to as int)).len()
                ==> token_value_ok(#[trigger] split_tokens(s@.subrange(from as int, to as int))[i])),
        ok ==> final(vals)@ == old(vals)@ + token_values(
            split_tokens(s@.subrange(from as int, to as int)),
        ),
    decreases to - from,
{
    let ghost t = s@.subrange(from as int, to as int);
    let mut j = from;
    while j < to && s[j] != COMMA
        invariant
            from <= j <= to <= s@.len(),
            forall|k: int| from <= k < j ==> #[trigger] s@[k] != COMMA,
        decreases to - j,
    {
        j = j + 1;
    }
    proof {
        assert forall|k: int| 0 <= k < j - from implies #[trigger] t[k] != COMMA by {
            assert(t[k] == s@[from + k]);
        }
        if j < to {
            assert(t[j - from] == s@[j as int]);
        }
        lemma_first_comma_at(t, j - from);
    }
    let head = parse_one_token(s, from, j);
    if j == to {
        proof {
            assert(split_tokens(t) =~= seq![t]);
            assert(t =~= s@.subrange(from as int, j as int));
        }
        match head {
            None => false,
            Some(v) => {
                vals.push(v);
                proof {
                    lemma_token_values(seq![t]);
                    assert(token_values(seq![t]) =~= seq![(token_value(t) as u32)]);
                    assert(vals@ =~= old(vals)@ + token_values(split_tokens(t)));
                }
                true
            },
        }
    } else {
        let ghost head_tok = t.take(j - from);
        let ghost rest = split_tokens(t.skip(j - from + 1));
        proof {
            assert(split_tokens(t) == seq![head_tok] + rest);
            assert(head_tok =~= s@.subrange(from as int, j as int));
            assert(t.skip(j - from + 1) =~= s@.subrange(j as int + 1, to as int));
        }
        match head {
            None => {
                proof {
                    assert(split_tokens(t)[0] == head_tok);
                    assert(!token_value_ok(split_tokens(t)[0]));
                }
                false
            },
            Some(v) => {
                vals.push(v);
                let ok = parse_token_list(s, j + 1, to, vals);
                proof {
                    lemma_token_values(split_tokens(t));
                    lemma_token_values(rest);
                    assert(split_tokens(t).drop_first() =~= rest);
                    if ok {
                        assert forall|i: int| 0 <= i < split_tokens(t).len() implies
                        token_value_ok(#[trigger] split_tokens(t)[i]) by {
                            if i == 0 {
                                assert(split_tokens(t)[0] == head_tok);
                            } else {
                                assert(split_tokens(t)[i] == rest[i - 1]);
                            }
                        }
                        assert(token_values(split_tokens(t)) =~= seq![(token_value(head_tok)
                            as u32)] + token_values(rest));
                        assert(vals@ =~= old(vals)@ + token_values(split_tokens(t)));
                    } else {
                        assert(exists|i: int|
                            0 <= i < rest.len() && !token_value_ok(#[trigger] rest[i]));
                        let i = choose|i: int|
                            0 <= i < rest.len() && !token_value_ok(#[trigger] rest[i]);
                        assert(split_tokens(t)[i + 1] == rest[i]);
                    }
                }
                ok
            },
        }
    }
}

/// Reads a bracketed, comma-separated colour literal such as
/// `[218, 165, 32, 255]` into its four RGBA components.  Up to four
/// components may be given; missing ones default to `255`.  The literal is
/// rejected when it has more than four components or when any component is
/// not an unsigned decimal number that fits a `u32`.
pub fn parse_num_array(array: &str) -> (r: Result<[u32; 4], &'static str>)
    ensures
        r is Ok <==> colour_parse_ok(array.spec_bytes()),
        r matches Ok(a) ==> a@ =~= seq![
            colour_component(array.spec_bytes(), 0),
            colour_component(array.spec_bytes(), 1),
            colour_component(array.spec_bytes(), 2),
            colour_component(array.spec_bytes(), 3),
        ],
{
    let s = array.as_bytes();
    let mut start: usize = 0;
    let mut end: usize = s.len();
    proof {
        assert(s@ =~= s@.subrange(0, s@.len() as int));
    }
    while start < end && s[start] == LBRACKET
        invariant
            start <= end <= s@.len(),
            end == s@.len(),
            strip_leading_brackets(s@) == strip_leading_brackets(
                s@.subrange(start as int, end as int),
            ),
        decreases end - start,
    {
        proof {
            assert(s@.subrange(start as int, end as int).drop_first() =~= s@.subrange(
                start as int + 1,
                end as int,
            ));
        }
        start = start + 1;
    }
    proof {
        assert(s@ =~= s@.subrange(0, s@.len() as int));
        assert(strip_leading_brackets(s@) == s@.subrange(start as int, end as int));
    }
    while end > start && s[end - 1] == RBRACKET
        invariant
            start <= end <= s@.len(),
            strip_leading_brackets(s@) == s@.subrange(start as int, s@.len() as int),
            strip_trailing_brackets(s@.subrange(start as int, s@.len() as int))
                == strip_trailing_brackets(s@.subrange(start as int, end as int)),
        decreases end,
    {
        proof {
            assert(s@.subrange(start as int, end as int).drop_last() =~= s@.subrange(
                start as int,
                end as int - 1,
            ));
        }
        end = end - 1;
    }
    let ghost stripped = s@.subrange(start as int, end as int);
    proof {
        assert(strip_trailing_brackets(strip_leading_brackets(s@)) == stripped);
        assert(colour_tokens(s@) == split_tokens(stripped));
    }
    let mut vals: Vec<u32> = Vec::new();
    let ok = parse_token_list(s, start, end, &mut vals);
    proof {
        lemma_token_values(split_tokens(stripped));
    }
    if !ok {
        return Err("Argument incorrectly formatted, correct format should be: [a, b, c]");
    }
    if vals.len() > 4 {
        return Err("Argument incorrectly formatted, correct format should be: [a, b, c]");
    }
    let v0 = if vals.len() > 0 {
        vals[0]
    } else {
        255
    };
    let v1 = if vals.len() > 1 {
        vals[1]
    } else {
        255
    };
    let v2 = if vals.len() > 2 {
        vals[2]
    } else {
        255
    };
    let v3 = if vals.len() > 3 {
        vals[3]
    } else {
        255
    };
    let arr: [u32; 4] = [v0, v1, v2, v3];
    proof {
        assert(arr@ =~= seq![v0, v1, v2, v3]);
    }
    Ok(arr)
}

} // verus!
