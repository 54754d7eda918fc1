//! The textual program format: a comma-separated list of signed
//! integers, with (ASCII) whitespace ignored anywhere in the text. One
//! whitespace-trimmed integer token is also the form the machine's
//! `Input` instruction expects from its collaborator.
use vstd::prelude::*;

use crate::semantics::Fault;

verus! {

/// Error for program text that is not a comma-separated list of
/// integers.
#[derive(Clone, Copy, Debug, PartialEq, Eq, Structural)]
pub enum LoadError {
    MalformedProgram,
}

/// ASCII whitespace: space, and the control characters tab through
/// carriage return.
pub open spec fn is_ws(c: u8) -> bool {
    c == 32 || (9 <= c && c <= 13)
}

/// A decimal digit.
pub open spec fn is_digit(c: u8) -> bool {
    48 <= c && c <= 57
}

/// The text with every whitespace byte removed.
pub open spec fn strip_ws(s: Seq<u8>) -> Seq<u8>
    decreases s.len(),
{
    if s.len() == 0 {
        Seq::empty()
    } else if is_ws(s.last()) {
        strip_ws(s.drop_last())
    } else {
        strip_ws(s.drop_last()).push(s.last())
    }
}

/// The text split at every comma: always one more token than there are
/// commas, so empty tokens (and an empty text) are visible as such.
pub open spec fn split_tokens(s: Seq<u8>) -> Seq<Seq<u8>>
    decreases s.len(),
{
    if s.len() == 0 {
        seq![Seq::empty()]
    } else {
        let rest = split_tokens(s.drop_last());
        if s.last() == 44 {
            rest.push(Seq::empty())
        } else {
            rest.update(rest.len() - 1, rest.last().push(s.last()))
        }
    }
}

/// There is always at least one token.
pub proof fn lemma_split_tokens_nonempty(s: Seq<u8>)
    ensures
        split_tokens(s).len() >= 1,
    decreases s.len(),
{
    if s.len() > 0 {
        lemma_split_tokens_nonempty(s.drop_last());
    }
}

/// Every byte is a decimal digit.
pub open spec fn all_digits(s: Seq<u8>) -> bool {
    forall|i: int| 0 <= i < s.len() ==> is_digit(s[i])
}

/// The non-negative integer a digit string denotes.
pub open spec fn digits_val(s: Seq<u8>) -> int
    recommends
        all_digits(s),
    decreases s.len(),
{
    if s.len() == 0 {
        0
    } else {
        digits_val(s.drop_last()) * 10 + (s.last() - 48)
    }
}

/// The value of a digit string under a sign, when it is well-formed
/// (non-empty, digits only) and fits a 64-bit cell.
pub open spec fn parse_mag(mag: Seq<u8>, neg: bool) -> Option<i64> {
    if mag.len() == 0 || !all_digits(mag) {
        None
    } else {
        let v = if neg {
            -digits_val(mag)
        } else {
            digits_val(mag)
        };
        if i64::MIN <= v <= i64::MAX {
            Some(v as i64)
        } else {
            None
        }
    }
}

/// The integer a token denotes: an optional leading `+` or `-` sign,
/// then one or more decimal digits, the whole fitting a 64-bit cell.
pub open spec fn parse_int_spec(tok: Seq<u8>) -> Option<i64> {
    if tok.len() > 0 && (tok[0] == 43 || tok[0] == 45) {
        parse_mag(tok.drop_first(), tok[0] == 45)
    } else {
        parse_mag(tok, false)
    }
}

/// All tokens parsed in order; `None` as soon as any token is not an
/// integer.
pub open spec fn parse_all(toks: Seq<Seq<u8>>) -> Option<Seq<i64>>
    decreases toks.len(),
{
    if toks.len() == 0 {
        Some(Seq::empty())
    } else {
        match parse_all(toks.drop_last()) {
            None => None,
            Some(vs) => match parse_int_spec(toks.last()) {
                None => None,
                Some(v) => Some(vs.push(v)),
            },
        }
    }
}

/// One unparsable token anywhere makes the whole list unparsable.
pub proof fn lemma_parse_all_none(toks: Seq<Seq<u8>>, i: int)
    requires
        0 <= i < toks.len(),
        parse_int_spec(toks[i]) == None::<i64>,
    ensures
        parse_all(toks) == None::<Seq<i64>>,
    decreases toks.len(),
{
    if i < toks.len() - 1 {
        lemma_parse_all_none(toks.drop_last(), i);
    }
}

/// The program a text denotes: strip whitespace, split at commas, parse
/// every token.
pub open spec fn parse_program_spec(s: Seq<u8>) -> Option<Seq<i64>> {
    parse_all(split_tokens(strip_ws(s)))
}

/// The text with leading whitespace removed.
pub open spec fn trim_front(s: Seq<u8>) -> Seq<u8>
    decreases s.len(),
{
    if s.len() > 0 && is_ws(s[0]) {
        trim_front(s.drop_first())
    } else {
        s
    }
}

/// The text with trailing whitespace removed.
pub open spec fn trim_back(s: Seq<u8>) -> Seq<u8>
    decreases s.len(),
{
    if s.len() > 0 && is_ws(s.last()) {
        trim_back(s.drop_last())
    } else {
        s
    }
}

/// The text with whitespace removed at both ends.
pub open spec fn trim_spec(s: Seq<u8>) -> Seq<u8> {
    trim_back(trim_front(s))
}

/// The integer one whitespace-trimmed input line denotes.
pub open spec fn parse_input_spec(s: Seq<u8>) -> Option<i64> {
    parse_int_spec(trim_spec(s))
}

/// Whether a byte is whitespace; the executable twin of [`is_ws`].
fn is_ws_byte(c: u8) -> (b: bool)
    ensures
        b == is_ws(c),
{
    c == 32 || (9 <= c && c <= 13)
}

/// Parse one token as a signed 64-bit integer: an optional sign, then
/// one or more decimal digits; `None` when the token is empty, holds a
/// non-digit, or denotes a value outside the 64-bit range.
pub fn parse_int(tok: &Vec<u8>) -> (r: Option<i64>)
    ensures
        r == parse_int_spec(tok@),
{
    let n: usize = tok.len();
    let mut i: usize = 0;
    let mut neg: bool = false;
    if n > 0 && (tok[0] == 43 || tok[0] == 45) {
        neg = tok[0] == 45;
        i = 1;
    }
    let ghost mag = tok@.skip(i as int);
    proof {
        if i == 1 {
            assert(tok@.drop_first() =~= mag);
        } else {
            assert(tok@.skip(0) =~= tok@);
        }
    }
    if i >= n {
        return None;
    }
    // Accumulate the magnitude, clamped just past the 64-bit range:
    // 0x8000_0000_0000_0000 is the largest magnitude any sign can use,
    // and the clamp value one above it stands for "too large".
    let mut acc: u64 = 0;
    let mut j: usize = i;
    while j < n
        invariant
            i <= j <= n,
            n == tok.len(),
            i <= 1,
            mag == tok@.skip(i as int),
            parse_int_spec(tok@) == parse_mag(mag, neg),
            all_digits(mag.subrange(0, j - i)),
            if digits_val(mag.subrange(0, j - i)) <= 0x8000_0000_0000_0000u64 {
                acc == digits_val(mag.subrange(0, j - i))
            } else {
                acc == 0x8000_0000_0000_0001u64
            },
        decreases n - j,
    {
        let c: u8 = tok[j];
        if c < 48 || c > 57 {
            proof {
                assert(mag[j - i] == c);
                assert(!is_digit(mag[j - i]));
                assert(!all_digits(mag));
            }
            return None;
        }
        let ghost pre = mag.subrange(0, j - i);
        proof {
            assert(mag.subrange(0, j + 1 - i).drop_last() =~= pre);
            assert(mag.subrange(0, j + 1 - i).last() == c);
        }
        let d: u64 = (c - 48) as u64;
        if acc > 0x8000_0000_0000_0000u64 {
            acc = 0x8000_0000_0000_0001u64;
        } else {
            let t: u128 = acc as u128 * 10 + d as u128;
            if t > 0x8000_0000_0000_0000u128 {
                acc = 0x8000_0000_0000_0001u64;
            } else {
                acc = t as u64;
            }
        }
        j = j + 1;
    }
    proof {
        assert(mag.subrange(0, n - i) =~= mag);
    }
    if neg {
        if acc > 0x8000_0000_0000_0000u64 {
            None
        } else {
            Some((-(acc as i128)) as i64)
        }
    } else {
        if acc > 0x7fff_ffff_ffff_ffffu64 {
            None
        } else {
            Some(acc as i64)
        }
    }
}

/// Parse a whole program text: whitespace is dropped anywhere, the rest
/// is split at commas, and every token must be an integer.
pub fn parse_program(bytes: &Vec<u8>) -> (r: Result<Vec<i64>, LoadError>)
    ensures
        match r {
            Ok(v) => parse_program_spec(bytes@) == Some(v@),
            Err(e) => parse_program_spec(bytes@) == None::<Seq<i64>> && e
                == LoadError::MalformedProgram,
        },
{
    let n: usize = bytes.len();
    let mut cleaned: Vec<u8> = Vec::new();
    let mut i: usize = 0;
    while i < n
        invariant
            i <= n,
            n == bytes.len(),
            cleaned@ == strip_ws(bytes@.subrange(0, i as int)),
        decreases n - i,
    {
        let c: u8 = bytes[i];
        proof {
            assert(bytes@.subrange(0, i + 1).drop_last() =~= bytes@.subrange(0, i as int));
            assert(bytes@.subrange(0, i + 1).last() == c);
        }
        if !is_ws_byte(c) {
            cleaned.push(c);
        }
        i = i + 1;
    }
    proof {
        assert(bytes@.subrange(0, n as int) =~= bytes@);
    }
    let m: usize = cleaned.len();
    let mut toks: Vec<Vec<u8>> = Vec::new();
    let mut cur: Vec<u8> = Vec::new();
    let mut j: usize = 0;
    while j < m
        invariant
            j <= m,
            m == cleaned.len(),
            cleaned@ == strip_ws(bytes@),
            toks.deep_view().push(cur@) =~~= split_tokens(cleaned@.subrange(0, j as int)),
        decreases m - j,
    {
        let c: u8 = cleaned[j];
        proof {
            assert(cleaned@.subrange(0, j + 1).drop_last() =~= cleaned@.subrange(0, j as int));
            assert(cleaned@.subrange(0, j + 1).last() == c);
            lemma_split_tokens_nonempty(cleaned@.subrange(0, j as int));
        }
        let ghost toks_pre = toks.deep_view();
        let ghost cur_pre = cur@;
        if c == 44 {
            toks.push(cur);
            cur = Vec::new();
            proof {
                assert(toks.deep_view() =~~= toks_pre.push(cur_pre));
                assert(toks.deep_view().push(cur@) =~~= split_tokens(
                    cleaned@.subrange(0, j + 1),
                ));
            }
        } else {
            cur.push(c);
            proof {
                assert(toks.deep_view().push(cur@) =~~= split_tokens(
                    cleaned@.subrange(0, j + 1),
                ));
            }
        }
        j = j + 1;
    }
    proof {
        assert(cleaned@.subrange(0, m as int) =~= cleaned@);
    }
    toks.push(cur);
    let ghost all_toks = toks.deep_view();
    proof {
        assert(all_toks =~~= split_tokens(cleaned@));
    }
    let k: usize = toks.len();
    let mut vals: Vec<i64> = Vec::new();
    let mut t: usize = 0;
    while t < k
        invariant
            t <= k,
            k == toks.len(),
            all_toks == toks.deep_view(),
            all_toks == split_tokens(strip_ws(bytes@)),
            parse_all(all_toks.subrange(0, t as int)) == Some(vals@),
        decreases k - t,
    {
        proof {
            assert(all_toks.subrange(0, t + 1).drop_last() =~= all_toks.subrange(0, t as int));
            assert(all_toks.subrange(0, t + 1).last() == toks[t as int]@);
        }
        match parse_int(&toks[t]) {
            None => {
                proof {
                    lemma_parse_all_none(all_toks, t as int);
                }
                return Err(LoadError::MalformedProgram);
            },
            Some(v) => {
                vals.push(v);
            },
        }
        t = t + 1;
    }
    proof {
        assert(all_toks.subrange(0, k as int) =~= all_toks);
    }
    Ok(vals)
}

/// Parse one input line for the machine's `Input` instruction: the line
/// is trimmed of whitespace at both ends and must then be one integer
/// token; anything else is the `InvalidInput` fault.
pub fn parse_input_token(line: &Vec<u8>) -> (r: Result<i64, Fault>)
    ensures
        match r {
            Ok(v) => parse_input_spec(line@) == Some(v),
            Err(f) => parse_input_spec(line@) == None::<i64> && f == Fault::InvalidInput,
        },
{
    let n: usize = line.len();
    proof {
        assert(line@.skip(0) =~= line@);
    }
    let mut a: usize = 0;
    while a < n && is_ws_byte(line[a])
        invariant
            a <= n,
            n == line.len(),
            trim_front(line@.skip(a as int)) == trim_front(line@),
        decreases n - a,
    {
        proof {
            assert(line@.skip(a as int)[0] == line@[a as int]);
            assert(line@.skip(a as int).drop_first() =~= line@.skip(a + 1));
        }
        a = a + 1;
    }
    proof {
        assert(trim_front(line@) == line@.skip(a as int));
    }
    let mut b: usize = n;
    while b > a && is_ws_byte(line[b - 1])
        invariant
            a <= b <= n,
            n == line.len(),
            trim_front(line@) == line@.skip(a as int),
            trim_back(line@.subrange(a as int, b as int)) == trim_spec(line@),
        decreases b,
    {
        proof {
            assert(line@.subrange(a as int, b as int).last() == line@[b - 1]);
            assert(line@.subrange(a as int, b as int).drop_last() =~= line@.subrange(
                a as int,
                b - 1,
            ));
        }
        b = b - 1;
    }
    proof {
        assert(line@.subrange(a as int, b as int) == trim_spec(line@));
    }
    let mut tok: Vec<u8> = Vec::new();
    let mut j: usize = a;
    while j < b
        invariant
            a <= j <= b <= n,
            n == line.len(),
            tok@ == line@.subrange(a as int, j as int),
        decreases b - j,
    {
        proof {
            assert(line@.subrange(a as int, j + 1).drop_last() =~= line@.subrange(
                a as int,
                j as int,
            ));
            assert(line@.subrange(a as int, j + 1).last() == line@[j as int]);
        }
        tok.push(line[j]);
        proof {
            assert(tok@ =~= line@.subrange(a as int, j + 1));
        }
        j = j + 1;
    }
    match parse_int(&tok) {
        Some(v) => Ok(v),
        None => Err(Fault::InvalidInput),
    }
}

} // verus!
