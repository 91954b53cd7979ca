//! Configuration surface: the window-placement choices the program takes
//! on its command line, parsed and decided here; reading the command line
//! itself is the caller's business.

use vstd::prelude::*;

verus! {

/// Which side of the screen the window goes to.
#[derive(Clone, Copy, PartialEq, Eq, Structural, Debug)]
pub enum Side {
    Left,
    Right,
}

/// A display resolution in whole pixels.
#[derive(Clone, Copy, PartialEq, Eq, Structural, Debug)]
pub struct Resolution {
    pub width: u32,
    pub height: u32,
}

/// Failure to read a `"<width>,<height>"` resolution.
#[derive(Clone, Copy, PartialEq, Eq, Structural, Debug)]
pub enum ResolutionError {
    /// No comma separates the two numbers.
    MissingComma,
    /// What stands before the comma is not a number fitting 32 bits.
    BadWidth,
    /// What stands after the comma is not a number fitting 32 bits.
    BadHeight,
}

/// Whether a character is a decimal digit.
pub open spec fn spec_is_digit(c: char) -> bool {
    48 <= c as int <= 57
}

/// The value of a decimal digit character.
pub open spec fn spec_digit_val(c: char) -> int {
    c as int - 48
}

/// The number a digit string denotes, most significant digit first.
pub open spec fn spec_digits_value(s: Seq<char>) -> int
    decreases s.len(),
{
    if s.len() == 0 {
        0
    } else {
        spec_digits_value(s.drop_last()) * 10 + spec_digit_val(s.last())
    }
}

/// Whether a character string denotes a number that fits in 32 bits: at
/// least one character, every character a digit, value within `u32`.
pub open spec fn spec_number_u32(s: Seq<char>) -> bool {
    &&& s.len() > 0
    &&& (forall|i: int| 0 <= i < s.len() ==> spec_is_digit(#[trigger] s[i]))
    &&& spec_digits_value(s) <= u32::MAX
}

/// Whether `i` is the position of the first comma in `s`.
pub open spec fn first_comma_is(s: Seq<char>, i: int) -> bool {
    &&& 0 <= i < s.len()
    &&& s[i] == ','
    &&& (forall|j: int| 0 <= j < i ==> s[j] != ',')
}

proof fn lemma_digits_value_nonneg(s: Seq<char>)
    requires
        forall|i: int| 0 <= i < s.len() ==> spec_is_digit(#[trigger] s[i]),
    ensures
        spec_digits_value(s) >= 0,
    decreases s.len(),
{
    if s.len() > 0 {
        lemma_digits_value_nonneg(s.drop_last());
    }
}

/// A prefix of a digit string never denotes more than the whole string.
proof fn lemma_digits_value_monotone(s: Seq<char>, k: int)
    requires
        forall|i: int| 0 <= i < s.len() ==> spec_is_digit(#[trigger] s[i]),
        0 <= k <= s.len(),
    ensures
        spec_digits_value(s.take(k)) <= spec_digits_value(s),
    decreases s.len() - k,
{
    if k < s.len() {
        lemma_digits_value_nonneg(s.take(k));
        assert(s.take(k + 1).drop_last() =~= s.take(k));
        lemma_digits_value_monotone(s, k + 1);
    } else {
        assert(s.take(k) =~= s);
    }
}

/// Reads the number the characters `from .. to` of `s` denote, or `None`
/// exactly when they are not a number fitting 32 bits.
fn parse_u32_chars(s: &str, from: usize, to: usize) -> (r: Option<u32>)
    requires
        from <= to <= s@.len(),
    ensures
        spec_number_u32(s@.subrange(from as int, to as int)) ==> r == Some(
            spec_digits_value(s@.subrange(from as int, to as int)) as u32,
        ),
        !spec_number_u32(s@.subrange(from as int, to as int)) ==> r is None,
{
    let ghost w = s@.subrange(from as int, to as int);
    if from == to {
        return None;
    }
    let mut acc: u64 = 0;
    let mut i: usize = from;
    while i < to
        invariant
            from <= i <= to <= s@.len(),
            w == s@.subrange(from as int, to as int),
            forall|j: int| 0 <= j < i - from ==> spec_is_digit(#[trigger] w[j]),
            acc as int == spec_digits_value(w.take(i - from)),
            acc <= u32::MAX,
        decreases to - i,
    {
        let c = s.get_char(i);
        let d = c as u32;
        if d < 48 || d > 57 {
            assert(!spec_is_digit(w[i - from]));
            return None;
        }
        let acc2: u64 = acc * 10 + (d - 48) as u64;
        proof {
            assert(w.take(i + 1 - from).drop_last() =~= w.take(i - from));
            assert(w.take(i + 1 - from).last() == w[i - from]);
        }
        if acc2 > 0xffffffff {
            proof {
                if forall|j: int| 0 <= j < w.len() ==> spec_is_digit(#[trigger] w[j]) {
                    lemma_digits_value_monotone(w, i + 1 - from);
                }
            }
            return None;
        }
        acc = acc2;
        i = i + 1;
    }
    proof {
        assert(w.take(w.len() as int) =~= w);
    }
    Some(acc as u32)
}

/// Reads a resolution written `"<width>,<height>"`: the two numbers around
/// the first comma. Fails with `ResolutionError::MissingComma` exactly when
/// no comma occurs, `BadWidth` when what stands before the first comma is
/// not a number fitting 32 bits, and `BadHeight` likewise for what stands
/// after it.
pub fn parse_resolution(s: &str) -> (r: Result<Resolution, ResolutionError>)
    ensures
        (forall|i: int| 0 <= i < s@.len() ==> s@[i] != ',') ==> r == Err::<
            Resolution,
            ResolutionError,
        >(ResolutionError::MissingComma),
        forall|i: int|
            #[trigger] first_comma_is(s@, i) ==> {
                let w = s@.subrange(0, i);
                let h = s@.subrange(i + 1, s@.len() as int);
                &&& (!spec_number_u32(w) ==> r == Err::<Resolution, ResolutionError>(
                    ResolutionError::BadWidth,
                ))
                &&& (spec_number_u32(w) && !spec_number_u32(h) ==> r == Err::<
                    Resolution,
                    ResolutionError,
                >(ResolutionError::BadHeight))
                &&& (spec_number_u32(w) && spec_number_u32(h) ==> r == Ok::<
                    Resolution,
                    ResolutionError,
                >(
                    Resolution {
                        width: spec_digits_value(w) as u32,
                        height: spec_digits_value(h) as u32,
                    },
                ))
            },
{
    let n = s.unicode_len();
    let mut at: usize = 0;
    let mut found = false;
    while !found && at < n
        invariant
            at <= n,
            n == s@.len(),
            !found ==> forall|j: int| 0 <= j < at ==> s@[j] != ',',
            found ==> first_comma_is(s@, at as int),
        decreases n - at + (if found {
            0int
        } else {
            1int
        }),
    {
        if s.get_char(at) == ',' {
            found = true;
        } else {
            at = at + 1;
        }
    }
    if !found {
        return Err(ResolutionError::MissingComma);
    }
    let width = parse_u32_chars(s, 0, at);
    let height = parse_u32_chars(s, at + 1, n);
    proof {
        assert forall|i: int| #[trigger] first_comma_is(s@, i) implies i == at as int by {
            if i < at as int {
                assert(s@[i] == ',');
            }
            if i > at as int {
                assert(s@[at as int] != ',');
            }
        }
    }
    match (width, height) {
        (Some(w), Some(h)) => Ok(Resolution { width: w, height: h }),
        (None, _) => Err(ResolutionError::BadWidth),
        (Some(_), None) => Err(ResolutionError::BadHeight),
    }
}

/// Where the window's left edge goes: the left side starts at zero, the
/// right side starts one window width in.
pub fn window_x_offset(side: Side, width: u32) -> (x: u32)
    ensures
        x == (match side {
            Side::Left => 0u32,
            Side::Right => width,
        }),
{
    match side {
        Side::Left => 0,
        Side::Right => width,
    }
}

} // verus!
