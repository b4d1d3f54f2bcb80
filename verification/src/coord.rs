//! Parsing of human-readable board coordinates: a column letter (`A` up to
//! the grid side, case-insensitive) immediately followed by a 1-based row
//! number. On success the zero-based `(column, row)` pair is returned.

use vstd::prelude::*;

use crate::error::PlaceError;

verus! {

/// Side length of the square board.
pub const GRID_SIZE: usize = 10;

/// Zero-based column index a character denotes: a Latin letter, in either
/// case, maps to its alphabet position; any other character maps to -1,
/// which no grid admits.
pub open spec fn col_index(c: char) -> int {
    if 'A' as int <= c as int <= 'Z' as int {
        c as int - 'A' as int
    } else if 'a' as int <= c as int <= 'z' as int {
        c as int - 'a' as int
    } else {
        -1
    }
}

/// Whether a character is a decimal digit.
pub open spec fn is_digit(c: char) -> bool {
    '0' as int <= c as int <= '9' as int
}

/// Numeric value of a decimal digit character.
pub open spec fn digit_val(c: char) -> int {
    c as int - '0' as int
}

/// Whether every character of the sequence is a decimal digit.
pub open spec fn all_digits(s: Seq<char>) -> bool {
    forall|i: int| 0 <= i < s.len() ==> is_digit(#[trigger] s[i])
}

/// Value of a sequence of decimal digit characters, most significant first.
pub open spec fn digits_val(s: Seq<char>) -> int
    decreases s.len(),
{
    if s.len() == 0 {
        0
    } else {
        digits_val(s.drop_last()) * 10 + digit_val(s.last())
    }
}

pub proof fn lemma_digits_val_nonneg(s: Seq<char>)
    requires
        all_digits(s),
    ensures
        digits_val(s) >= 0,
    decreases s.len(),
{
    if s.len() > 0 {
        assert(all_digits(s.drop_last()));
        lemma_digits_val_nonneg(s.drop_last());
    }
}

/// What `parse` returns on each input: the errors in their checking order
/// (too short, then a non-numeric row, then a position off the grid), or the
/// zero-based coordinate pair.
pub open spec fn parse_spec(s: Seq<char>) -> Result<(int, int), PlaceError> {
    if s.len() < 2 {
        Err(PlaceError::InvalidFormat)
    } else if !all_digits(s.skip(1)) {
        Err(PlaceError::InvalidNumber)
    } else {
        let col = col_index(s[0]);
        let row = digits_val(s.skip(1));
        if col < 0 || col >= GRID_SIZE as int || row == 0 || row > GRID_SIZE as int {
            Err(PlaceError::OutOfBounds)
        } else {
            Ok((col, row - 1))
        }
    }
}

/// Parse a coordinate such as "B4" or "j10" to a zero-based
/// `(column, row)` pair, both below `GRID_SIZE`.
pub fn parse_coordinate(text: &str) -> (r: Result<(usize, usize), PlaceError>)
    ensures
        match r {
            Ok(p) => parse_spec(text@) == Ok::<(int, int), PlaceError>((p.0 as int, p.1 as int))
                && p.0 < GRID_SIZE && p.1 < GRID_SIZE,
            Err(e) => parse_spec(text@) == Err::<(int, int), PlaceError>(e),
        },
{
    let n = text.unicode_len();
    if n < 2 {
        return Err(PlaceError::InvalidFormat);
    }
    let mut i: usize = 1;
    // Row value, capped just past the grid side: one more digit can only
    // grow the value, so anything that once exceeded the side stays refused.
    let mut val: usize = 0;
    while i < n
        invariant
            1 <= i <= n,
            n == text@.len(),
            all_digits(text@.subrange(1, i as int)),
            val <= GRID_SIZE + 1,
            digits_val(text@.subrange(1, i as int)) <= GRID_SIZE as int ==> val == digits_val(
                text@.subrange(1, i as int),
            ),
            digits_val(text@.subrange(1, i as int)) > GRID_SIZE as int ==> val == GRID_SIZE + 1,
        decreases n - i,
    {
        let c = text.get_char(i);
        let cu = c as u32;
        if !(48 <= cu && cu <= 57) {
            proof {
                assert(text@.skip(1)[i - 1] == c);
                assert(!all_digits(text@.skip(1)));
            }
            return Err(PlaceError::InvalidNumber);
        }
        let d = (cu - 48) as usize;
        proof {
            let prev = text@.subrange(1, i as int);
            let ext = text@.subrange(1, i + 1 as int);
            assert(ext.drop_last() =~= prev);
            assert(ext.last() == c);
            assert(digits_val(ext) == digits_val(prev) * 10 + d);
            lemma_digits_val_nonneg(prev);
        }
        if val <= GRID_SIZE {
            let nv: usize = val * 10 + d;
            if nv > GRID_SIZE {
                val = GRID_SIZE + 1;
            } else {
                val = nv;
            }
        }
        i += 1;
    }
    proof {
        assert(text@.subrange(1, n as int) =~= text@.skip(1));
    }
    let c0 = text.get_char(0);
    let cu = c0 as u32;
    let col: usize;
    if 65 <= cu && cu <= 90 {
        col = (cu - 65) as usize;
    } else if 97 <= cu && cu <= 122 {
        col = (cu - 97) as usize;
    } else {
        return Err(PlaceError::OutOfBounds);
    }
    if col >= GRID_SIZE || val == 0 || val > GRID_SIZE {
        return Err(PlaceError::OutOfBounds);
    }
    Ok((col, val - 1))
}

/// Canonical coordinate text: an upper-case column letter on the grid,
/// followed by a row number 1 to 10 without leading zeros.
pub open spec fn canonical_coordinate(s: Seq<char>) -> bool {
    &&& 'A' as int <= s[0] as int <= 'J' as int
    &&& ((s.len() == 2 && is_digit(s[1]) && digit_val(s[1]) >= 1) || (s.len() == 3 && s[1] == '1'
        && s[2] == '0'))
}

/// Every canonical coordinate parses, and round-trips: the pair is in
/// bounds, the column is the letter's alphabet position, and the row is one
/// less than the written number.
pub proof fn lemma_parse_canonical(s: Seq<char>)
    requires
        canonical_coordinate(s),
    ensures
        parse_spec(s) == Ok::<(int, int), PlaceError>(
            (s[0] as int - 'A' as int, digits_val(s.skip(1)) - 1),
        ),
        0 <= (s[0] as int - 'A' as int) < (GRID_SIZE as int),
        0 <= (digits_val(s.skip(1)) - 1) < (GRID_SIZE as int),
{
    let t = s.skip(1);
    if s.len() == 2 {
        assert(t.len() == 1);
        assert(t.last() == s[1]);
        assert(t.drop_last().len() == 0);
        assert(digits_val(t.drop_last()) == 0);
        assert(digits_val(t) == digit_val(s[1]));
        assert(all_digits(t)) by {
            assert(forall|i: int| 0 <= i < t.len() ==> t[i] == s[1]);
        }
    } else {
        assert(t.len() == 2);
        assert(t.last() == s[2]);
        assert(t.drop_last() =~= seq![s[1]]);
        assert(t.drop_last().last() == s[1]);
        assert(t.drop_last().drop_last().len() == 0);
        assert(digits_val(t.drop_last().drop_last()) == 0);
        assert(digits_val(t.drop_last()) == digit_val(s[1]));
        assert(digits_val(t) == digit_val(s[1]) * 10 + digit_val(s[2]));
        assert(digit_val(s[1]) == 1);
        assert(digit_val(s[2]) == 0);
        assert(all_digits(t)) by {
            assert(forall|i: int| 0 <= i < t.len() ==> t[i] == s[1] || t[i] == s[2]);
        }
    }
}

/// `parse` is total: every text either yields an in-bounds zero-based pair
/// or one of the three parse failures.
pub proof fn lemma_parse_total(s: Seq<char>)
    ensures
        match parse_spec(s) {
            Ok(p) => 0 <= p.0 < GRID_SIZE as int && 0 <= p.1 < GRID_SIZE as int,
            Err(e) => e == PlaceError::InvalidFormat || e == PlaceError::InvalidNumber || e
                == PlaceError::OutOfBounds,
        },
{
    if s.len() >= 2 && all_digits(s.skip(1)) {
        lemma_digits_val_nonneg(s.skip(1));
    }
}

} // verus!
