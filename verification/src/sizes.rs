use vstd::prelude::*;
use vstd::string::*;
use crate::matching::CullError;

verus! {

/// What `parse_size::parse_size` makes of a size string: a function of the
/// string alone.
pub uninterp spec fn parsed_size(s: Seq<char>) -> Option<u64>;

/// An ASCII decimal digit.
pub open spec fn size_digit(c: char) -> bool {
    48 <= c as u32 <= 57
}

/// A character the size grammar passes over while reading digits: the
/// fraction point and the digit-grouping fillers.
pub open spec fn size_filler(c: char) -> bool {
    c == '.' || c == '_' || c == ' '
}

/// The digits the size parser accumulates into its mantissa: the digits of
/// the integer and fraction parts in order, up to the first character that is
/// neither a digit nor passed over (an exponent marker, a unit, or anything
/// invalid).
pub open spec fn mantissa_digits(s: Seq<char>) -> Seq<char>
    decreases s.len(),
{
    if s.len() == 0 {
        Seq::empty()
    } else if size_digit(s[0]) {
        seq![s[0]] + mantissa_digits(s.drop_first())
    } else if size_filler(s[0]) {
        mantissa_digits(s.drop_first())
    } else {
        Seq::empty()
    }
}

/// The digits with leading zeros removed.
pub open spec fn strip_leading_zeros(d: Seq<char>) -> Seq<char>
    decreases d.len(),
{
    if d.len() > 0 && d[0] == '0' {
        strip_leading_zeros(d.drop_first())
    } else {
        d
    }
}

/// The decimal digits of the largest `u64` value.
pub open spec fn max_u64_digits() -> Seq<char> {
    seq!['1', '8', '4', '4', '6', '7', '4', '4', '0', '7', '3', '7', '0', '9', '5', '5', '1', '6', '1', '5']
}

/// The size strings on which `parse_size::parse_size` is not panic-free: a
/// mantissa that reaches exactly the largest `u64` value and is followed by a
/// digit of five or more trips an unchecked rounding increment, and a run of
/// two-to-the-31st digits or more overflows a 32-bit exponent counter.
pub open spec fn overflows_size_parse(s: Seq<char>) -> bool {
    let t = strip_leading_zeros(mantissa_digits(s));
    ||| mantissa_digits(s).len() >= 0x8000_0000
    ||| (t.len() >= 21 && t.take(20) == max_u64_digits() && 53 <= t[20] as u32 <= 57)
}

proof fn lemma_strip_at(d: Seq<char>, k: int)
    requires
        0 <= k <= d.len(),
        forall|j: int| 0 <= j < k ==> d[j] == '0',
        k < d.len() ==> d[k] != '0',
    ensures
        strip_leading_zeros(d) == d.skip(k),
    decreases k,
{
    if k == 0 {
        assert(d.skip(0) =~= d);
    } else {
        assert(d[0] == '0');
        assert(forall|j: int| 0 <= j < k - 1 ==> d.drop_first()[j] == '0');
        lemma_strip_at(d.drop_first(), k - 1);
        assert(d.drop_first().skip(k - 1) =~= d.skip(k));
    }
}

/// Whether the size parser would overflow on this string.
fn size_overflows(s: &str) -> (r: bool)
    ensures
        r == overflows_size_parse(s@),
{
    let ghost sq = s@;
    let n = s.unicode_len();
    let mut digits: Vec<char> = Vec::new();
    let mut i: usize = 0;
    proof {
        assert(sq.skip(0) =~= sq);
        assert(digits@ + mantissa_digits(sq) =~= mantissa_digits(sq));
    }
    loop
        invariant_except_break
            i <= sq.len(),
            n == sq.len(),
            sq == s@,
            mantissa_digits(sq) == digits@ + mantissa_digits(sq.skip(i as int)),
        ensures
            mantissa_digits(sq) == digits@,
        decreases n - i,
    {
        if i >= n {
            proof {
                assert(sq.skip(i as int) =~= Seq::<char>::empty());
                assert(digits@ + Seq::<char>::empty() =~= digits@);
            }
            break ;
        }
        let c = s.get_char(i);
        proof {
            assert(sq.skip(i as int)[0] == sq[i as int]);
            assert(sq.skip(i as int).drop_first() =~= sq.skip(i as int + 1));
        }
        let u = c as u32;
        if 48 <= u && u <= 57 {
            let ghost dbefore = digits@;
            digits.push(c);
            proof {
                assert(size_digit(sq[i as int]));
                assert(digits@ =~= dbefore + seq![c]);
                assert((dbefore + seq![c]) + mantissa_digits(sq.skip(i as int + 1)) =~= dbefore + (
                seq![c] + mantissa_digits(sq.skip(i as int + 1))));
            }
        } else if c == '.' || c == '_' || c == ' ' {
            proof {
                assert(!size_digit(sq[i as int]));
                assert(size_filler(sq[i as int]));
            }
        } else {
            proof {
                assert(!size_digit(sq[i as int]));
                assert(!size_filler(sq[i as int]));
                assert(mantissa_digits(sq.skip(i as int)) =~= Seq::<char>::empty());
                assert(digits@ + Seq::<char>::empty() =~= digits@);
            }
            break ;
        }
        i = i + 1;
    }
    if digits.len() >= 0x8000_0000usize {
        return true;
    }
    let mut k: usize = 0;
    while k < digits.len() && digits[k] == '0'
        invariant
            k <= digits@.len(),
            forall|j: int| 0 <= j < k ==> digits@[j] == '0',
        decreases digits@.len() - k,
    {
        k = k + 1;
    }
    proof {
        lemma_strip_at(digits@, k as int);
    }
    let ghost t = strip_leading_zeros(digits@);
    if digits.len() - k < 21 {
        return false;
    }
    let pattern: Vec<char> = vec![
        '1', '8', '4', '4', '6', '7', '4', '4', '0', '7', '3', '7', '0', '9', '5', '5', '1', '6',
        '1', '5',
    ];
    proof {
        assert(pattern@ =~= max_u64_digits());
    }
    let mut j: usize = 0;
    while j < 20
        invariant
            j <= 20,
            k + 20 < digits@.len(),
            digits@ == mantissa_digits(s@),
            digits@.len() < 0x8000_0000,
            t == strip_leading_zeros(digits@),
            t == digits@.skip(k as int),
            pattern@ == max_u64_digits(),
            pattern@.len() == 20,
            forall|jj: int| 0 <= jj < j ==> t[jj] == max_u64_digits()[jj],
        decreases 20 - j,
    {
        if digits[k + j] != pattern[j] {
            proof {
                assert(t[j as int] != max_u64_digits()[j as int]);
                assert(t.take(20)[j as int] == t[j as int]);
            }
            return false;
        }
        j = j + 1;
    }
    proof {
        assert(t.take(20) =~= max_u64_digits());
    }
    let c = digits[k + 20];
    let u = c as u32;
    53 <= u && u <= 57
}

/// Relies on `parse_size::parse_size`: parses a byte count, bare or with a
/// binary or decimal unit suffix; the result depends on the string alone.
/// The strings on which the call's rounding increment or exponent counter
/// would overflow are excluded and screened off by the caller.
#[verifier::external_body]
fn parse_size_str(s: &str) -> (r: Option<u64>)
    requires
        !overflows_size_parse(s@),
    ensures
        r == parsed_size(s@),
{
    parse_size::parse_size(s).ok()
}

/// Parses the maximum-size argument: a byte count, bare or with a unit
/// suffix. A string that does not parse is a fatal configuration fault, and
/// so is one of the rare strings on which the size grammar's arithmetic would
/// overflow.
pub fn size_parser(s: &str) -> (r: Result<u64, CullError>)
    ensures
        overflows_size_parse(s@) ==> r == Err::<u64, CullError>(CullError::InvalidSize),
        !overflows_size_parse(s@) ==> (parsed_size(s@) matches Some(v) ==> r == Ok::<
            u64,
            CullError,
        >(v)),
        !overflows_size_parse(s@) && parsed_size(s@) is None ==> r == Err::<
            u64,
            CullError,
        >(CullError::InvalidSize),
{
    if size_overflows(s) {
        return Err(CullError::InvalidSize);
    }
    match parse_size_str(s) {
        Some(v) => Ok(v),
        None => Err(CullError::InvalidSize),
    }
}

} // verus!
