use vstd::prelude::*;
use vstd::string::StringExecFns;

verus! {

/// The character of a decimal digit.
pub open spec fn digit_char(d: nat) -> char {
    if d == 0 { '0' }
    else if d == 1 { '1' }
    else if d == 2 { '2' }
    else if d == 3 { '3' }
    else if d == 4 { '4' }
    else if d == 5 { '5' }
    else if d == 6 { '6' }
    else if d == 7 { '7' }
    else if d == 8 { '8' }
    else { '9' }
}

/// Decimal notation of `n`, most significant digit first, without leading zeros.
pub open spec fn decimal(n: nat) -> Seq<char>
    decreases n,
{
    if n < 10 {
        seq![digit_char(n)]
    } else {
        decimal(n / 10).push(digit_char(n % 10))
    }
}

fn digit_text(d: usize) -> (r: &'static str)
    requires
        d < 10,
    ensures
        r@ == seq![digit_char(d as nat)],
{
    let r = match d {
        0 => "0",
        1 => "1",
        2 => "2",
        3 => "3",
        4 => "4",
        5 => "5",
        6 => "6",
        7 => "7",
        8 => "8",
        _ => "9",
    };
    proof {
        reveal_strlit("0");
        reveal_strlit("1");
        reveal_strlit("2");
        reveal_strlit("3");
        reveal_strlit("4");
        reveal_strlit("5");
        reveal_strlit("6");
        reveal_strlit("7");
        reveal_strlit("8");
        reveal_strlit("9");
        assert(r@ =~= seq![digit_char(d as nat)]);
    }
    r
}

/// Appends the decimal notation of `n` to `s`.
pub fn push_decimal(s: &mut String, n: usize)
    ensures
        final(s)@ == old(s)@ + decimal(n as nat),
    decreases n,
{
    if n >= 10 {
        push_decimal(s, n / 10);
    }
    s.append(digit_text(n % 10));
    proof {
        if n >= 10 {
            assert(old(s)@ + decimal(n as nat) =~= old(s)@ + decimal((n / 10) as nat) + seq![
                digit_char((n % 10) as nat),
            ]);
        } else {
            assert(n % 10 == n);
        }
    }
}

/// The first `k` sizes in decimal, separated by `", "`.
pub open spec fn dims_list(dims: Seq<usize>, k: int) -> Seq<char>
    decreases k,
{
    if k <= 0 {
        seq![]
    } else if k == 1 {
        decimal(dims[0] as nat)
    } else {
        dims_list(dims, k - 1) + ", "@ + decimal(dims[k - 1] as nat)
    }
}

/// A list of sizes as `[d0, d1, ...]`.
pub open spec fn dims_text(dims: Seq<usize>) -> Seq<char> {
    "["@ + dims_list(dims, dims.len() as int) + "]"@
}

/// A range as `start..end`.
pub open spec fn range_text(r: core::ops::Range<usize>) -> Seq<char> {
    decimal(r.start as nat) + ".."@ + decimal(r.end as nat)
}

/// The first `k` ranges, separated by `", "`.
pub open spec fn ranges_list(ranges: Seq<core::ops::Range<usize>>, k: int) -> Seq<char>
    decreases k,
{
    if k <= 0 {
        seq![]
    } else if k == 1 {
        range_text(ranges[0])
    } else {
        ranges_list(ranges, k - 1) + ", "@ + range_text(ranges[k - 1])
    }
}

/// A list of ranges as `[a..b, c..d, ...]`.
pub open spec fn ranges_text(ranges: Seq<core::ops::Range<usize>>) -> Seq<char> {
    "["@ + ranges_list(ranges, ranges.len() as int) + "]"@
}

/// Appends `[d0, d1, ...]` to `s`.
pub fn push_dims(s: &mut String, dims: &Vec<usize>)
    ensures
        final(s)@ == old(s)@ + dims_text(dims@),
{
    let ghost start = s@;
    s.append("[");
    let mut i: usize = 0;
    while i < dims.len()
        invariant
            i <= dims@.len(),
            s@ == start + "["@ + dims_list(dims@, i as int),
        decreases dims@.len() - i,
    {
        let ghost before = s@;
        if i > 0 {
            s.append(", ");
        }
        push_decimal(s, dims[i]);
        proof {
            if i > 0 {
                assert(s@ =~= start + "["@ + (dims_list(dims@, i as int) + ", "@ + decimal(
                    dims@[i as int] as nat,
                )));
            } else {
                assert(s@ =~= start + "["@ + decimal(dims@[0] as nat));
            }
        }
        i = i + 1;
    }
    s.append("]");
}

/// Appends `[a..b, c..d, ...]` to `s`.
pub fn push_ranges(s: &mut String, ranges: &Vec<core::ops::Range<usize>>)
    ensures
        final(s)@ == old(s)@ + ranges_text(ranges@),
{
    let ghost start = s@;
    s.append("[");
    let mut i: usize = 0;
    while i < ranges.len()
        invariant
            i <= ranges@.len(),
            s@ == start + "["@ + ranges_list(ranges@, i as int),
        decreases ranges@.len() - i,
    {
        if i > 0 {
            s.append(", ");
        }
        push_decimal(s, ranges[i].start);
        s.append("..");
        push_decimal(s, ranges[i].end);
        proof {
            if i > 0 {
                assert(s@ =~= start + "["@ + (ranges_list(ranges@, i as int) + ", "@ + range_text(
                    ranges@[i as int],
                )));
            } else {
                assert(s@ =~= start + "["@ + range_text(ranges@[0]));
            }
        }
        i = i + 1;
    }
    s.append("]");
}

} // verus!
