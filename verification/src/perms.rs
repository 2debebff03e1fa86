//! Decoding of POSIX permission bits into symbolic `rwx`-style text.

use vstd::prelude::*;

verus! {

/// The symbolic three-character form of one octal permission digit.
pub open spec fn spec_symbolic(digit: u32) -> Seq<char> {
    if digit == 7 {
        "rwx"@
    } else if digit == 6 {
        "rw-"@
    } else if digit == 5 {
        "r-x"@
    } else if digit == 4 {
        "r--"@
    } else if digit == 3 {
        "-wx"@
    } else if digit == 2 {
        "-w-"@
    } else {
        if digit == 1 {
            "--x"@
        } else {
            "---"@
        }
    }
}

/// Decodes one octal permission digit (a 3-bit read/write/execute group) into
/// its symbolic form: `7` is `rwx`, `6` is `rw-`, and so on down to `0`, `---`.
/// Digits outside `0..=7` are a caller defect and are ruled out up front.
/// The full symbolic permission string of a 9-bit permission value: the
/// symbolic forms of the owner, group and other octal digits, in that order.
pub open spec fn spec_symbolic_full(bits: u32) -> Seq<char> {
    spec_symbolic((bits >> 6) & 7) + spec_symbolic((bits >> 3) & 7) + spec_symbolic(bits & 7)
}

/// Decodes a permission value into its nine-character symbolic string, one
/// three-character group each for owner, group and other. Only the low nine
/// bits matter; higher bits are ignored.
pub fn symbolic_full(bits: u32) -> (r: String)
    ensures
        r@ == spec_symbolic_full(bits),
{
    let owner = (bits >> 6) & 7;
    let group = (bits >> 3) & 7;
    let other = bits & 7;
    assert(owner < 8 && group < 8 && other < 8) by (bit_vector)
        requires
            owner == (bits >> 6) & 7 && group == (bits >> 3) & 7 && other == bits & 7,
    ;
    let mut out = String::new();
    out.append(symbolic(owner));
    out.append(symbolic(group));
    out.append(symbolic(other));
    proof {
        assert(out@ =~= spec_symbolic_full(bits));
    }
    out
}

pub fn symbolic(digit: u32) -> (r: &'static str)
    requires
        digit < 8,
    ensures
        r@ == spec_symbolic(digit),
{
    if digit == 7 {
        "rwx"
    } else if digit == 6 {
        "rw-"
    } else if digit == 5 {
        "r-x"
    } else if digit == 4 {
        "r--"
    } else if digit == 3 {
        "-wx"
    } else if digit == 2 {
        "-w-"
    } else if digit == 1 {
        "--x"
    } else {
        "---"
    }
}

} // verus!
