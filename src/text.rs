//! The text form of a matrix: rows separated by commas, the values of a row
//! by spaces, the whole wrapped in braces.
use vstd::prelude::*;
use vstd::string::StringExecFns;

use crate::matrix::Matrix;

verus! {

/// The character of a decimal digit.
pub open spec fn digit_char(d: nat) -> char {
    if d == 0 { '0' }
    else if d == 1 { '1' }
    else if d == 2 { '2' }
    else if d == 3 { '3' }
    else if d == 4 { '4' }
    else if d == 5 { '5' }
    else if d == 6 { '6' }
    else if d == 7 { '7' }
    else if d == 8 { '8' }
    else { '9' }
}

/// The decimal digits of `n`, most significant first, without leading zeros.
pub open spec fn digits(n: nat) -> Seq<char>
    decreases n,
{
    if n < 10 {
        seq![digit_char(n)]
    } else {
        digits(n / 10) + seq![digit_char(n % 10)]
    }
}

/// The decimal form of `v`, with a leading `-` when it is negative.
pub open spec fn decimal(v: int) -> Seq<char> {
    if v < 0 {
        seq!['-'] + digits((-v) as nat)
    } else {
        digits(v as nat)
    }
}

/// Relies on `i64`'s `to_string` (its `Display`): the decimal form of the
/// value.
#[verifier::external_body]
pub(crate) fn i64_text(v: i64) -> (r: String)
    ensures
        r@ == decimal(v as int),
{
    v.to_string()
}

/// The first `k` values of row `i` (counted from 0), separated by spaces.
pub open spec fn row_text(m: Matrix<i64>, i: int, k: nat) -> Seq<char>
    decreases k,
{
    if k == 0 {
        Seq::empty()
    } else if k == 1 {
        decimal(m.at(i, 0) as int)
    } else {
        row_text(m, i, (k - 1) as nat) + seq![' '] + decimal(m.at(i, k - 1) as int)
    }
}

/// The first `k` rows, separated by commas.
pub open spec fn rows_text(m: Matrix<i64>, k: nat) -> Seq<char>
    decreases k,
{
    if k == 0 {
        Seq::empty()
    } else if k == 1 {
        row_text(m, 0, m.column as nat)
    } else {
        rows_text(m, (k - 1) as nat) + seq![','] + row_text(m, k - 1, m.column as nat)
    }
}

/// The text form of `m`.
pub open spec fn matrix_text(m: Matrix<i64>) -> Seq<char> {
    seq!['{'] + rows_text(m, m.row as nat) + seq!['}']
}

impl Matrix<i64> {
    /// The matrix as text, for instance `{1 2 3,4 5 6}`.
    pub fn to_string(&self) -> (r: String)
        requires
            self.wf(),
        ensures
            r@ == matrix_text(*self),
    {
        proof {
            reveal_strlit("{");
        }
        let mut out = String::new();
        out.append("{");
        let mut i: usize = 0;
        while i < self.row
            invariant
                self.wf(),
                i <= self.row,
                out@ == seq!['{'] + rows_text(*self, i as nat),
            decreases self.row - i,
        {
            proof {
                reveal_strlit(",");
            }
            if i > 0 {
                out.append(",");
            }
            let ghost before = out@;
            let ghost sep: Seq<char> = if i > 0 { seq![','] } else { Seq::empty() };
            assert(before =~= seq!['{'] + rows_text(*self, i as nat) + sep);
            let mut j: usize = 0;
            while j < self.column
                invariant
                    self.wf(),
                    i < self.row,
                    j <= self.column,
                    out@ == before + row_text(*self, i as int, j as nat),
                decreases self.column - j,
            {
                proof {
                    reveal_strlit(" ");
                }
                if j > 0 {
                    out.append(" ");
                }
                let v = i64_text(*self.value(i + 1, j + 1).unwrap());
                out.append(v.as_str());
                proof {
                    assert(out@ =~= before + row_text(*self, i as int, (j + 1) as nat));
                }
                j = j + 1;
            }
            proof {
                if i == 0 {
                    assert(rows_text(*self, 0) =~= Seq::empty());
                    assert(out@ =~= seq!['{'] + rows_text(*self, 1));
                } else {
                    assert(out@ =~= seq!['{'] + rows_text(*self, (i + 1) as nat));
                }
            }
            i = i + 1;
        }
        proof {
            reveal_strlit("}");
        }
        out.append("}");
        out
    }
}

} // verus!
