//! The scattering parameters of one measurement.

use crate::scalar::Scalar;
use vstd::prelude::*;

verus! {

/// Reflection S11 and transmission S21 of one point.
#[derive(Clone, Copy, Debug, PartialEq, Eq, Structural)]
pub struct S11S21 {
    pub s11_real: Scalar,
    pub s11_imag: Scalar,
    pub s21_real: Scalar,
    pub s21_imag: Scalar,
}

impl S11S21 {
    pub fn new(
        s11_real: Scalar,
        s11_imag: Scalar,
        s21_real: Scalar,
        s21_imag: Scalar,
    ) -> (result: S11S21)
        ensures
            result == (S11S21 { s11_real, s11_imag, s21_real, s21_imag }),
    {
        S11S21 { s11_real, s11_imag, s21_real, s21_imag }
    }

    /// The row order of real-valued features.
    pub open spec fn real_row(self) -> Seq<Scalar> {
        seq![self.s11_real, self.s11_imag, self.s21_real, self.s21_imag]
    }

    /// The row order of packed complex features: real parts, then imaginary parts.
    pub open spec fn complex_row(self) -> Seq<Scalar> {
        seq![self.s11_real, self.s21_real, self.s11_imag, self.s21_imag]
    }

    /// The values in the row order of real-valued features.
    pub fn as_real_row(&self) -> (result: [Scalar; 4])
        ensures
            result@ == self.real_row(),
    {
        [self.s11_real, self.s11_imag, self.s21_real, self.s21_imag]
    }

    /// The values in the row order of packed complex features.
    pub fn as_complex_row(&self) -> (result: [Scalar; 4])
        ensures
            result@ == self.complex_row(),
    {
        [self.s11_real, self.s21_real, self.s11_imag, self.s21_imag]
    }
}

/// A row of real features lists each parameter with its two parts side by side. A packed row
/// has all real parts before all imaginary ones, and the parameters in the same order.
pub proof fn rows_list_every_part_once(s: S11S21)
    ensures
        s.real_row().len() == 4 && s.complex_row().len() == 4,
        s.real_row()[0] == s.s11_real && s.real_row()[1] == s.s11_imag,
        s.real_row()[2] == s.s21_real && s.real_row()[3] == s.s21_imag,
        forall|p: int|
            0 <= p < 2 ==> #[trigger] s.complex_row()[p] == s.real_row()[2 * p]
                && s.complex_row()[p + 2] == s.real_row()[2 * p + 1],
{
}

} // verus!
