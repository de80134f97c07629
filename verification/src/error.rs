//! What a driver operation can fail with.

use vstd::prelude::*;

verus! {

/// The failure of a driver operation.
#[derive(Debug)]
pub enum DriverError<E> {
    /// The bus refused a write; the transport's own error is kept as it came.
    I2C(E),
    /// A column beyond the matrix was asked for: the column given, then the
    /// number of columns that the matrix has.
    InvalidColumnNumber(u8, u8),
    /// A bitmap was drawn on a matrix that is not 8 by 8.
    IncorrectMatrixSize,
}

impl<E> DriverError<E> {
    /// The error for column `actual` on a matrix of `max_column` columns.
    pub fn invalid_column(actual: u8, max_column: u8) -> (e: Self)
        ensures
            e == DriverError::<E>::InvalidColumnNumber(actual, max_column),
    {
        DriverError::InvalidColumnNumber(actual, max_column)
    }
}

} // verus!
