//! Why one sampling cycle produced no snapshot.

use vstd::prelude::*;

verus! {

#[derive(Clone, Copy, Debug, PartialEq, Eq, Structural)]
pub enum SampleError {
    /// The text holds no reading in the expected form.
    Format,
    /// A number in the text is too large for a reading.
    OutOfRange,
    /// The converter transaction failed.
    Adc,
    /// The reading has a zero denominator, so its value is not finite.
    NotFinite,
}

} // verus!
