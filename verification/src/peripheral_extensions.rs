//! Extension points for the analog inputs.

use vstd::prelude::*;

verus! {

/// Marks a pin type that can serve as an analog input of the controller.
pub trait AdcPinExtension {

}

} // verus!
