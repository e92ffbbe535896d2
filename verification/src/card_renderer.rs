//! Building blocks for client-side dynamic card text.
use vstd::prelude::*;

verus! {

/// Whether a dynamic-code segment is literal text or code to evaluate.
pub enum DynCodeSegmentType {
    RawText,
    Code,
}

/// One segment of dynamic card text.
pub struct DynCode {
    pub segment_type: DynCodeSegmentType,
    pub raw_string: String,
}

} // verus!
