//! Instance creation under a custom name.

use crate::analysis::AnalysedType;
use vstd::prelude::*;

verus! {

/// Allows instance creation under a custom name (not only `instance`) with typed parameters.
#[derive(Debug)]
pub struct CustomInstanceSpec {
    pub instance_name: String,
    pub parameter_types: Vec<AnalysedType>,
}

impl CustomInstanceSpec {
    pub fn new(instance_name: String, parameter_types: Vec<AnalysedType>) -> (s: CustomInstanceSpec)
        ensures
            s.instance_name == instance_name,
            s.parameter_types == parameter_types,
    {
        CustomInstanceSpec { instance_name, parameter_types }
    }
}

} // verus!
