//! Inputs to Rib's type inference.

pub mod custom_instance_spec;

pub use self::custom_instance_spec::CustomInstanceSpec;
