use rib_core::analysis::analysed_type;
use rib_core::compiler::ir::{FunctionReferenceType, InstructionId};
use rib_core::profile::profile_flag_enabled;
use rib_core::type_inference::custom_instance_spec::CustomInstanceSpec;

#[test]
fn profile_flag_accepts_one_true_yes_in_any_case() {
    for v in ["1", "true", "TRUE", "True", "yes", "YeS"] {
        assert!(profile_flag_enabled(v.as_bytes()), "{v}");
    }
    for v in ["", "0", "false", "no", "y", "tru", "truee", " 1", "yes ", "11"] {
        assert!(!profile_flag_enabled(v.as_bytes()), "{v}");
    }
}

#[test]
fn instruction_ids_count_up() {
    let start = InstructionId::init();
    assert_eq!(start, InstructionId::new(0));
    let next = start.increment();
    assert_eq!(next.index, 1);
    assert_eq!(start.index, 0);
    let mut id = InstructionId::new(41);
    let copy = id.increment_mut();
    assert_eq!(id.index, 42);
    assert_eq!(copy, id);
}

#[test]
fn function_reference_types_compare_by_fields() {
    let a = FunctionReferenceType::RawResourceMethod {
        resource: "cart".to_string(),
        method: "add".to_string(),
    };
    assert_eq!(a.clone(), a);
    assert_ne!(
        a,
        FunctionReferenceType::RawResourceStaticMethod {
            resource: "cart".to_string(),
            method: "add".to_string(),
        }
    );
}

#[test]
fn custom_instance_spec_keeps_its_parts() {
    let s = CustomInstanceSpec::new("worker".to_string(), vec![analysed_type::str()]);
    assert_eq!(s.instance_name, "worker");
    assert_eq!(s.parameter_types, vec![analysed_type::str()]);
}
