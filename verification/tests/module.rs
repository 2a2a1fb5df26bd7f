use wadup_core::module::{
    classify_error, classify_outcome, validate_module, CallOutcome, ModuleStyle, ProcessError,
    ResourceLimits, SetupError,
};

fn names(list: &[&str]) -> Vec<String> {
    list.iter().map(|s| s.to_string()).collect()
}

#[test]
fn modules_are_classified_by_their_exports() {
    assert_eq!(validate_module(&names(&["memory", "process"])), Ok(ModuleStyle::Reactor));
    assert_eq!(
        validate_module(&names(&["_initialize", "process", "_start"])),
        Ok(ModuleStyle::Reactor)
    );
    assert_eq!(validate_module(&names(&["memory", "_start"])), Ok(ModuleStyle::Command));
    assert_eq!(validate_module(&names(&["memory", "main"])), Err(SetupError::MissingExport));
    assert_eq!(validate_module(&names(&[])), Err(SetupError::MissingExport));
    assert_eq!(validate_module(&names(&["Process"])), Err(SetupError::MissingExport));
}

#[test]
fn traps_are_classified_by_their_message() {
    assert!(matches!(classify_error("all fuel consumed by WebAssembly"), ProcessError::CpuExhausted));
    assert!(matches!(
        classify_error("wasm trap: call stack exhausted: stack overflow"),
        ProcessError::StackOverflow
    ));
    assert!(matches!(
        classify_error("out of bounds memory access"),
        ProcessError::MemoryLimit
    ));
    assert!(matches!(
        classify_error("fuel and memory and stack overflow"),
        ProcessError::CpuExhausted
    ));
    assert!(matches!(
        classify_error("memory after stack overflow"),
        ProcessError::StackOverflow
    ));
    match classify_error("unreachable executed") {
        ProcessError::ModuleTrap(detail) => assert_eq!(detail, "unreachable executed"),
        other => panic!("unexpected {:?}", other),
    }
    match classify_error("") {
        ProcessError::ModuleTrap(detail) => assert_eq!(detail, ""),
        other => panic!("unexpected {:?}", other),
    }
}

#[test]
fn exit_code_zero_is_success() {
    assert!(classify_outcome(&CallOutcome::Returned(0)).is_none());
    assert!(classify_outcome(&CallOutcome::Exited(0)).is_none());
    assert!(matches!(
        classify_outcome(&CallOutcome::Returned(3)),
        Some(ProcessError::ModuleError(3))
    ));
    assert!(matches!(
        classify_outcome(&CallOutcome::Exited(-1)),
        Some(ProcessError::ModuleError(-1))
    ));
    assert!(matches!(
        classify_outcome(&CallOutcome::Trapped("out of fuel".to_string())),
        Some(ProcessError::CpuExhausted)
    ));
}

#[test]
fn error_texts() {
    assert_eq!(ProcessError::CpuExhausted.message(), "CpuExhausted");
    assert_eq!(ProcessError::MemoryLimit.message(), "MemoryLimit");
    assert_eq!(ProcessError::StackOverflow.message(), "StackOverflow");
    assert_eq!(ProcessError::ModuleError(7).message(), "ModuleError(7)");
    assert_eq!(ProcessError::ModuleError(-120).message(), "ModuleError(-120)");
    assert_eq!(ProcessError::ModuleError(0).message(), "ModuleError(0)");
    assert_eq!(ProcessError::ModuleError(i32::MIN).message(), "ModuleError(-2147483648)");
    assert_eq!(ProcessError::ModuleError(i32::MAX).message(), "ModuleError(2147483647)");
    assert_eq!(
        ProcessError::ModuleTrap("unreachable".to_string()).message(),
        "ModuleTrap(unreachable)"
    );
    assert_eq!(ProcessError::ModuleTrap("x".to_string()).clone().message(), "ModuleTrap(x)");
}

#[test]
fn memory_may_grow_up_to_the_cap() {
    let limits = ResourceLimits { fuel: Some(1_000_000), max_memory: Some(65536), max_stack: None };
    assert!(limits.memory_growing(0, 65536));
    assert!(!limits.memory_growing(0, 65537));
    assert!(limits.memory_growing(65536, 0));
    assert!(limits.table_growing(0, usize::MAX));
    let unlimited = ResourceLimits { fuel: None, max_memory: None, max_stack: None };
    assert!(unlimited.memory_growing(0, usize::MAX));
}

#[test]
fn fuel_is_the_same_for_every_call() {
    let limits = ResourceLimits { fuel: Some(1_000_000), max_memory: None, max_stack: None };
    assert_eq!(limits.fuel_for_call(), Some(1_000_000));
    assert_eq!(limits.fuel_for_call(), Some(1_000_000));
    let unlimited = ResourceLimits { fuel: None, max_memory: None, max_stack: None };
    assert_eq!(unlimited.fuel_for_call(), None);
}
