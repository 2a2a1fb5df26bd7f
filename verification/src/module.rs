//! Modules and how their calls end: the two module styles, resource
//! limits, and the mapping from what a call did to the error it is
//! recorded with.

use crate::text::{decimal, has_infix, push_decimal, str_contains, string_equal};
use vstd::prelude::*;
use vstd::string::StringExecFns;

verus! {

/// How a module is entered.
#[derive(Clone, Copy, Debug, PartialEq, Eq, Structural)]
pub enum ModuleStyle {
    /// Exports `process`; one instance serves every content.
    Reactor,
    /// Exports `_start`; every call needs a fresh instance.
    Command,
}

/// Why a module cannot be loaded.
#[derive(Clone, Copy, Debug, PartialEq, Eq, Structural)]
pub enum SetupError {
    /// The module exports neither `process` nor `_start`.
    MissingExport,
}

/// Some export has this name.
pub open spec fn exports_name(exports: Seq<String>, name: Seq<char>) -> bool {
    exists|i: int| 0 <= i < exports.len() && (#[trigger] exports[i])@ == name
}

/// The style that a module's exports call for: a module that exports
/// `process` is a reactor, whatever else it exports; otherwise one that
/// exports `_start` is a command.
pub open spec fn style_of(exports: Seq<String>) -> Result<ModuleStyle, SetupError> {
    if exports_name(exports, "process"@) {
        Ok(ModuleStyle::Reactor)
    } else if exports_name(exports, "_start"@) {
        Ok(ModuleStyle::Command)
    } else {
        Err(SetupError::MissingExport)
    }
}

fn has_export(exports: &Vec<String>, name: &str) -> (found: bool)
    ensures
        found == exports_name(exports@, name@),
{
    let wanted = name.to_owned();
    let mut i: usize = 0;
    while i < exports.len()
        invariant
            i <= exports@.len(),
            wanted@ == name@,
            forall|j: int| 0 <= j < i ==> (#[trigger] exports@[j])@ != name@,
        decreases exports@.len() - i,
    {
        if string_equal(&exports[i], &wanted) {
            return true;
        }
        i += 1;
    }
    false
}

/// Classifies a module by the names it exports.
pub fn validate_module(exports: &Vec<String>) -> (r: Result<ModuleStyle, SetupError>)
    ensures
        r == style_of(exports@),
{
    if has_export(exports, "process") {
        Ok(ModuleStyle::Reactor)
    } else if has_export(exports, "_start") {
        Ok(ModuleStyle::Command)
    } else {
        Err(SetupError::MissingExport)
    }
}

/// Limits on what one call of a module may use.
#[derive(Clone, Copy, Debug, PartialEq, Eq, Structural)]
pub struct ResourceLimits {
    /// Fuel for each call; unlimited where absent.
    pub fuel: Option<u64>,
    /// Cap on the bytes of linear memory.
    pub max_memory: Option<usize>,
    /// Cap on the bytes of guest stack.
    pub max_stack: Option<usize>,
}

impl ResourceLimits {
    /// The fuel to set before a call. It is the configured quantum every
    /// time, whatever earlier calls used up.
    pub fn fuel_for_call(&self) -> (fuel: Option<u64>)
        ensures
            fuel == self.fuel,
    {
        self.fuel
    }

    /// Whether linear memory may grow to `desired` bytes: it may unless that
    /// is beyond the cap.
    pub fn memory_growing(&self, _current: usize, desired: usize) -> (allowed: bool)
        ensures
            allowed == match self.max_memory {
                Some(max) => desired <= max,
                None => true,
            },
    {
        match self.max_memory {
            Some(max) => desired <= max,
            None => true,
        }
    }

    /// Tables may always grow.
    pub fn table_growing(&self, _current: usize, _desired: usize) -> (allowed: bool)
        ensures
            allowed,
    {
        true
    }
}

/// How a call into a module ended.
#[derive(Debug)]
pub enum CallOutcome {
    /// The entry point returned this exit code.
    Returned(i32),
    /// The guest asked to exit with this code.
    Exited(i32),
    /// The guest trapped; the engine's message.
    Trapped(String),
}

/// How a call into a module ended, in plain values.
pub enum OutcomeView {
    Returned(i32),
    Exited(i32),
    Trapped(Seq<char>),
}

impl View for CallOutcome {
    type V = OutcomeView;

    open spec fn view(&self) -> OutcomeView {
        match *self {
            CallOutcome::Returned(code) => OutcomeView::Returned(code),
            CallOutcome::Exited(code) => OutcomeView::Exited(code),
            CallOutcome::Trapped(message) => OutcomeView::Trapped(message@),
        }
    }
}

/// The error that a failed call is recorded with.
#[derive(Debug)]
pub enum ProcessError {
    /// The module finished with a nonzero exit code.
    ModuleError(i32),
    /// The guest trapped for a reason other than a resource limit.
    ModuleTrap(String),
    /// The call used up its fuel.
    CpuExhausted,
    /// The guest ran into the memory cap.
    MemoryLimit,
    /// The guest overflowed its stack.
    StackOverflow,
}

/// A call's error in plain values.
pub enum ErrorView {
    ModuleError(i32),
    ModuleTrap(Seq<char>),
    CpuExhausted,
    MemoryLimit,
    StackOverflow,
}

impl View for ProcessError {
    type V = ErrorView;

    open spec fn view(&self) -> ErrorView {
        match *self {
            ProcessError::ModuleError(code) => ErrorView::ModuleError(code),
            ProcessError::ModuleTrap(detail) => ErrorView::ModuleTrap(detail@),
            ProcessError::CpuExhausted => ErrorView::CpuExhausted,
            ProcessError::MemoryLimit => ErrorView::MemoryLimit,
            ProcessError::StackOverflow => ErrorView::StackOverflow,
        }
    }
}

impl Clone for ProcessError {
    fn clone(&self) -> (res: Self)
        ensures
            res@ == self@,
    {
        match self {
            ProcessError::ModuleError(code) => ProcessError::ModuleError(*code),
            ProcessError::ModuleTrap(detail) => ProcessError::ModuleTrap(detail.clone()),
            ProcessError::CpuExhausted => ProcessError::CpuExhausted,
            ProcessError::MemoryLimit => ProcessError::MemoryLimit,
            ProcessError::StackOverflow => ProcessError::StackOverflow,
        }
    }
}

/// The error that a trap with this message stands for: the message is
/// searched for `fuel`, then `stack overflow`, then `memory`; a trap that
/// mentions none of them is kept with its message.
pub open spec fn trap_error(message: Seq<char>) -> ErrorView {
    if has_infix(message, "fuel"@) {
        ErrorView::CpuExhausted
    } else if has_infix(message, "stack overflow"@) {
        ErrorView::StackOverflow
    } else if has_infix(message, "memory"@) {
        ErrorView::MemoryLimit
    } else {
        ErrorView::ModuleTrap(message)
    }
}

/// The error that a call's outcome stands for, if it is one: exit code
/// zero is success, returned or asked for.
pub open spec fn outcome_error(outcome: OutcomeView) -> Option<ErrorView> {
    match outcome {
        OutcomeView::Returned(code) => if code == 0 {
            None
        } else {
            Some(ErrorView::ModuleError(code))
        },
        OutcomeView::Exited(code) => if code == 0 {
            None
        } else {
            Some(ErrorView::ModuleError(code))
        },
        OutcomeView::Trapped(message) => Some(trap_error(message)),
    }
}

/// Maps a trap message to an error.
pub fn classify_error(message: &str) -> (error: ProcessError)
    ensures
        error@ == trap_error(message@),
{
    if str_contains(message, "fuel") {
        ProcessError::CpuExhausted
    } else if str_contains(message, "stack overflow") {
        ProcessError::StackOverflow
    } else if str_contains(message, "memory") {
        ProcessError::MemoryLimit
    } else {
        ProcessError::ModuleTrap(message.to_owned())
    }
}

/// Maps the outcome of a call to the error it is recorded with, if any.
pub fn classify_outcome(outcome: &CallOutcome) -> (r: Option<ProcessError>)
    ensures
        match outcome_error(outcome@) {
            Some(error) => r matches Some(e) && e@ == error,
            None => r is None,
        },
{
    match outcome {
        CallOutcome::Returned(code) => if *code == 0 {
            None
        } else {
            Some(ProcessError::ModuleError(*code))
        },
        CallOutcome::Exited(code) => if *code == 0 {
            None
        } else {
            Some(ProcessError::ModuleError(*code))
        },
        CallOutcome::Trapped(message) => Some(classify_error(message.as_str())),
    }
}

/// The text of an error: the name of its kind, with the exit code or the
/// trap's message in parentheses where it has one.
pub open spec fn error_text(error: ErrorView) -> Seq<char> {
    match error {
        ErrorView::ModuleError(code) => "ModuleError("@ + decimal(code as int) + ")"@,
        ErrorView::ModuleTrap(detail) => "ModuleTrap("@ + detail + ")"@,
        ErrorView::CpuExhausted => "CpuExhausted"@,
        ErrorView::MemoryLimit => "MemoryLimit"@,
        ErrorView::StackOverflow => "StackOverflow"@,
    }
}

impl ProcessError {
    /// The text of the error.
    pub fn message(&self) -> (text: String)
        ensures
            text@ == error_text(self@),
    {
        match self {
            ProcessError::ModuleError(code) => {
                let mut text = String::from_str("ModuleError(");
                push_decimal(&mut text, *code as i64);
                text.append(")");
                text
            },
            ProcessError::ModuleTrap(detail) => {
                let mut text = String::from_str("ModuleTrap(");
                text.append(detail.as_str());
                text.append(")");
                text
            },
            ProcessError::CpuExhausted => String::from_str("CpuExhausted"),
            ProcessError::MemoryLimit => String::from_str("MemoryLimit"),
            ProcessError::StackOverflow => String::from_str("StackOverflow"),
        }
    }
}

} // verus!
