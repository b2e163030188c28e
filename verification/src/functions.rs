//! The host-call binding surface: the stable table of guest-visible error
//! codes, the no-op stubs bound to toolchain-injected import names, and the
//! resolution of a module's imports against the host function table.

use vstd::prelude::*;

use crate::strutil::{has_prefix, seq_contains_string, str_has_prefix, vec_contains_string};

verus! {

/// Errors that can be encountered during execution.  Each carries a fixed
/// negative code returned to the guest; the table is a stable ABI.
#[derive(Debug, Clone, Copy, PartialEq, Eq, Structural)]
pub enum FunctionErrors {
    ApiNotConfigured,
    ReturnBufferTooSmall,
    ErrorCouldNotSerialize,
    InternalApiError,
    ParametersNotUtf8,
    InvalidPointer,
    CacheDisabled,
    CouldNotGetAdequateMemory,
    FailedToWriteGuestMemory,
    StorageLimitReached,
    TestMode,
    OperationNotAllowed,
    SharedDbError,
}

impl FunctionErrors {
    /// The guest-visible code of each error.
    pub open spec fn spec_code(self) -> i32 {
        match self {
            FunctionErrors::ApiNotConfigured => (-1) as i32,
            FunctionErrors::ReturnBufferTooSmall => (-2) as i32,
            FunctionErrors::ErrorCouldNotSerialize => (-3) as i32,
            FunctionErrors::InternalApiError => (-4) as i32,
            FunctionErrors::ParametersNotUtf8 => (-5) as i32,
            FunctionErrors::InvalidPointer => (-6) as i32,
            FunctionErrors::CacheDisabled => (-7) as i32,
            FunctionErrors::CouldNotGetAdequateMemory => (-8) as i32,
            FunctionErrors::FailedToWriteGuestMemory => (-9) as i32,
            FunctionErrors::StorageLimitReached => (-10) as i32,
            FunctionErrors::TestMode => (-11) as i32,
            FunctionErrors::OperationNotAllowed => (-12) as i32,
            FunctionErrors::SharedDbError => (-13) as i32,
        }
    }

    /// Returns the code written back to the guest for this error.
    pub fn code(&self) -> (c: i32)
        ensures
            c == self.spec_code(),
            -13 <= c <= -1,
    {
        match self {
            FunctionErrors::ApiNotConfigured => -1,
            FunctionErrors::ReturnBufferTooSmall => -2,
            FunctionErrors::ErrorCouldNotSerialize => -3,
            FunctionErrors::InternalApiError => -4,
            FunctionErrors::ParametersNotUtf8 => -5,
            FunctionErrors::InvalidPointer => -6,
            FunctionErrors::CacheDisabled => -7,
            FunctionErrors::CouldNotGetAdequateMemory => -8,
            FunctionErrors::FailedToWriteGuestMemory => -9,
            FunctionErrors::StorageLimitReached => -10,
            FunctionErrors::TestMode => -11,
            FunctionErrors::OperationNotAllowed => -12,
            FunctionErrors::SharedDbError => -13,
        }
    }
}

/// Failure to bind a module's imports at load time.
#[derive(Debug)]
pub enum LinkError {
    NoSuchFunction(String),
}

impl LinkError {
    /// A one-line account of the failure.
    pub fn description(&self) -> (r: String)
        ensures
            (match self {
                LinkError::NoSuchFunction(name) => r@ == "No such function: "@ + name@,
            }),
    {
        match self {
            LinkError::NoSuchFunction(name) => {
                let prefix: &str = "No such function: ";
                let owned: String = prefix.to_owned();
                owned.concat(&*name)
            },
        }
    }
}

/// The import-name prefix reserved for toolchain-injected glue; imports that
/// carry it are bound to no-op stubs instead of host functions.
pub open spec fn is_reserved_import(name: Seq<char>) -> bool {
    has_prefix(name, "__wbindgen"@)
}

/// Decides `is_reserved_import`.
pub fn has_reserved_import_prefix(name: &str) -> (r: bool)
    ensures
        r == is_reserved_import(name@),
{
    str_has_prefix(name, "__wbindgen")
}

/// An import name links when it is toolchain glue or a known host function.
pub open spec fn linkable(name: Seq<char>, known: Seq<String>) -> bool {
    is_reserved_import(name) || seq_contains_string(known, name)
}

/// The import names that are bound to host functions: the imports in order,
/// with the reserved toolchain-glue names left out.
pub open spec fn bound_imports(imports: Seq<String>) -> Seq<Seq<char>>
    decreases imports.len(),
{
    if imports.len() == 0 {
        Seq::<Seq<char>>::empty()
    } else {
        let init = bound_imports(imports.drop_last());
        if is_reserved_import(imports.last()@) {
            init
        } else {
            init.push(imports.last()@)
        }
    }
}

/// Resolves a module's import names against the table of host function
/// names.  Reserved toolchain-glue names are skipped; every other name must
/// be a known host function, and the first unknown one aborts the link.
pub fn plan_imports(imports: &Vec<String>, known: &Vec<String>) -> (r: Result<
    Vec<String>,
    LinkError,
>)
    ensures
        r.is_ok() <==> (forall|i: int|
            0 <= i < imports@.len() ==> linkable(#[trigger] imports@[i]@, known@)),
        (match r {
            Ok(bound) => bound.deep_view() == bound_imports(imports@),
            Err(LinkError::NoSuchFunction(name)) => exists|i: int|
                {
                    &&& 0 <= i < imports@.len()
                    &&& !linkable(#[trigger] imports@[i]@, known@)
                    &&& name@ == imports@[i]@
                    &&& forall|j: int| 0 <= j < i ==> linkable(#[trigger] imports@[j]@, known@)
                },
        }),
{
    let mut bound: Vec<String> = Vec::new();
    let mut i: usize = 0;
    while i < imports.len()
        invariant
            i <= imports@.len(),
            forall|j: int| 0 <= j < i ==> linkable(#[trigger] imports@[j]@, known@),
            bound.deep_view() == bound_imports(imports@.subrange(0, i as int)),
        decreases imports@.len() - i,
    {
        let name = &imports[i];
        if has_reserved_import_prefix(name.as_str()) {
            proof {
                assert(imports@.subrange(0, i + 1 as int).drop_last() =~= imports@.subrange(
                    0,
                    i as int,
                ));
                assert(bound.deep_view() == bound_imports(imports@.subrange(0, i + 1 as int)));
            }
        } else if vec_contains_string(known, name) {
            bound.push(name.clone());
            proof {
                assert(imports@.subrange(0, i + 1 as int).drop_last() =~= imports@.subrange(
                    0,
                    i as int,
                ));
                assert(bound.deep_view() =~= bound_imports(imports@.subrange(0, i + 1 as int)));
            }
        } else {
            return Err(LinkError::NoSuchFunction(name.clone()));
        }
        i += 1;
    }
    proof {
        assert(imports@.subrange(0, imports@.len() as int) =~= imports@);
    }
    Ok(bound)
}

/// No-op stub bound in place of the guest toolchain's `__stdio_exit` import.
pub fn fake_stdio_exit() {
}

/// No-op stub bound in place of the guest toolchain's `proc_exit` import.
pub fn fake_proc_exit(placeholder: i32) {
    let _ = placeholder;
}

/// No-op stub bound in place of the guest toolchain's `main.main` import.
pub fn fake_main_main(placeholder: i32) {
    let _ = placeholder;
}

/// No-op stub bound in place of the guest toolchain's `arc4random` import.
pub fn fake_arc4random(placeholder: i32) {
    let _ = placeholder;
}

/// No-op stub bound in place of the guest toolchain's `fd_write` import.
pub fn fake_fd_write(placeholder: i32) {
    let _ = placeholder;
}

/// No-op stub bound in place of the guest toolchain's
/// `tinygo_getCurrentStackPointer` import.
#[allow(non_snake_case)]
pub fn fake_tinygo_getCurrentStackPointer(placeholder: i32) {
    let _ = placeholder;
}

/// No-op stub bound in place of the guest toolchain's `runtime.ticks` import.
pub fn fake_runtime_ticks(placeholder: i32) {
    let _ = placeholder;
}

/// No-op stub bound in place of the guest toolchain's `syscall/js.valueGet`
/// import.
#[allow(non_snake_case)]
pub fn fake_syscall_js_valueGet(placeholder: i32) {
    let _ = placeholder;
}

/// No-op stub bound in place of the guest toolchain's
/// `syscall/js.valuePrepareString` import.
#[allow(non_snake_case)]
pub fn fake_syscall_js_valuePrepareString(placeholder: i32) {
    let _ = placeholder;
}

/// No-op stub bound in place of the guest toolchain's
/// `syscall/js.valueLoadString` import.
#[allow(non_snake_case)]
pub fn fake_syscall_js_valueLoadString(placeholder: i32) {
    let _ = placeholder;
}

/// No-op stub bound in place of the guest toolchain's
/// `syscall/js.finalizeRef` import.
#[allow(non_snake_case)]
pub fn fake_syscall_js_finalizeRef(placeholder: i32) {
    let _ = placeholder;
}

/// No-op stub bound in place of the guest toolchain's `__wbindgen_describe`
/// import.
pub fn fake_wbindgen_describe(placeholder: i32) {
    let _ = placeholder;
}

/// No-op stub bound in place of the guest toolchain's `__wbindgen_throw`
/// import.
pub fn fake_wbindgen_throw(x: i32, y: i32) {
    let _ = x;
    let _ = y;
}

/// No-op stub bound in place of the guest toolchain's
/// `__wbindgen_externref_table_grow` import; it reports no growth.
pub fn fake_wbindgen_externref_table_grow(x: i32) -> (r: i32)
    ensures
        r == 0,
{
    let _ = x;
    0
}

/// No-op stub bound in place of the guest toolchain's
/// `__wbindgen_externref_table_set_null` import.
pub fn fake_wbindgen_externref_table_set_null(placeholder: i32) {
    let _ = placeholder;
}

} // verus!
