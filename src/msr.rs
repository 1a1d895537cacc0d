use vstd::prelude::*;
use once_cell::sync::OnceCell;

verus! {

#[verifier::external_type_specification]
#[verifier::external_body]
#[verifier::reject_recursive_types(T)]
pub struct ExOnceCell<T>(OnceCell<T>);

/// The driver handle that an init-once cell holds, if any.
pub uninterp spec fn cell_handle(c: OnceCell<u64>) -> Option<u64>;

/// Relies on once_cell::sync::OnceCell::new: the new cell is empty.
#[verifier::external_body]
fn empty_cell() -> (r: OnceCell<u64>)
    ensures
        cell_handle(r) is None,
{
    OnceCell::new()
}

/// Relies on once_cell::sync::OnceCell::with_value: the new cell holds `h`.
#[verifier::external_body]
fn filled_cell(h: u64) -> (r: OnceCell<u64>)
    ensures
        cell_handle(r) == Some(h),
{
    OnceCell::with_value(h)
}

/// Relies on once_cell::sync::OnceCell::get: the value the cell holds, or
/// none while it is empty.
#[verifier::external_body]
fn cell_get(c: &OnceCell<u64>) -> (r: Option<u64>)
    ensures
        r == cell_handle(*c),
{
    c.get().copied()
}

/// Why the privileged register driver could not be started.
#[derive(Clone, Copy, Debug, PartialEq, Eq, Structural)]
pub enum RaplError {
    /// The process does not hold elevated privilege.
    NotElevated,
    /// The operating system refused to open the driver; its error code.
    Windows(i32),
}

/// How registers are reached on this host.
#[derive(Clone, Copy, Debug, PartialEq, Eq, Structural)]
pub enum RegisterAccess {
    /// A per-core register pseudo-file; nothing to start.
    File,
    /// A privileged driver, opened once per process.
    Driver,
}

/// The privileged register driver: its handle is opened once and kept for
/// the lifetime of the process.
pub struct RaplDriver {
    handle: OnceCell<u64>,
}

impl RaplDriver {
    pub closed spec fn spec_handle(self) -> Option<u64> {
        cell_handle(self.handle)
    }

    /// A driver that is not opened yet.
    pub fn new() -> (r: RaplDriver)
        ensures
            r.spec_handle() is None,
    {
        RaplDriver { handle: empty_cell() }
    }

    /// The open driver's handle, if it was opened.
    pub fn handle(&self) -> (r: Option<u64>)
        ensures
            r == self.spec_handle(),
    {
        cell_get(&self.handle)
    }
}

/// Starts the privileged driver. Once it is open nothing changes; else the
/// process must be elevated, and `opened` (the outcome of opening the
/// driver) gives the handle to keep.
pub fn start_rapl_impl(driver: &mut RaplDriver, elevated: bool, opened: Result<u64, i32>) -> (r:
    Result<u64, RaplError>)
    ensures
        old(driver).spec_handle() matches Some(h) ==> r == Ok::<u64, RaplError>(h)
            && final(driver).spec_handle() == old(driver).spec_handle(),
        old(driver).spec_handle() is None && !elevated ==> r == Err::<u64, RaplError>(
            RaplError::NotElevated,
        ) && final(driver).spec_handle() is None,
        old(driver).spec_handle() is None && elevated ==> match opened {
            Ok(h) => r == Ok::<u64, RaplError>(h) && final(driver).spec_handle() == Some(h),
            Err(c) => r == Err::<u64, RaplError>(RaplError::Windows(c))
                && final(driver).spec_handle() is None,
        },
{
    match driver.handle() {
        Some(h) => Ok(h),
        None => {
            if !elevated {
                return Err(RaplError::NotElevated);
            }
            match opened {
                Ok(h) => {
                    driver.handle = filled_cell(h);
                    Ok(h)
                },
                Err(c) => Err(RaplError::Windows(c)),
            }
        },
    }
}

/// Prepares register access: the file-backed path needs nothing, the
/// driver-backed path starts the driver.
pub fn start_rapl(access: RegisterAccess, driver: &mut RaplDriver, elevated: bool, opened: Result<
    u64,
    i32,
>) -> (r: Result<(), RaplError>)
    ensures
        access is File ==> r is Ok && final(driver).spec_handle() == old(driver).spec_handle(),
        access is Driver ==> {
            &&& old(driver).spec_handle() is Some ==> r is Ok && final(driver).spec_handle()
                == old(driver).spec_handle()
            &&& old(driver).spec_handle() is None && !elevated ==> r == Err::<(), RaplError>(
                RaplError::NotElevated,
            ) && final(driver).spec_handle() is None
            &&& old(driver).spec_handle() is None && elevated ==> match opened {
                Ok(h) => r is Ok && final(driver).spec_handle() == Some(h),
                Err(c) => r == Err::<(), RaplError>(RaplError::Windows(c))
                    && final(driver).spec_handle() is None,
            }
        },
{
    match access {
        RegisterAccess::File => Ok(()),
        RegisterAccess::Driver => match start_rapl_impl(driver, elevated, opened) {
            Ok(_) => Ok(()),
            Err(e) => Err(e),
        },
    }
}

} // verus!
