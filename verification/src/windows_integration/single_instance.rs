//! The named mutex by which only one instance of the application runs.
use vstd::prelude::*;

verus! {

/// The error code of a mutex that another instance has created.
pub const ERROR_ALREADY_EXISTS: u32 = 183;

/// The name of the application's mutex.
pub fn instance_mutex_name() -> (r: String)
    ensures
        r@ == "Local\\MMB.SingleInstance"@,
{
    "Local\\MMB.SingleInstance".to_owned()
}

/// The right to be the only instance: the handle of the mutex.
#[derive(Debug, PartialEq, Eq, Structural)]
pub struct SingleInstanceGuard {
    pub handle: usize,
}

/// Whether this is the only instance, from the handle that creating the mutex returned, zero
/// where it failed, and the error code that it left.
pub open spec fn instance_result(handle: usize, error: u32) -> Result<
    Option<SingleInstanceGuard>,
    i32,
> {
    if handle == 0 {
        Err(error as i32)
    } else if error == ERROR_ALREADY_EXISTS {
        Ok(None)
    } else {
        Ok(Some(SingleInstanceGuard { handle }))
    }
}

/// Whether this is the only instance. The error that is returned is the code as the system's own
/// error type takes it. Where there is another instance, the handle has to be closed, as
/// `closes_handle` says.
pub fn acquire_single_instance(handle: usize, error: u32) -> (r: Result<
    Option<SingleInstanceGuard>,
    i32,
>)
    ensures
        r == instance_result(handle, error),
{
    if handle == 0 {
        return Err(
            #[verifier::truncate]
            (error as i32),
        );
    }
    if error == ERROR_ALREADY_EXISTS {
        return Ok(None);
    }
    Ok(Some(SingleInstanceGuard { handle }))
}

/// Whether the handle has to be closed at once: exactly where another instance has the mutex, so
/// that an attempt that is refused does not keep the name taken.
pub fn closes_handle(handle: usize, error: u32) -> (r: bool)
    ensures
        r == (instance_result(handle, error) == Ok::<Option<SingleInstanceGuard>, i32>(None)),
{
    handle != 0 && error == ERROR_ALREADY_EXISTS
}

/// An attempt to be the only instance: what creating the mutex returned.
pub struct InstanceAttempt {
    pub handle: usize,
    pub error: u32,
}

impl InstanceAttempt {
    /// Whether the attempt makes this the only instance.
    pub open spec fn succeeds(self) -> bool {
        instance_result(self.handle, self.error) matches Ok(Some(_))
    }

    /// Whether the system tells of the mutex what is so, with so many handles of it open: where
    /// it could be created, it existed before exactly where a handle of it was open.
    pub open spec fn is_told(self, open_handles: nat) -> bool {
        self.handle != 0 ==> ((self.error == ERROR_ALREADY_EXISTS) == (open_handles > 0))
    }

    /// How many handles of the mutex are open after the attempt: one more where creating it
    /// worked, less the one that is closed at once.
    pub open spec fn handles_after(self, open_handles: nat) -> nat {
        if self.handle == 0 || instance_result(self.handle, self.error) == Ok::<
            Option<SingleInstanceGuard>,
            i32,
        >(None) {
            open_handles
        } else {
            open_handles + 1
        }
    }
}

/// How many handles of the mutex are open after several attempts.
pub open spec fn handles_after_all(open_handles: nat, attempts: Seq<InstanceAttempt>) -> nat
    decreases attempts.len(),
{
    if attempts.len() == 0 {
        open_handles
    } else {
        attempts.last().handles_after(handles_after_all(open_handles, attempts.drop_last()))
    }
}

/// Whether the system tells at each attempt what is so of the mutex.
pub open spec fn all_are_told(open_handles: nat, attempts: Seq<InstanceAttempt>) -> bool
    decreases attempts.len(),
{
    attempts.len() > 0 ==> {
        &&& all_are_told(open_handles, attempts.drop_last())
        &&& attempts.last().is_told(handles_after_all(open_handles, attempts.drop_last()))
    }
}

/// While one instance has the mutex, no attempt makes another the only instance, and none leaves a
/// handle open.
pub proof fn one_instance_at_a_time(attempts: Seq<InstanceAttempt>)
    requires
        all_are_told(1, attempts),
    ensures
        handles_after_all(1, attempts) == 1,
        forall|i: int| 0 <= i < attempts.len() ==> !(#[trigger] attempts[i]).succeeds(),
    decreases attempts.len(),
{
    if attempts.len() > 0 {
        let earlier = attempts.drop_last();
        one_instance_at_a_time(earlier);
        let last = attempts.len() - 1;
        assert forall|i: int| 0 <= i < attempts.len() implies !(
        #[trigger] attempts[i]).succeeds() by {
            if i < last {
                assert(earlier[i] == attempts[i]);
            }
        }
    }
}

/// Where nobody has the mutex, the first attempt that can create it makes its instance the only
/// one, and leaves its handle alone open. Once the guard is dropped, and its handle closed with
/// it, whatever attempts were refused meanwhile, the next one succeeds again.
pub proof fn instance_can_be_acquired_again(
    first: InstanceAttempt,
    refused: Seq<InstanceAttempt>,
    next: InstanceAttempt,
)
    requires
        first.handle != 0,
        first.is_told(0),
        all_are_told(1, refused),
        next.handle != 0,
        next.is_told((handles_after_all(first.handles_after(0), refused) - 1) as nat),
    ensures
        first.succeeds(),
        first.handles_after(0) == 1,
        next.succeeds(),
{
    one_instance_at_a_time(refused);
}

} // verus!
