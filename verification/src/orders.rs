//! Pure decision logic of the order workflow: which status updates a
//! request handler must reject, and which orders may still be changed or
//! cancelled.

use vstd::prelude::*;

verus! {

/// Lifecycle states of a purchase order.
#[derive(Clone, Copy, Debug, PartialEq, Eq, Structural)]
pub enum Status {
    New,
    Submitted,
    Shipped,
    Delivered,
    InStorage,
}

/// A request to move an order to a new status.
#[derive(Clone, Copy, Debug, PartialEq, Eq, Structural)]
pub struct UpdateOrder {
    pub id: u32,
    pub status: Status,
}

/// Why a status update was rejected.
#[derive(Clone, Copy, Debug, PartialEq, Eq, Structural)]
pub enum UpdateRejection {
    /// The order is already in storage; its lifecycle is over.
    AlreadyInStorage,
    /// The order is already in the requested state.
    AlreadyInState,
}

/// Decides whether an order whose latest recorded status is `current` may
/// move to `requested`. An order that reached storage is final, and a
/// no-op update is rejected; everything else is allowed.
pub fn validate_status_update(current: Status, requested: Status) -> (r: Result<
    (),
    UpdateRejection,
>)
    ensures
        r == if current == Status::InStorage {
            Result::<(), UpdateRejection>::Err(UpdateRejection::AlreadyInStorage)
        } else if current == requested {
            Result::<(), UpdateRejection>::Err(UpdateRejection::AlreadyInState)
        } else {
            Result::<(), UpdateRejection>::Ok(())
        },
{
    if current == Status::InStorage {
        Err(UpdateRejection::AlreadyInStorage)
    } else if current == requested {
        Err(UpdateRejection::AlreadyInState)
    } else {
        Ok(())
    }
}

/// Whether an order whose latest recorded status is `current` may still be
/// edited: only orders that nobody has processed yet.
pub fn change_allowed(current: Status) -> (r: bool)
    ensures
        r == (current == Status::New),
{
    current == Status::New
}

/// Whether an order may be cancelled: unprocessed orders always, anything
/// else only when the caller forces the cancellation.
pub fn cancel_allowed(current: Status, force: bool) -> (r: bool)
    ensures
        r == (force || current == Status::New),
{
    force || current == Status::New
}

/// The human-readable name of a status, as it appears in notification
/// texts.
pub fn status_label(status: Status) -> (r: &'static str)
    ensures
        r@ == spec_status_label(status),
{
    match status {
        Status::New => "New",
        Status::Submitted => "Submitted",
        Status::Shipped => "Shipped",
        Status::Delivered => "Delivered",
        Status::InStorage => "InStorage",
    }
}

/// The characters of each status name.
pub open spec fn spec_status_label(status: Status) -> Seq<char> {
    match status {
        Status::New => "New"@,
        Status::Submitted => "Submitted"@,
        Status::Shipped => "Shipped"@,
        Status::Delivered => "Delivered"@,
        Status::InStorage => "InStorage"@,
    }
}

} // verus!
