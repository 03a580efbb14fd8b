//! What passes between the library and the property store.
//!
//! The store is shared by all processes and is reached through five native
//! operations: find, read with a callback, wait, set and enumerate. This
//! library performs none of them. It says which one is due, as a
//! [`StoreRequest`]; whoever drives it performs the operation and hands back
//! what the store answered, as a [`StoreReply`], in plain values.

use vstd::prelude::*;

verus! {

/// The store's reference to one property. It stays valid for as long as the
/// process lives, and the store never moves the property it stands for.
#[derive(Clone, Copy, Debug, PartialEq, Eq, Structural)]
pub struct PropertyHandle {
    /// The reference as the driver keeps it; the library only passes it on.
    pub token: usize,
}

/// A span of time as the store's wait operation takes it.
#[derive(Clone, Copy, Debug, PartialEq, Eq, Structural)]
pub struct Timespec {
    /// Whole seconds.
    pub tv_sec: i64,
    /// Nanoseconds beyond the whole seconds, less than a second's worth.
    pub tv_nsec: i64,
}

/// What one call of the read callback was given: the bytes of the name and of
/// the value, each without its terminating NUL, or nothing where the store
/// passed a null pointer.
#[derive(Debug)]
pub struct RawProperty {
    pub name: Option<Vec<u8>>,
    pub value: Option<Vec<u8>>,
}

/// What the store's read operation did with the callback.
#[derive(Debug)]
pub enum ReadReport {
    /// The operation returned without calling back.
    NotCalled,
    /// The operation called back, with this.
    Called(RawProperty),
}

/// What the store holds under one name, as a find and, where that found the
/// property, a read show it.
#[derive(Debug)]
pub enum Lookup {
    /// No property of that name exists.
    Absent,
    /// The property exists.
    Found { handle: PropertyHandle, report: ReadReport },
}

/// An operation of the store that a watcher asks its driver to perform.
#[derive(Clone, Copy, Debug, PartialEq, Eq, Structural)]
pub enum StoreRequest {
    /// Look the watcher's name up.
    Find,
    /// Read the property behind this handle through the callback.
    Read(PropertyHandle),
    /// Block until the serial number differs from `serial` or `timeout` has
    /// passed (never, where that is `None`). With a handle, the serial number
    /// is the property's own; without, it is the store's global one, which
    /// advances when any property changes or is created.
    Wait { handle: Option<PropertyHandle>, serial: u32, timeout: Option<Timespec> },
}

/// What the store answered to a [`StoreRequest`].
#[derive(Debug)]
pub enum StoreReply {
    /// To `Find`: the handle, or `None` where no such property exists.
    Found(Option<PropertyHandle>),
    /// To `Read`: what became of the callback.
    Read(ReadReport),
    /// To `Wait`: whether the serial number changed before the timeout, and
    /// the serial number that the store saw last.
    Waited { serial: u32, changed: bool },
}

/// Whether `reply` is an answer that the store may give to `request`: it is
/// of the request's sort, and where it reports a change after a wait, the
/// serial number that it reports differs from the one that the wait was
/// handed.
pub open spec fn answers(request: StoreRequest, reply: StoreReply) -> bool {
    match request {
        StoreRequest::Find => reply is Found,
        StoreRequest::Read(_) => reply is Read,
        StoreRequest::Wait { serial, .. } => reply matches StoreReply::Waited {
            serial: seen,
            changed,
        } && (changed ==> seen != serial),
    }
}

} // verus!
