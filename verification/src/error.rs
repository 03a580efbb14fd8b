//! Errors accessing system properties.

use vstd::prelude::*;

verus! {

/// What can go wrong while watching, reading or writing a property.
#[derive(Debug)]
pub enum PropertyWatcherError {
    /// A property name cannot hold a NUL byte.
    BadNameError,
    /// The property does not exist.
    SystemPropertyAbsent,
    /// The property store is not initialized in this process.
    Uninitialized,
    /// The store's wait operation failed or timed out.
    WaitFailed,
    /// The store's read operation returned without calling back.
    ReadCallbackNotCalled,
    /// The store called back without a name or without a value.
    MissingCString,
    /// The store called back with bytes that are not UTF-8.
    BadCString,
    /// The caller's callback failed; holds the callback's own message. A
    /// write also fails so on a value that cannot be handed to the store.
    CallbackError(String),
    /// The store refused to set the property.
    SetPropertyFailed,
}

/// Errors returned by typed property accessors.
#[derive(Debug)]
pub enum SysPropError {
    /// Failed to fetch the system property.
    FetchError(PropertyWatcherError),
    /// Failed to set the system property.
    SetError(PropertyWatcherError),
    /// Failed to parse the system property value.
    ParseError(String),
}

} // verus!
