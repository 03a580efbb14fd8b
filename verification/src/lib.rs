//! Watching, reading and writing named entries of a shared property store.
//!
//! The store itself is reached through native operations that this library
//! does not perform: see [`store`]. What is here decides what to ask of the
//! store and what to make of its answers.

pub use crate::error::PropertyWatcherError;
use crate::marshal::decode_raw;
use crate::marshal::decoded;
use crate::marshal::decoded_raw;
use crate::marshal::well_formed;
use crate::store::Lookup;
use crate::store::RawProperty;
use crate::store::StoreReply;
use crate::text::contains_nul;
use crate::text::has_nul;
use crate::text::text_eq;
pub use crate::watcher::PropertyWatcher;
use crate::watcher::Step;
use vstd::pervasive::unreached;
use vstd::prelude::*;

pub use crate::error::SysPropError;

pub mod deadline;
pub mod error;
pub mod marshal;
pub mod parsers_formatters;
pub mod store;
pub mod text;
pub mod watcher;

verus! {

/// The boolean that a property's value stands for: `1`, `y`, `yes`, `on` and
/// `true` are true, `0`, `n`, `no`, `off` and `false` are false, and any
/// other text is neither.
pub open spec fn bool_of(value: Seq<char>) -> Option<bool> {
    if value == "1"@ || value == "y"@ || value == "yes"@ || value == "on"@ || value == "true"@ {
        Some(true)
    } else if value == "0"@ || value == "n"@ || value == "no"@ || value == "off"@ || value
        == "false"@ {
        Some(false)
    } else {
        None
    }
}

/// What reading the property `name` comes to where the store holds `lookup`
/// under that name.
pub open spec fn read_outcome(name: Seq<char>, lookup: Lookup) -> Result<
    Option<Seq<char>>,
    PropertyWatcherError,
> {
    if has_nul(name) {
        Err(PropertyWatcherError::BadNameError)
    } else {
        match lookup {
            Lookup::Absent => Ok(None),
            Lookup::Found { handle, report } => match decoded(report) {
                Ok((_, value)) => Ok(Some(value)),
                Err(e) => Err(e),
            },
        }
    }
}

/// What reading the property `name` as a boolean comes to.
pub open spec fn read_bool_outcome(name: Seq<char>, default_value: bool, lookup: Lookup) -> Result<
    bool,
    PropertyWatcherError,
> {
    match read_outcome(name, lookup) {
        Err(e) => Err(e),
        Ok(None) => Ok(default_value),
        Ok(Some(value)) => match bool_of(value) {
            Some(b) => Ok(b),
            None => Ok(default_value),
        },
    }
}

/// A property that does not exist reads as absent, and as a boolean it reads
/// as the caller's default.
pub proof fn lemma_absent_reads_as_default(name: Seq<char>, default_value: bool)
    requires
        !has_nul(name),
    ensures
        read_outcome(name, Lookup::Absent) == Ok::<Option<Seq<char>>, PropertyWatcherError>(None),
        read_bool_outcome(name, default_value, Lookup::Absent) == Ok::<bool, PropertyWatcherError>(
            default_value,
        ),
{
}

/// Reads a system property.
///
/// `lookup` is what the store holds under `name`. Returns `Ok(None)` if the
/// property doesn't exist. A name that holds a NUL is an error whatever the
/// store holds.
pub fn read(name: &str, lookup: Lookup) -> (r: Result<Option<String>, PropertyWatcherError>)
    ensures
        match read_outcome(name@, lookup) {
            Ok(None) => r matches Ok(None),
            Ok(Some(value)) => r matches Ok(Some(s)) && s@ == value,
            Err(e) => r matches Err(x) && x == e,
        },
{
    let mut watcher = match PropertyWatcher::new(name) {
        Ok(w) => w,
        Err(e) => {
            return Err(e);
        },
    };
    let _ = watcher.read();
    match lookup {
        Lookup::Absent => match watcher.resume(StoreReply::Found(None), 0) {
            Step::Done(Err(PropertyWatcherError::SystemPropertyAbsent)) => Ok(None),
            _ => {
                proof {
                    assert(false);
                }
                unreached()
            },
        },
        Lookup::Found { handle, report } => {
            let _ = watcher.resume(StoreReply::Found(Some(handle)), 0);
            match watcher.resume(StoreReply::Read(report), 0) {
                Step::Value { name: _, value } => Ok(Some(value)),
                Step::Done(Err(e)) => Err(e),
                _ => {
                    proof {
                        assert(false);
                    }
                    unreached()
                },
            }
        },
    }
}

/// Tells which boolean a property's value stands for, if any.
pub fn parse_bool(value: &str) -> (r: Option<bool>)
    ensures
        r == bool_of(value@),
{
    if text_eq(value, "1") || text_eq(value, "y") || text_eq(value, "yes") || text_eq(value, "on")
        || text_eq(value, "true") {
        Some(true)
    } else if text_eq(value, "0") || text_eq(value, "n") || text_eq(value, "no") || text_eq(
        value,
        "off",
    ) || text_eq(value, "false") {
        Some(false)
    } else {
        None
    }
}

/// Returns true if the system property `name` has the value "1", "y", "yes",
/// "on", or "true", false for "0", "n", "no", "off", or "false", or
/// `default_value` otherwise.
///
/// `lookup` is what the store holds under `name`.
pub fn read_bool(name: &str, default_value: bool, lookup: Lookup) -> (r: Result<
    bool,
    PropertyWatcherError,
>)
    ensures
        match read_bool_outcome(name@, default_value, lookup) {
            Ok(b) => r matches Ok(x) && x == b,
            Err(e) => r matches Err(x) && x == e,
        },
{
    match read(name, lookup) {
        Err(e) => Err(e),
        Ok(None) => Ok(default_value),
        Ok(Some(value)) => match parse_bool(value.as_str()) {
            Some(b) => Ok(b),
            None => Ok(default_value),
        },
    }
}

/// Writes a system property: tells how the write ends where the store's set
/// operation returned `status`.
///
/// A name or a value that holds a NUL cannot be handed to the store; the
/// write fails on it whatever `status` is.
pub fn write(name: &str, value: &str, status: i32) -> (r: Result<(), PropertyWatcherError>)
    ensures
        has_nul(name@) ==> r == Err::<(), PropertyWatcherError>(
            PropertyWatcherError::BadNameError,
        ),
        !has_nul(name@) && has_nul(value@) ==> (r matches Err(
            PropertyWatcherError::CallbackError(msg),
        ) && msg@ == "Failed to construct CString from value."@),
        !has_nul(name@) && !has_nul(value@) && status == 0 ==> r == Ok::<
            (),
            PropertyWatcherError,
        >(()),
        !has_nul(name@) && !has_nul(value@) && status != 0 ==> r == Err::<
            (),
            PropertyWatcherError,
        >(PropertyWatcherError::SetPropertyFailed),
{
    if contains_nul(name) {
        return Err(PropertyWatcherError::BadNameError);
    }
    if contains_nul(value) {
        return Err(
            PropertyWatcherError::CallbackError(
                "Failed to construct CString from value.".to_owned(),
            ),
        );
    }
    if status == 0 {
        Ok(())
    } else {
        Err(PropertyWatcherError::SetPropertyFailed)
    }
}

/// Whether `r` is what listing `entries` comes to: each name and value as
/// strings, in the order of `entries`, or what is wrong with the first entry
/// that the store did not call back with as it promises to.
pub open spec fn listed(
    entries: Seq<RawProperty>,
    r: Result<Seq<(Seq<char>, Seq<char>)>, PropertyWatcherError>,
) -> bool {
    match r {
        Ok(list) => {
            &&& list.len() == entries.len()
            &&& forall|i: int|
                0 <= i < entries.len() ==> decoded_raw(#[trigger] entries[i]) == Ok::<
                    (Seq<char>, Seq<char>),
                    PropertyWatcherError,
                >(list[i])
        },
        Err(e) => exists|i: int|
            {
                &&& 0 <= i < entries.len()
                &&& decoded_raw(#[trigger] entries[i]) == Err::<
                    (Seq<char>, Seq<char>),
                    PropertyWatcherError,
                >(e)
                &&& forall|j: int| 0 <= j < i ==> well_formed(#[trigger] entries[j])
            },
    }
}

/// The names and values of `list` as sequences of characters.
pub open spec fn texts_of(list: Seq<(String, String)>) -> Seq<(Seq<char>, Seq<char>)> {
    list.map_values(|pair: (String, String)| (pair.0@, pair.1@))
}

/// Iterates through the properties (that the current process is allowed to
/// access): returns their names and values as strings, in the order in which
/// the store enumerated them.
///
/// `entries` holds what the store called back with for each property, and
/// `status` what its enumeration returned; a negative status says that the
/// store is not initialized in this process. Otherwise the listing succeeds
/// unless the store called back without a name or a value, or with one that
/// is not UTF-8.
pub fn foreach(entries: &Vec<RawProperty>, status: i32) -> (r: Result<
    Vec<(String, String)>,
    PropertyWatcherError,
>)
    ensures
        status < 0 ==> r == Err::<Vec<(String, String)>, PropertyWatcherError>(
            PropertyWatcherError::Uninitialized,
        ),
        status >= 0 ==> listed(
            entries@,
            match r {
                Ok(list) => Ok(texts_of(list@)),
                Err(e) => Err(e),
            },
        ),
        r is Ok <==> status >= 0 && forall|i: int|
            0 <= i < entries@.len() ==> well_formed(#[trigger] entries@[i]),
{
    if status < 0 {
        return Err(PropertyWatcherError::Uninitialized);
    }
    let mut list: Vec<(String, String)> = Vec::new();
    let mut i: usize = 0;
    while i < entries.len()
        invariant
            status >= 0,
            i <= entries@.len(),
            list@.len() == i,
            forall|k: int| 0 <= k < i ==> well_formed(#[trigger] entries@[k]),
            forall|k: int|
                0 <= k < i ==> decoded_raw(#[trigger] entries@[k]) == Ok::<
                    (Seq<char>, Seq<char>),
                    PropertyWatcherError,
                >((list@[k].0@, list@[k].1@)),
        decreases entries.len() - i,
    {
        match decode_raw(&entries[i]) {
            Ok(pair) => {
                list.push(pair);
            },
            Err(e) => {
                proof {
                    assert(!well_formed(entries@[i as int]));
                    assert(decoded_raw(entries@[i as int]) == Err::<
                        (Seq<char>, Seq<char>),
                        PropertyWatcherError,
                    >(e));
                }
                return Err(e);
            },
        }
        i += 1;
    }
    proof {
        assert forall|k: int| 0 <= k < entries@.len() implies decoded_raw(
            #[trigger] entries@[k],
        ) == Ok::<(Seq<char>, Seq<char>), PropertyWatcherError>(texts_of(list@)[k]) by {}
    }
    Ok(list)
}

} // verus!
