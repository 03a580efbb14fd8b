//! The property watcher: one named property, read and waited for without
//! missing a change.
//!
//! The store counts the changes of each property in a serial number, and all
//! changes together in a global one. Its wait operation takes the serial
//! number that the caller saw last and blocks only while the current one
//! still equals it, so nothing can slip in between looking and blocking. A
//! watcher keeps the serial number of each wait that succeeded and hands it
//! to the next wait.
//!
//! A watcher performs no operation of the store itself. Each of `read`,
//! `wait` and `wait_for_value` begins an operation and returns a [`Step`]:
//! either a [`StoreRequest`] for the driver to perform, or the end of the
//! operation. After a request the driver calls `resume` with the store's
//! answer, until the operation ends.

use crate::deadline::deadline;
use crate::deadline::deadline_after;
use crate::deadline::remaining;
use crate::deadline::remaining_time_until;
use crate::error::PropertyWatcherError;
use crate::marshal::decode;
use crate::marshal::decoded;
use crate::marshal::marshal;
use crate::store::answers;
use crate::store::PropertyHandle;
use crate::store::ReadReport;
use crate::store::StoreReply;
use crate::store::StoreRequest;
use crate::text::contains_nul;
use crate::text::has_nul;
use crate::text::text_eq;
use vstd::prelude::*;

verus! {

/// What a watcher knows of its property's handle.
#[derive(Clone, Copy, Debug, PartialEq, Eq, Structural)]
pub enum HandleCache {
    /// The store was never asked.
    Untried,
    /// The store found the property. This is final: the watcher never asks
    /// again.
    Resolved(PropertyHandle),
    /// The store was asked and had no such property then. The watcher asks
    /// again whenever it needs the handle.
    Absent,
}

impl HandleCache {
    /// The handle, where it is known.
    pub open spec fn handle(self) -> Option<PropertyHandle> {
        match self {
            HandleCache::Resolved(handle) => Some(handle),
            _ => None,
        }
    }

    /// The cache after the store answered a find with `found`. A handle that
    /// was known before stays.
    pub open spec fn record(self, found: Option<PropertyHandle>) -> HandleCache {
        match self {
            HandleCache::Resolved(_) => self,
            _ => match found {
                Some(handle) => HandleCache::Resolved(handle),
                None => HandleCache::Absent,
            },
        }
    }
}

/// Where a watcher stands in the operation that it is carrying out.
#[derive(Clone, Copy, Debug, PartialEq, Eq, Structural)]
pub enum Stage {
    /// No operation is under way.
    Idle,
    /// A find was asked for.
    Finding,
    /// A wait on the global serial number was asked for: the property did not
    /// exist yet.
    AwaitingCreation,
    /// A read was asked for.
    Reading,
    /// A wait on the property's own serial number was asked for.
    AwaitingChange,
}

// What the operation under way is to achieve; the value that it waits for
// is kept beside this.
#[derive(Clone, Copy, Debug, PartialEq, Eq, Structural)]
enum Goal {
    Read,
    Change,
    Value,
}

/// What the operation under way is to achieve.
pub enum Aim {
    /// The property's name and value.
    Read,
    /// The property's next change or, while it does not exist, its creation.
    Change,
    /// The property holding this value.
    Value(Seq<char>),
}

/// How a call of a watcher ended.
#[derive(Debug)]
pub enum Step {
    /// The driver is to perform this request and to resume the watcher with
    /// the store's answer.
    Call(StoreRequest),
    /// A read ended with the property's name and value.
    Value { name: String, value: String },
    /// The operation ended.
    Done(Result<(), PropertyWatcherError>),
}

/// A [`Step`] with its strings as sequences of characters.
pub enum StepModel {
    Call(StoreRequest),
    Value { name: Seq<char>, value: Seq<char> },
    Done(Result<(), PropertyWatcherError>),
}

impl View for Step {
    type V = StepModel;

    open spec fn view(&self) -> StepModel {
        match *self {
            Step::Call(request) => StepModel::Call(request),
            Step::Value { name, value } => StepModel::Value { name: name@, value: value@ },
            Step::Done(result) => StepModel::Done(result),
        }
    }
}

/// All that a watcher holds.
pub struct WatcherModel {
    /// The property's name. It holds no NUL.
    pub name: Seq<char>,
    /// The property's handle, as far as it is known.
    pub cache: HandleCache,
    /// The property's serial number as the last successful wait on it saw
    /// it; 0 before the first.
    pub serial: u32,
    /// Where the operation under way stands.
    pub stage: Stage,
    /// What the operation under way is to achieve.
    pub goal: Aim,
    /// The deadline of the operation under way.
    pub until: Option<u128>,
    /// The global serial number as the operation under way saw it last.
    pub global_serial: u32,
}

impl WatcherModel {
    /// A watcher for `name` that has not done anything yet.
    pub open spec fn fresh(name: Seq<char>) -> WatcherModel {
        WatcherModel {
            name,
            cache: HandleCache::Untried,
            serial: 0,
            stage: Stage::Idle,
            goal: Aim::Read,
            until: None,
            global_serial: 0,
        }
    }

    /// Whether `reply` answers the request that this watcher made last.
    pub open spec fn awaits(self, reply: StoreReply) -> bool {
        match reply {
            StoreReply::Found(_) => self.stage == Stage::Finding,
            StoreReply::Read(_) => self.stage == Stage::Reading,
            StoreReply::Waited { .. } => self.stage == Stage::AwaitingCreation || self.stage
                == Stage::AwaitingChange,
        }
    }

    /// The operation ends with `result`.
    pub open spec fn finish(self, result: Result<(), PropertyWatcherError>) -> (
        WatcherModel,
        StepModel,
    ) {
        (WatcherModel { stage: Stage::Idle, ..self }, StepModel::Done(result))
    }

    /// A find is asked for.
    pub open spec fn ask_find(self) -> (WatcherModel, StepModel) {
        (WatcherModel { stage: Stage::Finding, ..self }, StepModel::Call(StoreRequest::Find))
    }

    /// A read is asked for, or first a find where the handle is not known.
    pub open spec fn ask_read(self) -> (WatcherModel, StepModel) {
        match self.cache {
            HandleCache::Resolved(handle) => (
                WatcherModel { stage: Stage::Reading, ..self },
                StepModel::Call(StoreRequest::Read(handle)),
            ),
            _ => self.ask_find(),
        }
    }

    /// A wait for the property's creation is asked for: one on the global
    /// serial number, for the time left until the deadline.
    pub open spec fn ask_creation(self, now: u128) -> (WatcherModel, StepModel) {
        (
            WatcherModel { stage: Stage::AwaitingCreation, ..self },
            StepModel::Call(
                StoreRequest::Wait {
                    handle: None,
                    serial: self.global_serial,
                    timeout: remaining(self.until, now),
                },
            ),
        )
    }

    /// A wait for the property's next change is asked for: one on its own
    /// serial number, from the serial number that the watcher saw last, for
    /// the time left until the deadline. Where the handle is not known, the
    /// property is looked for instead, and waited for until it exists.
    pub open spec fn ask_change(self, now: u128) -> (WatcherModel, StepModel) {
        match self.cache {
            HandleCache::Resolved(handle) => (
                WatcherModel { stage: Stage::AwaitingChange, ..self },
                StepModel::Call(
                    StoreRequest::Wait {
                        handle: Some(handle),
                        serial: self.serial,
                        timeout: remaining(self.until, now),
                    },
                ),
            ),
            _ => WatcherModel { global_serial: 0, ..self }.ask_find(),
        }
    }

    /// A read begins.
    pub open spec fn begin_read(self) -> (WatcherModel, StepModel) {
        WatcherModel { goal: Aim::Read, until: None, global_serial: 0, ..self }.ask_read()
    }

    /// A wait for the next change begins at `now`.
    pub open spec fn begin_wait(self, timeout: Option<u128>, now: u128) -> (
        WatcherModel,
        StepModel,
    ) {
        WatcherModel {
            goal: Aim::Change,
            until: deadline_after(now, timeout),
            global_serial: 0,
            ..self
        }.ask_change(now)
    }

    /// A wait for the value `expected` begins at `now`.
    pub open spec fn begin_wait_for_value(
        self,
        expected: Seq<char>,
        timeout: Option<u128>,
        now: u128,
    ) -> (WatcherModel, StepModel) {
        WatcherModel {
            goal: Aim::Value(expected),
            until: deadline_after(now, timeout),
            global_serial: 0,
            ..self
        }.ask_read()
    }

    /// The store answered a find.
    pub open spec fn after_find(self, found: Option<PropertyHandle>, now: u128) -> (
        WatcherModel,
        StepModel,
    ) {
        let next = WatcherModel { cache: self.cache.record(found), ..self };
        match next.cache {
            HandleCache::Resolved(_) => match next.goal {
                Aim::Change => next.finish(Ok(())),
                _ => next.ask_read(),
            },
            _ => match next.goal {
                Aim::Read => next.finish(Err(PropertyWatcherError::SystemPropertyAbsent)),
                _ => next.ask_creation(now),
            },
        }
    }

    /// The store answered a read.
    pub open spec fn after_read(self, report: ReadReport, now: u128) -> (WatcherModel, StepModel) {
        match decoded(report) {
            Err(e) => self.finish(Err(e)),
            Ok((name, value)) => match self.goal {
                Aim::Value(expected) => if value == expected {
                    self.finish(Ok(()))
                } else {
                    self.ask_change(now)
                },
                _ => (WatcherModel { stage: Stage::Idle, ..self }, StepModel::Value { name, value }),
            },
        }
    }

    /// The store answered a wait.
    pub open spec fn after_wait(self, serial: u32, changed: bool) -> (WatcherModel, StepModel) {
        if !changed {
            self.finish(Err(PropertyWatcherError::WaitFailed))
        } else if self.stage == Stage::AwaitingCreation {
            WatcherModel { global_serial: serial, ..self }.ask_find()
        } else {
            let next = WatcherModel { serial, ..self };
            match next.goal {
                Aim::Value(_) => next.ask_read(),
                _ => next.finish(Ok(())),
            }
        }
    }

    /// The watcher and the step after the store answered with `reply` at
    /// `now`.
    pub open spec fn resume(self, reply: StoreReply, now: u128) -> (WatcherModel, StepModel) {
        match reply {
            StoreReply::Found(found) => self.after_find(found, now),
            StoreReply::Read(report) => self.after_read(report, now),
            StoreReply::Waited { serial, changed } => self.after_wait(serial, changed),
        }
    }
}

impl WatcherModel {
    /// Whether the stage fits what is known of the handle: a read or a wait
    /// for a change is under way only on a property that was found, and a
    /// wait for creation only on one that was not.
    pub open spec fn consistent(self) -> bool {
        &&& self.stage == Stage::Reading ==> self.cache is Resolved
        &&& self.stage == Stage::AwaitingChange ==> self.cache is Resolved
        &&& self.stage == Stage::AwaitingCreation ==> !(self.cache is Resolved)
    }

    /// A new watcher is consistent, and no call makes it otherwise.
    pub proof fn lemma_stays_consistent(
        self,
        reply: StoreReply,
        expected: Seq<char>,
        timeout: Option<u128>,
        now: u128,
    )
        requires
            self.consistent(),
        ensures
            WatcherModel::fresh(self.name).consistent(),
            self.begin_read().0.consistent(),
            self.begin_wait(timeout, now).0.consistent(),
            self.begin_wait_for_value(expected, timeout, now).0.consistent(),
            self.awaits(reply) ==> self.resume(reply, now).0.consistent(),
    {
    }

    /// The name never changes.
    pub proof fn lemma_name_is_kept(
        self,
        reply: StoreReply,
        expected: Seq<char>,
        timeout: Option<u128>,
        now: u128,
    )
        ensures
            self.begin_read().0.name == self.name,
            self.begin_wait(timeout, now).0.name == self.name,
            self.begin_wait_for_value(expected, timeout, now).0.name == self.name,
            self.resume(reply, now).0.name == self.name,
    {
    }

    /// The handle is resolved once: after the store has found the property,
    /// the watcher keeps that handle whatever happens.
    pub proof fn lemma_handle_is_kept(
        self,
        reply: StoreReply,
        expected: Seq<char>,
        timeout: Option<u128>,
        now: u128,
    )
        requires
            self.cache is Resolved,
        ensures
            self.begin_read().0.cache == self.cache,
            self.begin_wait(timeout, now).0.cache == self.cache,
            self.begin_wait_for_value(expected, timeout, now).0.cache == self.cache,
            self.resume(reply, now).0.cache == self.cache,
    {
    }

    /// The store is asked to find the property only while the handle is not
    /// known.
    pub proof fn lemma_find_only_while_unknown(
        self,
        reply: StoreReply,
        expected: Seq<char>,
        timeout: Option<u128>,
        now: u128,
    )
        requires
            self.consistent(),
        ensures
            self.begin_read().1 == StepModel::Call(StoreRequest::Find) ==> !(self.cache
                is Resolved),
            self.begin_wait(timeout, now).1 == StepModel::Call(StoreRequest::Find) ==> !(self.cache
                is Resolved),
            self.begin_wait_for_value(expected, timeout, now).1 == StepModel::Call(
                StoreRequest::Find,
            ) ==> !(self.cache is Resolved),
            self.awaits(reply) && self.resume(reply, now).1 == StepModel::Call(StoreRequest::Find)
                ==> !(self.resume(reply, now).0.cache is Resolved),
    {
    }

    /// The watcher awaits the answer to whatever it asked for last.
    pub proof fn lemma_answer_is_awaited(
        self,
        reply: StoreReply,
        expected: Seq<char>,
        timeout: Option<u128>,
        now: u128,
        request: StoreRequest,
        answer: StoreReply,
    )
        requires
            answers(request, answer),
        ensures
            self.begin_read().1 == StepModel::Call(request) ==> self.begin_read().0.awaits(answer),
            self.begin_wait(timeout, now).1 == StepModel::Call(request) ==> self.begin_wait(
                timeout,
                now,
            ).0.awaits(answer),
            self.begin_wait_for_value(expected, timeout, now).1 == StepModel::Call(request)
                ==> self.begin_wait_for_value(expected, timeout, now).0.awaits(answer),
            self.resume(reply, now).1 == StepModel::Call(request) ==> self.resume(
                reply,
                now,
            ).0.awaits(answer),
    {
    }

    /// No change is missed and none is seen twice. A wait on a property that
    /// exists hands the store the serial number that the watcher saw last.
    /// Where the store then reports a change, the wait succeeds, the watcher
    /// keeps the serial number that the store reported, and this differs from
    /// the one before; the next wait starts from it.
    pub proof fn lemma_wait_records_change(
        self,
        handle: PropertyHandle,
        timeout: Option<u128>,
        now: u128,
        serial: u32,
        later: u128,
    )
        requires
            self.cache == HandleCache::Resolved(handle),
            answers(self.begin_wait(timeout, now).1->Call_0, StoreReply::Waited { serial, changed: true }),
        ensures
            ({
                let (waiting, first) = self.begin_wait(timeout, now);
                let (after, last) = waiting.resume(
                    StoreReply::Waited { serial, changed: true },
                    later,
                );
                let next = after.begin_wait(timeout, later).1;
                &&& first == StepModel::Call(
                    StoreRequest::Wait {
                        handle: Some(handle),
                        serial: self.serial,
                        timeout: remaining(deadline_after(now, timeout), now),
                    },
                )
                &&& last == StepModel::Done(Ok(()))
                &&& after.serial == serial
                &&& after.serial != self.serial
                &&& next == StepModel::Call(
                    StoreRequest::Wait {
                        handle: Some(handle),
                        serial,
                        timeout: remaining(deadline_after(later, timeout), later),
                    },
                )
            }),
    {
    }

    /// A wait that the store reports as failed or timed out ends the
    /// operation with `WaitFailed` and leaves the watcher's serial number and
    /// handle as they were.
    pub proof fn lemma_failed_wait(self, serial: u32, now: u128)
        ensures
            self.resume(StoreReply::Waited { serial, changed: false }, now).1 == StepModel::Done(
                Err(PropertyWatcherError::WaitFailed),
            ),
            self.resume(StoreReply::Waited { serial, changed: false }, now).0.serial
                == self.serial,
            self.resume(StoreReply::Waited { serial, changed: false }, now).0.cache == self.cache,
            self.resume(StoreReply::Waited { serial, changed: false }, now).0.stage == Stage::Idle,
    {
    }

    /// The watcher's serial number changes in one way only: a wait on the
    /// property's own serial number succeeded. Waiting for the property's
    /// creation, finding it and reading it record no serial number.
    pub proof fn lemma_serial_changes_by_wait_only(self, reply: StoreReply, now: u128)
        requires
            self.resume(reply, now).0.serial != self.serial,
        ensures
            reply matches StoreReply::Waited { serial, changed } && changed && serial
                == self.resume(reply, now).0.serial,
            self.stage != Stage::AwaitingCreation,
    {
    }

    /// Waiting for a value that the property already holds ends at once: the
    /// watcher asks for a read, after a find where it does not know the
    /// handle yet, and on reading the expected value it is done without ever
    /// asking the store to wait.
    pub proof fn lemma_value_already_there(
        self,
        handle: PropertyHandle,
        expected: Seq<char>,
        timeout: Option<u128>,
        now: u128,
        report: ReadReport,
        later: u128,
    )
        requires
            self.cache is Resolved ==> self.cache == HandleCache::Resolved(handle),
            decoded(report) matches Ok(pair) && pair.1 == expected,
        ensures
            ({
                let (begun, first) = self.begin_wait_for_value(expected, timeout, now);
                let (found, second) = begun.resume(StoreReply::Found(Some(handle)), later);
                let reading = if self.cache is Resolved {
                    begun
                } else {
                    found
                };
                &&& self.cache is Resolved ==> first == StepModel::Call(
                    StoreRequest::Read(handle),
                )
                &&& !(self.cache is Resolved) ==> first == StepModel::Call(StoreRequest::Find)
                    && begun.awaits(StoreReply::Found(Some(handle))) && second == StepModel::Call(
                    StoreRequest::Read(handle),
                )
                &&& reading.awaits(StoreReply::Read(report))
                &&& reading.resume(StoreReply::Read(report), later).1 == StepModel::Done(Ok(()))
                &&& reading.resume(StoreReply::Read(report), later).0.serial == self.serial
            }),
    {
    }

    /// An operation has one deadline: it is fixed when the operation begins,
    /// no answer of the store moves it, and every wait that the operation
    /// asks for is given the time from then until that deadline.
    pub proof fn lemma_waits_share_deadline(self, reply: StoreReply, now: u128)
        ensures
            self.resume(reply, now).0.until == self.until,
            self.resume(reply, now).1 matches StepModel::Call(
                StoreRequest::Wait { handle, serial, timeout },
            ) ==> timeout == remaining(self.until, now),
    {
    }
}

/// PropertyWatcher takes the name of a system property such as
/// `keystore.boot_level`; it can report the current value of this property,
/// or wait for it to change.
#[derive(Debug)]
pub struct PropertyWatcher {
    prop_name: String,
    prop_info: HandleCache,
    serial: u32,
    stage: Stage,
    goal: Goal,
    expected: String,
    until: Option<u128>,
    global_serial: u32,
}

impl View for PropertyWatcher {
    type V = WatcherModel;

    closed spec fn view(&self) -> WatcherModel {
        WatcherModel {
            name: self.prop_name@,
            cache: self.prop_info,
            serial: self.serial,
            stage: self.stage,
            goal: match self.goal {
                Goal::Read => Aim::Read,
                Goal::Change => Aim::Change,
                Goal::Value => Aim::Value(self.expected@),
            },
            until: self.until,
            global_serial: self.global_serial,
        }
    }
}

impl PropertyWatcher {
    #[verifier::type_invariant]
    spec fn name_is_valid(self) -> bool {
        !has_nul(self.prop_name@)
    }

    /// Create a PropertyWatcher for the named system property.
    ///
    /// Fails on a name that holds a NUL, before anything is asked of the
    /// store.
    pub fn new(name: &str) -> (r: Result<Self, PropertyWatcherError>)
        ensures
            has_nul(name@) ==> (r matches Err(e) && e == PropertyWatcherError::BadNameError),
            !has_nul(name@) ==> (r matches Ok(w) && w@ == WatcherModel::fresh(name@)),
    {
        if contains_nul(name) {
            return Err(PropertyWatcherError::BadNameError);
        }
        Ok(
            PropertyWatcher {
                prop_name: name.to_owned(),
                prop_info: HandleCache::Untried,
                serial: 0,
                stage: Stage::Idle,
                goal: Goal::Read,
                expected: String::new(),
                until: None,
                global_serial: 0,
            },
        )
    }

    /// The property's name.
    pub fn name(&self) -> (r: &str)
        ensures
            r@ == self@.name,
            !has_nul(r@),
    {
        proof {
            use_type_invariant(self);
        }
        self.prop_name.as_str()
    }

    /// The property's serial number as the last successful wait saw it.
    pub fn serial(&self) -> (r: u32)
        ensures
            r == self@.serial,
    {
        self.serial
    }

    /// The property's handle, where the store has found the property.
    pub fn handle(&self) -> (r: Option<PropertyHandle>)
        ensures
            r == self@.cache.handle(),
    {
        match self.prop_info {
            HandleCache::Resolved(handle) => Some(handle),
            _ => None,
        }
    }

    /// Whether `reply` answers the request that this watcher made last.
    pub fn awaits(&self, reply: &StoreReply) -> (r: bool)
        ensures
            r == self@.awaits(*reply),
    {
        match reply {
            StoreReply::Found(_) => self.stage == Stage::Finding,
            StoreReply::Read(_) => self.stage == Stage::Reading,
            StoreReply::Waited { .. } => self.stage == Stage::AwaitingCreation || self.stage
                == Stage::AwaitingChange,
        }
    }

    // Keeps what the store answered to a find, unless the handle is known.
    fn get_prop_info(&mut self, found: Option<PropertyHandle>) -> (r: Option<PropertyHandle>)
        ensures
            final(self)@ == (WatcherModel { cache: old(self)@.cache.record(found), ..old(self)@ }),
            r == final(self)@.cache.handle(),
    {
        proof {
            use_type_invariant(&*self);
        }
        match self.prop_info {
            HandleCache::Resolved(handle) => Some(handle),
            _ => match found {
                Some(handle) => {
                    self.prop_info = HandleCache::Resolved(handle);
                    Some(handle)
                },
                None => {
                    self.prop_info = HandleCache::Absent;
                    None
                },
            },
        }
    }

    fn finish(&mut self, result: Result<(), PropertyWatcherError>) -> (step: Step)
        ensures
            (final(self)@, step@) == old(self)@.finish(result),
    {
        proof {
            use_type_invariant(&*self);
        }
        self.stage = Stage::Idle;
        Step::Done(result)
    }

    fn ask_find(&mut self) -> (step: Step)
        ensures
            (final(self)@, step@) == old(self)@.ask_find(),
    {
        proof {
            use_type_invariant(&*self);
        }
        self.stage = Stage::Finding;
        Step::Call(StoreRequest::Find)
    }

    fn ask_read(&mut self) -> (step: Step)
        ensures
            (final(self)@, step@) == old(self)@.ask_read(),
    {
        proof {
            use_type_invariant(&*self);
        }
        match self.prop_info {
            HandleCache::Resolved(handle) => {
                self.stage = Stage::Reading;
                Step::Call(StoreRequest::Read(handle))
            },
            _ => self.ask_find(),
        }
    }

    // Waits for the property that self is watching to be created: asks for a
    // wait on the global serial number.
    fn wait_for_property_creation_until(&mut self, now: u128) -> (step: Step)
        ensures
            (final(self)@, step@) == old(self)@.ask_creation(now),
    {
        proof {
            use_type_invariant(&*self);
        }
        let timeout = remaining_time_until(self.until, now);
        self.stage = Stage::AwaitingCreation;
        Step::Call(StoreRequest::Wait { handle: None, serial: self.global_serial, timeout })
    }

    // Waits until the system property changes, or the deadline is reached:
    // asks for a wait on the property's own serial number, from the serial
    // number of the last change.
    fn wait_for_property_change_until(&mut self, now: u128) -> (step: Step)
        ensures
            (final(self)@, step@) == old(self)@.ask_change(now),
    {
        proof {
            use_type_invariant(&*self);
        }
        match self.prop_info {
            HandleCache::Resolved(handle) => {
                let timeout = remaining_time_until(self.until, now);
                self.stage = Stage::AwaitingChange;
                Step::Call(
                    StoreRequest::Wait { handle: Some(handle), serial: self.serial, timeout },
                )
            },
            _ => {
                // If the property is not there, then wait for it to be
                // created. Subsequent waits will skip this step and wait for
                // our specific property to change.
                self.global_serial = 0;
                self.ask_find()
            },
        }
    }

    /// Begins a read of the property's name and value.
    ///
    /// The read ends in `Step::Value`, or in an error: `SystemPropertyAbsent`
    /// where the property does not exist, and otherwise what was wrong with
    /// the store's call back.
    pub fn read(&mut self) -> (step: Step)
        ensures
            (final(self)@, step@) == old(self)@.begin_read(),
    {
        proof {
            use_type_invariant(&*self);
        }
        self.goal = Goal::Read;
        self.until = None;
        self.global_serial = 0;
        self.ask_read()
    }

    /// Begins, at `now`, to wait for the system property to change, or for
    /// the timeout to elapse.
    ///
    /// This records the serial number of the last change, so race conditions
    /// are avoided. While the property does not exist, the wait is for its
    /// creation, and ends with it.
    pub fn wait(&mut self, timeout: Option<u128>, now: u128) -> (step: Step)
        ensures
            (final(self)@, step@) == old(self)@.begin_wait(timeout, now),
    {
        proof {
            use_type_invariant(&*self);
        }
        self.goal = Goal::Change;
        self.until = deadline(timeout, now);
        self.global_serial = 0;
        self.wait_for_property_change_until(now)
    }

    /// Begins, at `now`, to wait until the property exists and has the given
    /// value.
    pub fn wait_for_value(&mut self, expected_value: &str, timeout: Option<u128>, now: u128) -> (step:
        Step)
        ensures
            (final(self)@, step@) == old(self)@.begin_wait_for_value(
                expected_value@,
                timeout,
                now,
            ),
    {
        proof {
            use_type_invariant(&*self);
        }
        self.goal = Goal::Value;
        self.expected = expected_value.to_owned();
        self.until = deadline(timeout, now);
        self.global_serial = 0;
        self.ask_read()
    }

    /// Goes on with the operation under way, now that the store has answered
    /// the request with `reply`, at the time `now`.
    pub fn resume(&mut self, reply: StoreReply, now: u128) -> (step: Step)
        requires
            old(self)@.awaits(reply),
        ensures
            (final(self)@, step@) == old(self)@.resume(reply, now),
    {
        proof {
            use_type_invariant(&*self);
        }
        match reply {
            StoreReply::Found(found) => {
                match self.get_prop_info(found) {
                    Some(_) => match self.goal {
                        Goal::Change => self.finish(Ok(())),
                        _ => self.ask_read(),
                    },
                    None => match self.goal {
                        Goal::Read => self.finish(Err(PropertyWatcherError::SystemPropertyAbsent)),
                        _ => self.wait_for_property_creation_until(now),
                    },
                }
            },
            StoreReply::Read(report) => {
                match self.goal {
                    Goal::Value => {
                        let expected = self.expected.as_str();
                        let differs = |name: &str, value: &str| -> (out: Result<bool, String>)
                            ensures
                                out == Ok::<bool, String>(value@ != expected@),
                            { Ok(!text_eq(value, expected)) };
                        match marshal(&report, differs) {
                            Err(e) => self.finish(Err(e)),
                            Ok(false) => self.finish(Ok(())),
                            Ok(true) => self.wait_for_property_change_until(now),
                        }
                    },
                    _ => match decode(&report) {
                        Err(e) => self.finish(Err(e)),
                        Ok((name, value)) => {
                            self.stage = Stage::Idle;
                            Step::Value { name, value }
                        },
                    },
                }
            },
            StoreReply::Waited { serial, changed } => {
                if !changed {
                    self.finish(Err(PropertyWatcherError::WaitFailed))
                } else if self.stage == Stage::AwaitingCreation {
                    self.global_serial = serial;
                    self.ask_find()
                } else {
                    self.serial = serial;
                    match self.goal {
                        Goal::Value => self.ask_read(),
                        _ => self.finish(Ok(())),
                    }
                }
            },
        }
    }
}

} // verus!
