//! The operational log: a bounded queue that never makes its writers wait.
use vstd::prelude::*;

use crate::json::{opt_json, Json, JsonView};

verus! {

/// How grave a record is.
#[derive(Debug, Clone, Copy, PartialEq, Eq, Structural)]
pub enum LogLevel {
    Debug,
    Info,
    Warn,
    Error,
}

/// The part that a record is about.
#[derive(Debug, Clone, Copy, PartialEq, Eq, Structural)]
pub enum LogComponent {
    Proxy,
    Registry,
    Oauth,
    Config,
}

/// The name of a part.
pub open spec fn component_name(c: LogComponent) -> Seq<char> {
    match c {
        LogComponent::Proxy => "proxy"@,
        LogComponent::Registry => "registry"@,
        LogComponent::Oauth => "oauth"@,
        LogComponent::Config => "config"@,
    }
}

impl LogComponent {
    /// The name of the part.
    pub fn as_str(&self) -> (r: &'static str)
        ensures
            r@ == component_name(*self),
    {
        match self {
            LogComponent::Proxy => "proxy",
            LogComponent::Registry => "registry",
            LogComponent::Oauth => "oauth",
            LogComponent::Config => "config",
        }
    }
}

/// The name of a level.
pub open spec fn level_name(l: LogLevel) -> Seq<char> {
    match l {
        LogLevel::Debug => "debug"@,
        LogLevel::Info => "info"@,
        LogLevel::Warn => "warn"@,
        LogLevel::Error => "error"@,
    }
}

impl LogLevel {
    /// The name of the level.
    pub fn as_str(&self) -> (r: &'static str)
        ensures
            r@ == level_name(*self),
    {
        match self {
            LogLevel::Debug => "debug",
            LogLevel::Info => "info",
            LogLevel::Warn => "warn",
            LogLevel::Error => "error",
        }
    }
}

/// A record of the log. It holds no credential.
#[derive(Debug)]
pub struct OperationalLogEvent {
    pub level: LogLevel,
    pub component: LogComponent,
    pub event: String,
    pub message: String,
    pub fields: Option<Json>,
}

/// What an [`OperationalLogEvent`] says.
#[verifier::ext_equal]
pub ghost struct LogView {
    pub level: LogLevel,
    pub component: LogComponent,
    pub event: Seq<char>,
    pub message: Seq<char>,
    pub fields: Option<JsonView>,
}

impl View for OperationalLogEvent {
    type V = LogView;

    open spec fn view(&self) -> LogView {
        LogView {
            level: self.level,
            component: self.component,
            event: self.event@,
            message: self.message@,
            fields: opt_json(self.fields),
        }
    }
}

/// How many records wait at most, where nothing else is said.
pub const DEFAULT_CAPACITY: usize = 1024;

/// Whether a record went into a queue of at most `limit`, given the queue and the number of
/// dropped records before and after.
pub open spec fn emitted(
    before: Seq<OperationalLogEvent>,
    after: Seq<OperationalLogEvent>,
    lost_before: u64,
    lost_after: u64,
    limit: usize,
    event: OperationalLogEvent,
    r: bool,
) -> bool {
    &&& r == (before.len() < limit)
    &&& r ==> after == before.push(event) && lost_after == lost_before
    &&& !r ==> after == before && lost_after == crate::mtls::crl::bumped(lost_before)
}

/// The records that wait to be written, and how many were dropped.
pub struct OperationalLogEmitter {
    waiting: Vec<OperationalLogEvent>,
    capacity: usize,
    dropped: u64,
}

impl OperationalLogEmitter {
    #[verifier::type_invariant]
    spec fn wf(self) -> bool {
        self.waiting@.len() <= self.capacity && self.capacity >= 1
    }

    /// The records that wait, the oldest first.
    pub closed spec fn queue(self) -> Seq<OperationalLogEvent> {
        self.waiting@
    }

    /// How many records wait at most.
    pub closed spec fn limit(self) -> usize {
        self.capacity
    }

    /// How many records were dropped.
    pub closed spec fn lost(self) -> u64 {
        self.dropped
    }

    /// An empty queue for the given number of records, and for one at least.
    pub fn new(capacity: usize) -> (r: OperationalLogEmitter)
        ensures
            r.queue() == Seq::<OperationalLogEvent>::empty(),
            r.limit() == if capacity == 0 {
                1
            } else {
                capacity
            },
            r.lost() == 0,
    {
        let capacity: usize = if capacity == 0 {
            1
        } else {
            capacity
        };
        OperationalLogEmitter { waiting: Vec::new(), capacity, dropped: 0 }
    }

    /// Puts a record into the queue; where the queue is full the record is
    /// dropped and counted. Whether it went in.
    pub fn emit(&mut self, event: OperationalLogEvent) -> (r: bool)
        ensures
            final(self).limit() == old(self).limit(),
            emitted(
                old(self).queue(),
                final(self).queue(),
                old(self).lost(),
                final(self).lost(),
                old(self).limit(),
                event,
                r,
            ),
    {
        proof {
            use_type_invariant(&*self);
        }
        if self.waiting.len() < self.capacity {
            let mut waiting: Vec<OperationalLogEvent> = Vec::new();
            std::mem::swap(&mut waiting, &mut self.waiting);
            waiting.push(event);
            self.waiting = waiting;
            true
        } else {
            self.dropped = if self.dropped == u64::MAX {
                0
            } else {
                self.dropped + 1
            };
            false
        }
    }

    /// Takes out all records that wait, the oldest first.
    pub fn drain(&mut self) -> (r: Vec<OperationalLogEvent>)
        ensures
            r@ == old(self).queue(),
            final(self).queue() == Seq::<OperationalLogEvent>::empty(),
            final(self).limit() == old(self).limit(),
            final(self).lost() == old(self).lost(),
    {
        proof {
            use_type_invariant(&*self);
        }
        let mut waiting: Vec<OperationalLogEvent> = Vec::new();
        std::mem::swap(&mut waiting, &mut self.waiting);
        waiting
    }

    /// How many records were dropped.
    pub fn dropped_count(&self) -> (r: u64)
        ensures
            r == self.lost(),
    {
        self.dropped
    }
}

/// Every part of the daemon and every level is written under its own word.
pub proof fn law_names_in_the_log(a: LogComponent, b: LogComponent, l: LogLevel, k: LogLevel)
    ensures
        component_name(LogComponent::Proxy) == "proxy"@,
        component_name(LogComponent::Registry) == "registry"@,
        component_name(LogComponent::Oauth) == "oauth"@,
        component_name(LogComponent::Config) == "config"@,
        level_name(LogLevel::Debug) == "debug"@,
        level_name(LogLevel::Info) == "info"@,
        level_name(LogLevel::Warn) == "warn"@,
        level_name(LogLevel::Error) == "error"@,
        a != b ==> component_name(a) != component_name(b),
        l != k ==> level_name(l) != level_name(k),
{
    reveal_strlit("proxy");
    reveal_strlit("registry");
    reveal_strlit("oauth");
    reveal_strlit("config");
    reveal_strlit("debug");
    reveal_strlit("info");
    reveal_strlit("warn");
    reveal_strlit("error");
    assert("proxy"@[0] == 'p' && "registry"@[0] == 'r' && "oauth"@[0] == 'o');
    assert("config"@[0] == 'c');
    assert("debug"@[0] == 'd' && "info"@[0] == 'i' && "warn"@[0] == 'w' && "error"@[0] == 'e');
}

/// No record goes missing without being counted: it waits behind those that were there, or,
/// where the queue is full, is counted as dropped. What waits stays in its order, and no more
/// wait than may.
pub proof fn law_records_wait_or_are_counted(
    before: Seq<OperationalLogEvent>,
    after: Seq<OperationalLogEvent>,
    lost_before: u64,
    lost_after: u64,
    limit: usize,
    event: OperationalLogEvent,
    r: bool,
)
    requires
        emitted(before, after, lost_before, lost_after, limit, event, r),
        before.len() <= limit,
        lost_before < u64::MAX,
    ensures
        after.len() + lost_after == before.len() + lost_before + 1,
        after.len() <= limit,
        r ==> after.last() == event,
        before.len() == limit ==> lost_after == lost_before + 1,
        before.len() < limit ==> lost_after == lost_before,
        forall|i: int| 0 <= i < before.len() ==> after[i] == before[i],
{
}

} // verus!
