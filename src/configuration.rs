//! Subscribers and the monitor's settings, as loaded at startup.
use vstd::prelude::*;

use crate::log_record::{LogClass, LogLevel};

verus! {

/// A named destination with its own inclusion rules.
pub struct Notification {
    name: String,
    include_level: Vec<LogLevel>,
    include_class: Vec<LogClass>,
}

/// What a subscriber is: its name and the levels and classes it asks for.
pub struct NotificationModel {
    pub name: Seq<char>,
    pub levels: Set<LogLevel>,
    pub classes: Set<LogClass>,
}

impl View for Notification {
    type V = NotificationModel;

    closed spec fn view(&self) -> NotificationModel {
        NotificationModel {
            name: self.name@,
            levels: self.include_level@.to_set(),
            classes: self.include_class@.to_set(),
        }
    }
}

/// The monitor's settings: which file to follow, how often, and for whom.
pub struct MonitorConfiguration {
    log_path: String,
    frequency: u64,
    notification: Vec<Notification>,
}

/// What a [`MonitorConfiguration`] holds.
pub struct MonitorModel {
    pub log_path: Seq<char>,
    pub frequency: u64,
    pub notification: Seq<Notification>,
}

impl View for MonitorConfiguration {
    type V = MonitorModel;

    closed spec fn view(&self) -> MonitorModel {
        MonitorModel {
            log_path: self.log_path@,
            frequency: self.frequency,
            notification: self.notification@,
        }
    }
}

/// The levels of a subscriber whose settings name none.
pub open spec fn default_level_list() -> Seq<LogLevel> {
    seq![LogLevel::Error]
}

/// The classes of a subscriber whose settings name none.
pub open spec fn default_class_list() -> Seq<LogClass> {
    seq![LogClass::ServerVersion, LogClass::ServerStart, LogClass::ServerStop]
}

/// Seconds between two polls when the settings name none.
pub fn default_freq() -> (r: u64)
    ensures
        r == 5,
{
    5
}

/// The levels a subscriber receives when its settings name none.
pub fn default_levels() -> (r: Vec<LogLevel>)
    ensures
        r@ == default_level_list(),
{
    vec![LogLevel::Error]
}

/// The classes a subscriber receives when its settings name none.
pub fn default_classes() -> (r: Vec<LogClass>)
    ensures
        r@ == default_class_list(),
{
    vec![LogClass::ServerVersion, LogClass::ServerStart, LogClass::ServerStop]
}

fn copy_levels(v: &Vec<LogLevel>) -> (r: Vec<LogLevel>)
    ensures
        r@ == v@,
{
    let mut r: Vec<LogLevel> = Vec::new();
    for i in 0..v.len()
        invariant
            r@ == v@.subrange(0, i as int),
    {
        r.push(v[i]);
    }
    assert(r@ =~= v@);
    r
}

fn copy_classes(v: &Vec<LogClass>) -> (r: Vec<LogClass>)
    ensures
        r@ == v@,
{
    let mut r: Vec<LogClass> = Vec::new();
    for i in 0..v.len()
        invariant
            r@ == v@.subrange(0, i as int),
    {
        r.push(v[i]);
    }
    assert(r@ =~= v@);
    r
}

impl Notification {
    pub fn new(name: &str, include_level: Vec<LogLevel>, include_class: Vec<LogClass>) -> (r:
        Notification)
        ensures
            r@.name == name@,
            r@.levels == include_level@.to_set(),
            r@.classes == include_class@.to_set(),
    {
        Notification { name: name.to_owned(), include_level, include_class }
    }

    pub fn name(&self) -> (r: &str)
        ensures
            r@ == self@.name,
    {
        self.name.as_str()
    }

    /// The levels this subscriber receives.
    pub fn include_level(&self) -> (r: Vec<LogLevel>)
        ensures
            r@.to_set() == self@.levels,
    {
        copy_levels(&self.include_level)
    }

    /// The classes this subscriber receives.
    pub fn include_class(&self) -> (r: Vec<LogClass>)
        ensures
            r@.to_set() == self@.classes,
    {
        copy_classes(&self.include_class)
    }

    /// Whether this subscriber asks for records of `level`.
    pub fn includes_level(&self, level: LogLevel) -> (r: bool)
        ensures
            r == self@.levels.contains(level),
    {
        let mut i: usize = 0;
        while i < self.include_level.len()
            invariant
                i <= self.include_level.len(),
                forall|j: int| 0 <= j < i ==> self.include_level@[j] != level,
            decreases self.include_level.len() - i,
        {
            if self.include_level[i] == level {
                assert(self.include_level@.contains(level));
                return true;
            }
            i = i + 1;
        }
        false
    }

    /// Whether this subscriber asks for records of `class`.
    pub fn includes_class(&self, class: LogClass) -> (r: bool)
        ensures
            r == self@.classes.contains(class),
    {
        let mut i: usize = 0;
        while i < self.include_class.len()
            invariant
                i <= self.include_class.len(),
                forall|j: int| 0 <= j < i ==> self.include_class@[j] != class,
            decreases self.include_class.len() - i,
        {
            if self.include_class[i] == class {
                assert(self.include_class@.contains(class));
                return true;
            }
            i = i + 1;
        }
        false
    }
}

impl MonitorConfiguration {
    pub fn new(log_path: String, frequency: u64, notification: Vec<Notification>) -> (r:
        MonitorConfiguration)
        ensures
            r@.log_path == log_path@,
            r@.frequency == frequency,
            r@.notification == notification@,
    {
        MonitorConfiguration { log_path, frequency, notification }
    }

    /// The path of the followed log file.
    pub fn log_path(&self) -> (r: &str)
        ensures
            r@ == self@.log_path,
    {
        self.log_path.as_str()
    }

    /// Seconds between two polls.
    pub fn frequency(&self) -> (r: u64)
        ensures
            r == self@.frequency,
    {
        self.frequency
    }

    /// The subscribers, in the order of the settings.
    pub fn notification(&self) -> (r: &[Notification])
        ensures
            r@ == self@.notification,
    {
        self.notification.as_slice()
    }
}

} // verus!
