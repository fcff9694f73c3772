//! The memory controller's interface files (`memory.*`).
use vstd::prelude::*;

use crate::common::Max;
use crate::error::{decoded, malformed, CGroupError, Result};
use crate::psi::{memory_pressure, MemoryPressure};
use crate::num::{decimal, format_unsigned};
use crate::text::same_text;
use crate::util::{
    distinct_keys, entries_map, file_write, flat_map, flat_record, join_path,
    read_flat_keyed_file, read_flat_keyed_file_map, read_single_value, single_decoded, FileWrite,
};
use crate::FlatKeyedSetter;

verus! {

// The names of the interface files.
pub const CURRENT: &'static str = "memory.current";

pub const MIN: &'static str = "memory.min";

pub const LOW: &'static str = "memory.low";

pub const HIGH: &'static str = "memory.high";

pub const MAX: &'static str = "memory.max";

pub const OOM_GROUP: &'static str = "memory.oom.group";

pub const EVENTS: &'static str = "memory.events";

pub const EVENTS_LOCAL: &'static str = "memory.events.local";

pub const STAT: &'static str = "memory.stat";

pub const SWAP_CURRENT: &'static str = "memory.swap.current";

pub const SWAP_HIGH: &'static str = "memory.swap.high";

pub const SWAP_MAX: &'static str = "memory.swap.max";

pub const SWAP_EVENTS: &'static str = "memory.swap.events";

pub const PRESSURE: &'static str = "memory.pressure";

/// The memory controller's files of one cgroup.
#[derive(Debug, PartialEq, Eq)]
pub struct Memory {
    path: String,
}

impl View for Memory {
    type V = Seq<char>;

    closed spec fn view(&self) -> Seq<char> {
        self.path@
    }
}

impl Memory {
    pub fn new(path: String) -> (r: Memory)
        ensures
            r@ == path@,
    {
        Memory { path }
    }

    /// `memory.current`.
    pub fn current(&self, content: &str) -> (r: Result<u64>)
        ensures
            single_decoded(r, content@),
    {
        read_single_value(content)
    }

    /// `memory.min`.
    pub fn min(&self, content: &str) -> (r: Result<u64>)
        ensures
            single_decoded(r, content@),
    {
        read_single_value(content)
    }

    /// The write to `memory.min`.
    pub fn set_min(&self, min: u64) -> (r: FileWrite)
        ensures
            r.path@ == join_path(self@, MIN@),
            r.content@ == decimal(min as nat),
    {
        file_write(self.path.as_str(), MIN, format_unsigned(min))
    }

    /// `memory.low`.
    pub fn low(&self, content: &str) -> (r: Result<u64>)
        ensures
            single_decoded(r, content@),
    {
        read_single_value(content)
    }

    /// The write to `memory.low`.
    pub fn set_low(&self, low: u64) -> (r: FileWrite)
        ensures
            r.path@ == join_path(self@, LOW@),
            r.content@ == decimal(low as nat),
    {
        file_write(self.path.as_str(), LOW, format_unsigned(low))
    }

    /// `memory.high`.
    pub fn high(&self, content: &str) -> (r: Result<u64>)
        ensures
            single_decoded(r, content@),
    {
        read_single_value(content)
    }

    /// The write to `memory.high`.
    pub fn set_high(&self, high: u64) -> (r: FileWrite)
        ensures
            r.path@ == join_path(self@, HIGH@),
            r.content@ == decimal(high as nat),
    {
        file_write(self.path.as_str(), HIGH, format_unsigned(high))
    }

    /// `memory.max`.
    pub fn max(&self, content: &str) -> (r: Result<Max>)
        ensures
            single_decoded(r, content@),
    {
        read_single_value(content)
    }

    /// The write to `memory.max`.
    pub fn set_max(&self, max: u64) -> (r: FileWrite)
        ensures
            r.path@ == join_path(self@, MAX@),
            r.content@ == decimal(max as nat),
    {
        file_write(self.path.as_str(), MAX, format_unsigned(max))
    }

    /// `memory.oom.group`.
    pub fn oom_group(&self, content: &str) -> (r: Result<u8>)
        ensures
            single_decoded(r, content@),
    {
        read_single_value(content)
    }

    /// The write to `memory.oom.group`.
    pub fn set_oom_group(&self, i: u8) -> (r: FileWrite)
        ensures
            r.path@ == join_path(self@, OOM_GROUP@),
            r.content@ == decimal(i as nat),
    {
        file_write(self.path.as_str(), OOM_GROUP, format_unsigned(i as u64))
    }

    /// `memory.events`.
    pub fn events(&self, content: &str) -> (r: Result<Event>)
        ensures
            decoded(r, flat_record::<u32, Event>(content@), content@),
    {
        read_flat_keyed_file::<u32, Event>(content)
    }

    /// `memory.events.local`.
    pub fn events_local(&self, content: &str) -> (r: Result<Event>)
        ensures
            decoded(r, flat_record::<u32, Event>(content@), content@),
    {
        read_flat_keyed_file::<u32, Event>(content)
    }

    /// `memory.stat`: one entry per key of the file.
    pub fn stat(&self, content: &str) -> (r: Result<Vec<(String, u64)>>)
        ensures
            match r {
                Ok(es) => distinct_keys(es@) && flat_map::<u64>(content@) == Some(
                    entries_map(es@),
                ),
                Err(_) => flat_map::<u64>(content@) is None && malformed(r, content@),
            },
    {
        read_flat_keyed_file_map::<u64>(content)
    }

    /// `memory.swap.current`.
    pub fn swap_current(&self, content: &str) -> (r: Result<u64>)
        ensures
            single_decoded(r, content@),
    {
        read_single_value(content)
    }

    /// `memory.swap.high`.
    pub fn swap_high(&self, content: &str) -> (r: Result<Max>)
        ensures
            single_decoded(r, content@),
    {
        read_single_value(content)
    }

    /// The write to `memory.swap.high`.
    pub fn set_swap_high(&self, max: u32) -> (r: FileWrite)
        ensures
            r.path@ == join_path(self@, SWAP_HIGH@),
            r.content@ == decimal(max as nat),
    {
        file_write(self.path.as_str(), SWAP_HIGH, format_unsigned(max as u64))
    }

    /// `memory.swap.max`.
    pub fn swap_max(&self, content: &str) -> (r: Result<Max>)
        ensures
            single_decoded(r, content@),
    {
        read_single_value(content)
    }

    /// The write to `memory.swap.max`.
    pub fn set_swap_max(&self, max: u32) -> (r: FileWrite)
        ensures
            r.path@ == join_path(self@, SWAP_MAX@),
            r.content@ == decimal(max as nat),
    {
        file_write(self.path.as_str(), SWAP_MAX, format_unsigned(max as u64))
    }

    /// `memory.pressure`: the whole file is read; an empty file is
    /// [`CGroupError::EmptyFileErr`].
    pub fn pressure(&self, content: &str) -> (r: Result<MemoryPressure>)
        ensures
            content@.len() == 0 ==> r is Err && r->Err_0 == CGroupError::EmptyFileErr,
            content@.len() > 0 ==> match memory_pressure(content@) {
                Ok(p) => r is Ok && r->Ok_0.some@ == p.0 && r->Ok_0.full@ == p.1,
                Err(t) => malformed(r, t),
            },
    {
        if content.unicode_len() == 0 {
            return Err(CGroupError::EmptyFileErr);
        }
        MemoryPressure::from_str(content)
    }

    /// `memory.swap.events`.
    pub fn swap_events(&self, content: &str) -> (r: Result<SwapEvent>)
        ensures
            decoded(r, flat_record::<u32, SwapEvent>(content@), content@),
    {
        read_flat_keyed_file::<u32, SwapEvent>(content)
    }
}

/// `memory.events`: how often each memory boundary was hit.
#[derive(Debug, PartialEq, Eq, Structural, Clone, Copy)]
pub struct Event {
    pub low: u32,
    pub high: u32,
    pub max: u32,
    pub oom: u32,
    pub oom_kill: u32,
}

impl FlatKeyedSetter<u32> for Event {
    open spec fn initial() -> Event {
        Event { low: 0, high: 0, max: 0, oom: 0, oom_kill: 0 }
    }

    open spec fn knows(key: Seq<char>) -> bool {
        key == "low"@ || key == "high"@ || key == "max"@ || key == "oom"@ || key == "oom_kill"@
    }

    open spec fn with_field(self, key: Seq<char>, val: u32) -> Event {
        if key == "low"@ {
            Event { low: val, ..self }
        } else if key == "high"@ {
            Event { high: val, ..self }
        } else if key == "max"@ {
            Event { max: val, ..self }
        } else if key == "oom"@ {
            Event { oom: val, ..self }
        } else if key == "oom_kill"@ {
            Event { oom_kill: val, ..self }
        } else {
            self
        }
    }

    fn new() -> (r: Event) {
        Event { low: 0, high: 0, max: 0, oom: 0, oom_kill: 0 }
    }

    fn set(&mut self, s: &str, val: u32) {
        if same_text(s, "low") {
            self.low = val;
        } else if same_text(s, "high") {
            self.high = val;
        } else if same_text(s, "max") {
            self.max = val;
        } else if same_text(s, "oom") {
            self.oom = val;
        } else if same_text(s, "oom_kill") {
            self.oom_kill = val;
        }
    }

    fn is_field(s: &str) -> (r: bool) {
        same_text(s, "low") || same_text(s, "high") || same_text(s, "max") || same_text(s, "oom")
            || same_text(s, "oom_kill")
    }
}

/// `memory.swap.events`: how often each swap boundary was hit.
#[derive(Debug, PartialEq, Eq, Structural, Clone, Copy)]
pub struct SwapEvent {
    pub high: u32,
    pub max: u32,
    pub fail: u32,
}

impl FlatKeyedSetter<u32> for SwapEvent {
    open spec fn initial() -> SwapEvent {
        SwapEvent { high: 0, max: 0, fail: 0 }
    }

    open spec fn knows(key: Seq<char>) -> bool {
        key == "high"@ || key == "max"@ || key == "fail"@
    }

    open spec fn with_field(self, key: Seq<char>, val: u32) -> SwapEvent {
        if key == "high"@ {
            SwapEvent { high: val, ..self }
        } else if key == "max"@ {
            SwapEvent { max: val, ..self }
        } else if key == "fail"@ {
            SwapEvent { fail: val, ..self }
        } else {
            self
        }
    }

    fn new() -> (r: SwapEvent) {
        SwapEvent { high: 0, max: 0, fail: 0 }
    }

    fn set(&mut self, s: &str, val: u32) {
        if same_text(s, "high") {
            self.high = val;
        } else if same_text(s, "max") {
            self.max = val;
        } else if same_text(s, "fail") {
            self.fail = val;
        }
    }

    fn is_field(s: &str) -> (r: bool) {
        same_text(s, "high") || same_text(s, "max") || same_text(s, "fail")
    }
}

} // verus!
