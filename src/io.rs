//! The IO controller's interface files (`io.*`).
use vstd::prelude::*;

use crate::error::{malformed, malformed_err, CGroupError, Result};
use crate::psi::opt_view;
use crate::text::{
    same_text, split_char, split_on, split_once, split_once_char, split_words, texts, words,
};
use crate::util::{
    distinct_keys, entries_map, inline_record, nested_table, read_inline_record,
    read_nested_keyed_file, upsert,
};
use crate::{FieldKey, FieldRecord, FieldValue, FlatKeyedSetter};

verus! {

// The names of the interface files.
pub const STAT: &'static str = "io.stat";

pub const COST_QOS: &'static str = "cost.qos";

/// The IO controller's files of one cgroup.
#[derive(Debug, PartialEq, Eq)]
pub struct IO {
    path: String,
}

impl View for IO {
    type V = Seq<char>;

    closed spec fn view(&self) -> Seq<char> {
        self.path@
    }
}

impl IO {
    pub fn new(path: String) -> (r: IO)
        ensures
            r@ == path@,
    {
        IO { path }
    }

    /// `io.stat`: one entry per device.
    pub fn stat(&self, content: &str) -> (r: Result<Vec<(DeviceNumber, Stat)>>)
        ensures
            match nested_table::<DeviceNumber, Stat>(content@) {
                Ok(m) => r is Ok && distinct_keys(r->Ok_0@) && entries_map(r->Ok_0@) == m,
                Err(t) => malformed(r, t),
            },
    {
        read_nested_keyed_file::<DeviceNumber, Stat>(content)
    }
}

/// A device, by its major and minor numbers (`maj:min`).
#[derive(Debug, PartialEq, Eq, Structural, Clone, Copy, Hash)]
pub struct DeviceNumber {
    pub maj: u32,
    pub min: u32,
}

impl View for DeviceNumber {
    type V = DeviceNumber;

    open spec fn view(&self) -> DeviceNumber {
        *self
    }
}

impl FieldKey for DeviceNumber {
    fn same_key(&self, other: &DeviceNumber) -> (r: bool) {
        self.maj == other.maj && self.min == other.min
    }
}

impl FieldValue for DeviceNumber {
    /// The text before the first `:` is the major number, the text after it up to
    /// any further `:` the minor number.
    open spec fn parse_spec(s: Seq<char>) -> Option<DeviceNumber> {
        let ps = split_on(s, ':');
        if ps.len() < 2 {
            None
        } else {
            match (u32::parse_spec(ps[0]), u32::parse_spec(ps[1])) {
                (Some(maj), Some(min)) => Some(DeviceNumber { maj, min }),
                _ => None,
            }
        }
    }

    fn parse(s: &str) -> (r: Option<DeviceNumber>) {
        let ps = split_char(s, ':');
        assert(texts(ps@).len() == ps@.len());
        if ps.len() < 2 {
            return None;
        }
        match (u32::parse(ps[0].as_str()), u32::parse(ps[1].as_str())) {
            (Some(maj), Some(min)) => Some(DeviceNumber { maj, min }),
            _ => None,
        }
    }
}

/// `io.stat`: bytes and operations per device, for reads, writes and discards.
#[derive(Debug, PartialEq, Eq, Structural, Clone, Copy)]
pub struct Stat {
    pub rbytes: u32,
    pub wbytes: u32,
    pub rios: u32,
    pub wios: u32,
    pub dbytes: u32,
    pub dios: u32,
}

impl FlatKeyedSetter<u32> for Stat {
    open spec fn initial() -> Stat {
        Stat { rbytes: 0, wbytes: 0, rios: 0, wios: 0, dbytes: 0, dios: 0 }
    }

    open spec fn knows(key: Seq<char>) -> bool {
        key == "rbytes"@ || key == "wbytes"@ || key == "rios"@ || key == "wios"@ || key
            == "dbytes"@ || key == "dios"@
    }

    open spec fn with_field(self, key: Seq<char>, val: u32) -> Stat {
        if key == "rbytes"@ {
            Stat { rbytes: val, ..self }
        } else if key == "wbytes"@ {
            Stat { wbytes: val, ..self }
        } else if key == "rios"@ {
            Stat { rios: val, ..self }
        } else if key == "wios"@ {
            Stat { wios: val, ..self }
        } else if key == "dbytes"@ {
            Stat { dbytes: val, ..self }
        } else if key == "dios"@ {
            Stat { dios: val, ..self }
        } else {
            self
        }
    }

    fn new() -> (r: Stat) {
        Stat { rbytes: 0, wbytes: 0, rios: 0, wios: 0, dbytes: 0, dios: 0 }
    }

    fn set(&mut self, s: &str, val: u32) {
        if same_text(s, "rbytes") {
            self.rbytes = val;
        } else if same_text(s, "wbytes") {
            self.wbytes = val;
        } else if same_text(s, "rios") {
            self.rios = val;
        } else if same_text(s, "wios") {
            self.wios = val;
        } else if same_text(s, "dbytes") {
            self.dbytes = val;
        } else if same_text(s, "dios") {
            self.dios = val;
        }
    }

    fn is_field(s: &str) -> (r: bool) {
        same_text(s, "rbytes") || same_text(s, "wbytes") || same_text(s, "rios") || same_text(
            s,
            "wios",
        ) || same_text(s, "dbytes") || same_text(s, "dios")
    }
}

impl FieldValue for Stat {
    /// A line of `k=v` words, as [`inline_record`] reads it.
    open spec fn parse_spec(s: Seq<char>) -> Option<Stat> {
        match inline_record::<u32, Stat>(s) {
            Ok(t) => Some(t),
            Err(_) => None,
        }
    }

    fn parse(s: &str) -> (r: Option<Stat>) {
        match read_inline_record::<u32, Stat>(s) {
            Ok(t) => Some(t),
            Err(_) => None,
        }
    }
}

impl FieldRecord for Stat {
    open spec fn fault(s: Seq<char>) -> Seq<char> {
        match inline_record::<u32, Stat>(s) {
            Ok(_) => s,
            Err(t) => t,
        }
    }

    fn decode(s: &str) -> (r: Result<Stat>) {
        read_inline_record::<u32, Stat>(s)
    }
}

/// Who sets the IO cost model's parameters: the kernel (`auto`) or the user (`user`).
#[derive(Debug, PartialEq, Eq, Structural, Clone, Copy)]
pub enum Ctrl {
    Auto,
    User,
}

impl FieldValue for Ctrl {
    open spec fn parse_spec(s: Seq<char>) -> Option<Ctrl> {
        if s == "auto"@ {
            Some(Ctrl::Auto)
        } else if s == "user"@ {
            Some(Ctrl::User)
        } else {
            None
        }
    }

    fn parse(s: &str) -> (r: Option<Ctrl>) {
        if same_text(s, "auto") {
            Some(Ctrl::Auto)
        } else if same_text(s, "user") {
            Some(Ctrl::User)
        } else {
            None
        }
    }
}

/// What a record of `cost.qos` holds.
pub struct CostQosView {
    pub enable: u8,
    pub ctrl: Ctrl,
    pub rpct: Option<Seq<char>>,
    pub rlat: u32,
    pub wpct: Option<Seq<char>>,
    pub wlat: u32,
    pub min: u16,
    pub max: u16,
}

/// `cost.qos`: the IO cost model's quality-of-service parameters for one device.
/// The latency percentiles are kept as the decimal fractions that the file gives;
/// one that the line does not give is `None`.
#[derive(Debug, PartialEq, Eq)]
pub struct CostQos {
    /// Whether weight-based control is enabled.
    pub enable: u8,
    pub ctrl: Ctrl,
    /// Read latency percentile, in [0, 100].
    pub rpct: Option<String>,
    /// Read latency threshold.
    pub rlat: u32,
    /// Write latency percentile, in [0, 100].
    pub wpct: Option<String>,
    /// Write latency threshold.
    pub wlat: u32,
    /// Minimum scaling percentage, in [1, 10000].
    pub min: u16,
    /// Maximum scaling percentage, in [1, 10000].
    pub max: u16,
}

impl View for CostQos {
    type V = CostQosView;

    open spec fn view(&self) -> CostQosView {
        CostQosView {
            enable: self.enable,
            ctrl: self.ctrl,
            rpct: opt_view(self.rpct),
            rlat: self.rlat,
            wpct: opt_view(self.wpct),
            wlat: self.wlat,
            min: self.min,
            max: self.max,
        }
    }
}

/// The record before any `k=v` pair is read.
pub open spec fn cost_blank() -> CostQosView {
    CostQosView {
        enable: 0,
        ctrl: Ctrl::Auto,
        rpct: None,
        rlat: 0,
        wpct: None,
        wlat: 0,
        min: 0,
        max: 0,
    }
}

/// The record `m` with the parameter named `key` set from the text `val`: the
/// value must decode (else it is at fault); other keys change nothing.
pub open spec fn cost_set(m: CostQosView, key: Seq<char>, val: Seq<char>) -> core::result::Result<
    CostQosView,
    Seq<char>,
> {
    if key == "enable"@ {
        match u8::parse_spec(val) {
            Some(x) => Ok(CostQosView { enable: x, ..m }),
            None => Err(val),
        }
    } else if key == "ctrl"@ {
        match Ctrl::parse_spec(val) {
            Some(x) => Ok(CostQosView { ctrl: x, ..m }),
            None => Err(val),
        }
    } else if key == "rpct"@ {
        Ok(CostQosView { rpct: Some(val), ..m })
    } else if key == "rlat"@ {
        match u32::parse_spec(val) {
            Some(x) => Ok(CostQosView { rlat: x, ..m }),
            None => Err(val),
        }
    } else if key == "wpct"@ {
        Ok(CostQosView { wpct: Some(val), ..m })
    } else if key == "wlat"@ {
        match u32::parse_spec(val) {
            Some(x) => Ok(CostQosView { wlat: x, ..m }),
            None => Err(val),
        }
    } else if key == "min"@ {
        match u16::parse_spec(val) {
            Some(x) => Ok(CostQosView { min: x, ..m }),
            None => Err(val),
        }
    } else if key == "max"@ {
        match u16::parse_spec(val) {
            Some(x) => Ok(CostQosView { max: x, ..m }),
            None => Err(val),
        }
    } else {
        Ok(m)
    }
}

/// The `k=v` words `segs` of the text `line` applied in order to the record `m`:
/// a word without `=` puts the whole text at fault.
pub open spec fn cost_fields(line: Seq<char>, m: CostQosView, segs: Seq<Seq<char>>) -> core::result::Result<
    CostQosView,
    Seq<char>,
>
    decreases segs.len(),
{
    if segs.len() == 0 {
        Ok(m)
    } else {
        let ps = split_on(segs[0], '=');
        if ps.len() < 2 {
            Err(line)
        } else {
            match cost_set(m, ps[0], ps[1]) {
                Ok(m2) => cost_fields(line, m2, segs.drop_first()),
                Err(t) => Err(t),
            }
        }
    }
}

/// The record that a text of `k=v` words holds, or the text at fault.
pub open spec fn cost_record(s: Seq<char>) -> core::result::Result<CostQosView, Seq<char>> {
    cost_fields(s, cost_blank(), words(s))
}

/// The lines of the `cost.qos` text `content` added in order to the table `m`, up
/// to the first blank line: the text up to the first space is the device, the
/// rest its record. The outcome is the table, or the text at fault: the whole
/// content for a line without a space, the device text for a device that does
/// not decode, the record's own fault for a record that does not.
pub open spec fn cost_lines(
    content: Seq<char>,
    m: Map<DeviceNumber, CostQosView>,
    lines: Seq<Seq<char>>,
) -> core::result::Result<Map<DeviceNumber, CostQosView>, Seq<char>>
    decreases lines.len(),
{
    if lines.len() == 0 || lines[0].len() == 0 {
        Ok(m)
    } else {
        match split_once(lines[0], ' ') {
            None => Err(content),
            Some((k, rest)) => match DeviceNumber::parse_spec(k) {
                None => Err(k),
                Some(d) => match cost_record(rest) {
                    Ok(q) => cost_lines(content, m.insert(d, q), lines.drop_first()),
                    Err(t) => Err(t),
                },
            },
        }
    }
}

/// The table from device to record that `cost.qos` holds, or the text at fault.
pub open spec fn cost_table(content: Seq<char>) -> core::result::Result<
    Map<DeviceNumber, CostQosView>,
    Seq<char>,
> {
    cost_lines(content, Map::empty(), split_on(content, '\n'))
}

/// The records of a table of entries.
pub open spec fn cost_view(es: Seq<(DeviceNumber, CostQos)>) -> Map<DeviceNumber, CostQosView> {
    entries_map(es).map_values(|q: CostQos| q@)
}

impl CostQos {
    /// Sets the parameter named `k` from its text `v`.
    pub fn set(&mut self, k: &str, v: &str) -> (r: Result<()>)
        ensures
            match cost_set(old(self)@, k@, v@) {
                Ok(m) => r == Ok::<(), CGroupError>(()) && final(self)@ == m,
                Err(t) => malformed(r, t) && final(self)@ == old(self)@,
            },
    {
        if same_text(k, "enable") {
            match u8::parse(v) {
                Some(x) => self.enable = x,
                None => {
                    return malformed_err(v);
                },
            }
        } else if same_text(k, "ctrl") {
            match Ctrl::parse(v) {
                Some(x) => self.ctrl = x,
                None => {
                    return malformed_err(v);
                },
            }
        } else if same_text(k, "rpct") {
            self.rpct = Some(String::from_str(v));
        } else if same_text(k, "rlat") {
            match u32::parse(v) {
                Some(x) => self.rlat = x,
                None => {
                    return malformed_err(v);
                },
            }
        } else if same_text(k, "wpct") {
            self.wpct = Some(String::from_str(v));
        } else if same_text(k, "wlat") {
            match u32::parse(v) {
                Some(x) => self.wlat = x,
                None => {
                    return malformed_err(v);
                },
            }
        } else if same_text(k, "min") {
            match u16::parse(v) {
                Some(x) => self.min = x,
                None => {
                    return malformed_err(v);
                },
            }
        } else if same_text(k, "max") {
            match u16::parse(v) {
                Some(x) => self.max = x,
                None => {
                    return malformed_err(v);
                },
            }
        }
        Ok(())
    }

    /// Decodes a record of `k=v` words.
    pub fn from_str(s: &str) -> (r: Result<CostQos>)
        ensures
            match cost_record(s@) {
                Ok(m) => r is Ok && r->Ok_0@ == m,
                Err(t) => malformed(r, t),
            },
    {
        let ws = split_words(s);
        let ghost all = texts(ws@);
        let mut cost_qos = CostQos {
            enable: 0,
            ctrl: Ctrl::Auto,
            rpct: None,
            rlat: 0,
            wpct: None,
            wlat: 0,
            min: 0,
            max: 0,
        };
        let mut i: usize = 0;
        assert(all.subrange(0, all.len() as int) =~= all);
        assert(cost_qos@ =~= cost_blank());
        while i < ws.len()
            invariant
                all == texts(ws@),
                all == words(s@),
                i <= ws@.len(),
                cost_record(s@) == cost_fields(
                    s@,
                    cost_qos@,
                    all.subrange(i as int, all.len() as int),
                ),
            decreases ws@.len() - i,
        {
            let ghost rest = all.subrange(i as int, all.len() as int);
            assert(rest[0] == ws@[i as int]@);
            assert(rest.drop_first() =~= all.subrange(i as int + 1, all.len() as int));
            let ps = split_char(ws[i].as_str(), '=');
            assert(texts(ps@).len() == ps@.len());
            if ps.len() < 2 {
                return malformed_err(s);
            }
            match cost_qos.set(ps[0].as_str(), ps[1].as_str()) {
                Ok(()) => {},
                Err(e) => {
                    return Err(e);
                },
            }
            i = i + 1;
        }
        Ok(cost_qos)
    }
}

impl IO {
    /// `cost.qos`, a nested-keyed file that exists only on the root cgroup: one
    /// entry per device.
    pub fn cost_qos(&self, content: &str) -> (r: Result<Vec<(DeviceNumber, CostQos)>>)
        ensures
            match cost_table(content@) {
                Ok(m) => r is Ok && distinct_keys(r->Ok_0@) && cost_view(r->Ok_0@) == m,
                Err(t) => malformed(r, t),
            },
    {
        let lines = split_char(content, '\n');
        let ghost all = texts(lines@);
        let mut out: Vec<(DeviceNumber, CostQos)> = Vec::new();
        let mut i: usize = 0;
        assert(all.subrange(0, all.len() as int) =~= all);
        assert(cost_view(out@) =~= Map::empty());
        while i < lines.len()
            invariant
                all == texts(lines@),
                all == split_on(content@, '\n'),
                i <= lines@.len(),
                distinct_keys(out@),
                cost_table(content@) == cost_lines(
                    content@,
                    cost_view(out@),
                    all.subrange(i as int, all.len() as int),
                ),
            decreases lines@.len() - i,
        {
            let ghost rest = all.subrange(i as int, all.len() as int);
            assert(rest[0] == lines@[i as int]@);
            assert(rest.drop_first() =~= all.subrange(i as int + 1, all.len() as int));
            let line = lines[i].as_str();
            if line.unicode_len() == 0 {
                return Ok(out);
            }
            match split_once_char(line, ' ') {
                None => {
                    return malformed_err(content);
                },
                Some((k, v)) => match DeviceNumber::parse(k.as_str()) {
                    None => {
                        return malformed_err(k.as_str());
                    },
                    Some(d) => match CostQos::from_str(v.as_str()) {
                        Ok(q) => {
                            let ghost before = out@;
                            let ghost qv = q@;
                            upsert(&mut out, d, q);
                            assert(cost_view(out@) =~= cost_view(before).insert(d, qv));
                        },
                        Err(e) => {
                            return Err(e);
                        },
                    },
                },
            }
            i = i + 1;
        }
        Ok(out)
    }
}

} // verus!
