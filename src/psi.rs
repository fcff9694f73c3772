//! Pressure stall information (`cpu.pressure`, `memory.pressure`).
//!
//! Each line names a kind of stall (`some` or `full`) and gives the share of time
//! stalled over the last 10, 60 and 300 seconds, and the total stall time. The
//! shares are kept as the text that the kernel wrote; they are decimal fractions.
use vstd::prelude::*;

use crate::error::{malformed, malformed_err, CGroupError, Result};
use crate::text::{first_line, same_text, split_char, split_on, split_words, texts, words};
use crate::FieldValue;

verus! {

/// What a line of a pressure file holds.
pub struct PSIView {
    pub key: Seq<char>,
    pub avg10: Option<Seq<char>>,
    pub avg60: Option<Seq<char>>,
    pub avg300: Option<Seq<char>>,
    pub total: u64,
}

/// One line of a pressure file. An average that the line does not give is `None`.
#[derive(Debug, PartialEq, Eq)]
pub struct PSIMetric {
    pub key: String,
    pub avg10: Option<String>,
    pub avg60: Option<String>,
    pub avg300: Option<String>,
    pub total: u64,
}

pub open spec fn opt_view(o: Option<String>) -> Option<Seq<char>> {
    match o {
        Some(s) => Some(s@),
        None => None,
    }
}

impl View for PSIMetric {
    type V = PSIView;

    open spec fn view(&self) -> PSIView {
        PSIView {
            key: self.key@,
            avg10: opt_view(self.avg10),
            avg60: opt_view(self.avg60),
            avg300: opt_view(self.avg300),
            total: self.total,
        }
    }
}

/// The line `m` with the field named `key` set from the text `val`: an average
/// takes the text as it is, the total must decode (else `val` is at fault);
/// other keys change nothing.
pub open spec fn psi_set(m: PSIView, key: Seq<char>, val: Seq<char>) -> core::result::Result<
    PSIView,
    Seq<char>,
> {
    if key == "avg10"@ {
        Ok(PSIView { avg10: Some(val), ..m })
    } else if key == "avg60"@ {
        Ok(PSIView { avg60: Some(val), ..m })
    } else if key == "avg300"@ {
        Ok(PSIView { avg300: Some(val), ..m })
    } else if key == "total"@ {
        match u64::parse_spec(val) {
            Some(t) => Ok(PSIView { total: t, ..m }),
            None => Err(val),
        }
    } else {
        Ok(m)
    }
}

/// The `k=v` words `segs` of the line `line` applied in order to `m`: a word
/// without `=` puts the whole line at fault.
pub open spec fn psi_fields(line: Seq<char>, m: PSIView, segs: Seq<Seq<char>>) -> core::result::Result<
    PSIView,
    Seq<char>,
>
    decreases segs.len(),
{
    if segs.len() == 0 {
        Ok(m)
    } else {
        let ps = split_on(segs[0], '=');
        if ps.len() < 2 {
            Err(line)
        } else {
            match psi_set(m, ps[0], ps[1]) {
                Ok(m2) => psi_fields(line, m2, segs.drop_first()),
                Err(t) => Err(t),
            }
        }
    }
}

/// The line with key `key` and nothing else given.
pub open spec fn psi_blank(key: Seq<char>) -> PSIView {
    PSIView { key, avg10: None, avg60: None, avg300: None, total: 0 }
}

/// What a line of a pressure file holds, or the text at fault: the first word is
/// the key, each further word a `k=v` pair. A line without words is at fault.
pub open spec fn psi_line(s: Seq<char>) -> core::result::Result<PSIView, Seq<char>> {
    let ws = words(s);
    if ws.len() == 0 {
        Err(s)
    } else {
        psi_fields(s, psi_blank(ws[0]), ws.drop_first())
    }
}

impl PSIMetric {
    /// Sets the field named `key` from its text `val`.
    pub fn set(&mut self, key: &str, val: &str) -> (r: Result<()>)
        ensures
            match psi_set(old(self)@, key@, val@) {
                Ok(m) => r == Ok::<(), CGroupError>(()) && final(self)@ == m,
                Err(t) => malformed(r, t) && final(self)@ == old(self)@,
            },
    {
        if same_text(key, "avg10") {
            self.avg10 = Some(String::from_str(val));
        } else if same_text(key, "avg60") {
            self.avg60 = Some(String::from_str(val));
        } else if same_text(key, "avg300") {
            self.avg300 = Some(String::from_str(val));
        } else if same_text(key, "total") {
            match u64::parse(val) {
                Some(t) => self.total = t,
                None => {
                    return malformed_err(val);
                },
            }
        }
        Ok(())
    }

    /// Decodes one line of a pressure file.
    pub fn from_str(s: &str) -> (r: Result<PSIMetric>)
        ensures
            match psi_line(s@) {
                Ok(m) => r is Ok && r->Ok_0@ == m,
                Err(t) => malformed(r, t),
            },
    {
        let ws = split_words(s);
        let ghost all = texts(ws@);
        if ws.len() == 0 {
            return malformed_err(s);
        }
        let mut metric = PSIMetric {
            key: ws[0].clone(),
            avg10: None,
            avg60: None,
            avg300: None,
            total: 0,
        };
        let mut i: usize = 1;
        assert(all.subrange(1, all.len() as int) =~= all.drop_first());
        while i < ws.len()
            invariant
                all == texts(ws@),
                all == words(s@),
                1 <= i <= ws@.len(),
                psi_line(s@) == psi_fields(
                    s@,
                    metric@,
                    all.subrange(i as int, all.len() as int),
                ),
            decreases ws@.len() - i,
        {
            let ghost rest = all.subrange(i as int, all.len() as int);
            assert(rest[0] == ws@[i as int]@);
            assert(rest.drop_first() =~= all.subrange(i as int + 1, all.len() as int));
            let ps = split_char(ws[i].as_str(), '=');
            assert(texts(ps@).len() == ps@.len());
            if ps.len() < 2 {
                return malformed_err(s);
            }
            match metric.set(ps[0].as_str(), ps[1].as_str()) {
                Ok(()) => {},
                Err(e) => {
                    return Err(e);
                },
            }
            i = i + 1;
        }
        Ok(metric)
    }
}

/// `cpu.pressure`: the share of time that some task waited for a CPU.
#[derive(Debug, PartialEq, Eq)]
pub struct CPUPressure {
    pub some: PSIMetric,
}

impl CPUPressure {
    /// Decodes `cpu.pressure`: the line is the `some` metric.
    pub fn from_str(s: &str) -> (r: Result<CPUPressure>)
        ensures
            match psi_line(s@) {
                Ok(m) => r is Ok && r->Ok_0.some@ == m,
                Err(t) => malformed(r, t),
            },
    {
        match PSIMetric::from_str(s) {
            Ok(metric) => Ok(CPUPressure { some: metric }),
            Err(e) => Err(e),
        }
    }
}

/// `memory.pressure`: the share of time that some task, and that all tasks,
/// waited for memory.
#[derive(Debug, PartialEq, Eq)]
pub struct MemoryPressure {
    pub some: PSIMetric,
    pub full: PSIMetric,
}

/// The `some` and `full` lines after the lines `lines` are read into `p`: blank
/// lines are passed over, a line with another key changes nothing, and the first
/// line that does not decode gives the text at fault.
pub open spec fn pressure_lines(p: (PSIView, PSIView), lines: Seq<Seq<char>>) -> core::result::Result<
    (PSIView, PSIView),
    Seq<char>,
>
    decreases lines.len(),
{
    if lines.len() == 0 {
        Ok(p)
    } else if lines[0].len() == 0 {
        pressure_lines(p, lines.drop_first())
    } else {
        match psi_line(lines[0]) {
            Err(t) => Err(t),
            Ok(m) => pressure_lines(
                if m.key == "some"@ {
                    (m, p.1)
                } else if m.key == "full"@ {
                    (p.0, m)
                } else {
                    p
                },
                lines.drop_first(),
            ),
        }
    }
}

/// The `some` and `full` lines that a `memory.pressure` file holds, or the text at
/// fault; a kind that the file does not give has an empty key and nothing else.
pub open spec fn memory_pressure(s: Seq<char>) -> core::result::Result<(PSIView, PSIView), Seq<char>> {
    pressure_lines((psi_blank(Seq::empty()), psi_blank(Seq::empty())), split_on(s, '\n'))
}

impl MemoryPressure {
    /// Decodes `memory.pressure`.
    pub fn from_str(s: &str) -> (r: Result<MemoryPressure>)
        ensures
            match memory_pressure(s@) {
                Ok(p) => r is Ok && r->Ok_0.some@ == p.0 && r->Ok_0.full@ == p.1,
                Err(t) => malformed(r, t),
            },
    {
        let lines = split_char(s, '\n');
        let ghost all = texts(lines@);
        let mut pressure = MemoryPressure {
            some: PSIMetric {
                key: String::new(),
                avg10: None,
                avg60: None,
                avg300: None,
                total: 0,
            },
            full: PSIMetric {
                key: String::new(),
                avg10: None,
                avg60: None,
                avg300: None,
                total: 0,
            },
        };
        let mut i: usize = 0;
        assert(all.subrange(0, all.len() as int) =~= all);
        assert(pressure.some@ =~= psi_blank(Seq::empty()));
        assert(pressure.full@ =~= psi_blank(Seq::empty()));
        while i < lines.len()
            invariant
                all == texts(lines@),
                all == split_on(s@, '\n'),
                i <= lines@.len(),
                memory_pressure(s@) == pressure_lines(
                    (pressure.some@, pressure.full@),
                    all.subrange(i as int, all.len() as int),
                ),
            decreases lines@.len() - i,
        {
            let ghost rest = all.subrange(i as int, all.len() as int);
            assert(rest[0] == lines@[i as int]@);
            assert(rest.drop_first() =~= all.subrange(i as int + 1, all.len() as int));
            let line = lines[i].as_str();
            if line.unicode_len() > 0 {
                match PSIMetric::from_str(line) {
                    Err(e) => {
                        return Err(e);
                    },
                    Ok(metric) => {
                        if same_text(metric.key.as_str(), "some") {
                            pressure.some = metric;
                        } else if same_text(metric.key.as_str(), "full") {
                            pressure.full = metric;
                        }
                    },
                }
            }
            i = i + 1;
        }
        Ok(pressure)
    }
}

/// `r` is what decoding `cpu.pressure` with content `content` gives: an empty file
/// has no value, otherwise the first line is the `some` metric.
pub open spec fn cpu_pressure_decoded(r: Result<CPUPressure>, content: Seq<char>) -> bool {
    if content.len() == 0 {
        r is Err && r->Err_0 == CGroupError::EmptyFileErr
    } else {
        match psi_line(first_line(content)) {
            Ok(m) => r is Ok && r->Ok_0.some@ == m,
            Err(_) => malformed(r, content),
        }
    }
}

} // verus!
