//! The CPU controller's interface files (`cpu.*`).
use vstd::prelude::*;

use crate::common::{lemma_max_text, max_decode_encode, Max};
use crate::error::{decoded, malformed_err, CGroupError, Result};
use crate::num::{
    decimal, format_signed, format_unsigned, is_digit, lemma_decimal, lemma_unsigned_round_trip,
    signed_decimal,
};
use crate::psi::{cpu_pressure_decoded, CPUPressure};
use crate::text::{
    first_line, is_space, lemma_split_on_absent, lemma_split_on_nonempty, lemma_words_pair,
    lemma_words_single, same_text, split_char, split_words, texts, words,
};
use crate::util::{
    file_write, flat_record, join_path, read_flat_keyed_file, read_single_value, single_decoded,
    FileWrite,
};
use crate::{FieldValue, FlatKeyedSetter};

verus! {

// The names of the interface files.
pub const STAT: &'static str = "cpu.stat";

pub const WEIGHT: &'static str = "cpu.weight";

pub const WEIGHT_NICE: &'static str = "cpu.weight.nice";

pub const MAX: &'static str = "cpu.max";

pub const PRESSURE: &'static str = "cpu.pressure";

/// The CPU controller's files of one cgroup.
#[derive(Debug, PartialEq, Eq)]
pub struct Cpu {
    path: String,
}

impl View for Cpu {
    type V = Seq<char>;

    closed spec fn view(&self) -> Seq<char> {
        self.path@
    }
}

impl Cpu {
    pub fn new(path: String) -> (r: Cpu)
        ensures
            r@ == path@,
    {
        Cpu { path }
    }

    /// `cpu.stat`.
    pub fn stat(&self, content: &str) -> (r: Result<Stat>)
        ensures
            decoded(r, flat_record::<u64, Stat>(content@), content@),
    {
        read_flat_keyed_file::<u64, Stat>(content)
    }

    /// `cpu.weight`.
    pub fn weight(&self, content: &str) -> (r: Result<u16>)
        ensures
            single_decoded(r, content@),
    {
        read_single_value(content)
    }

    /// The write to `cpu.weight`.
    pub fn set_weight(&self, w: u16) -> (r: FileWrite)
        ensures
            r.path@ == join_path(self@, WEIGHT@),
            r.content@ == decimal(w as nat),
    {
        file_write(self.path.as_str(), WEIGHT, format_unsigned(w as u64))
    }

    /// `cpu.weight.nice`.
    pub fn weight_nice(&self, content: &str) -> (r: Result<i8>)
        ensures
            single_decoded(r, content@),
    {
        read_single_value(content)
    }

    /// The write to `cpu.weight.nice`.
    pub fn set_weight_nice(&self, n: i8) -> (r: FileWrite)
        ensures
            r.path@ == join_path(self@, WEIGHT_NICE@),
            r.content@ == signed_decimal(n as int),
    {
        file_write(self.path.as_str(), WEIGHT_NICE, format_signed(n as i64))
    }

    /// `cpu.max`.
    pub fn max(&self, content: &str) -> (r: Result<CPUMax>)
        ensures
            single_decoded(r, content@),
    {
        read_single_value(content)
    }

    /// `cpu.pressure`.
    pub fn pressure(&self, content: &str) -> (r: Result<CPUPressure>)
        ensures
            cpu_pressure_decoded(r, content@),
    {
        if content.unicode_len() == 0 {
            return Err(CGroupError::EmptyFileErr);
        }
        let lines = split_char(content, '\n');
        proof {
            lemma_split_on_nonempty(content@, '\n');
        }
        match CPUPressure::from_str(lines[0].as_str()) {
            Ok(p) => Ok(p),
            Err(_) => malformed_err(content),
        }
    }

    /// The write to `cpu.max` of the quota `max` and, if given, the period.
    pub fn set_max(&self, max: u32, period: Option<u32>) -> (r: FileWrite)
        ensures
            r.path@ == join_path(self@, MAX@),
            r.content@ == (CPUMax { max: Max::Val(max), period }).text(),
    {
        let m = CPUMax { max: Max::Val(max), period };
        file_write(self.path.as_str(), MAX, m.to_string())
    }
}

/// `cpu.stat`: CPU time used, and throttling when the controller is enabled.
#[derive(Debug, PartialEq, Eq, Structural, Clone, Copy)]
pub struct Stat {
    pub usage_usec: u64,
    pub user_usec: u64,
    pub system_usec: u64,
    pub nr_periods: u64,
    pub nr_throttled: u64,
    pub throttled_usec: u64,
}

impl FlatKeyedSetter<u64> for Stat {
    open spec fn initial() -> Stat {
        Stat {
            usage_usec: 0,
            user_usec: 0,
            system_usec: 0,
            nr_periods: 0,
            nr_throttled: 0,
            throttled_usec: 0,
        }
    }

    open spec fn knows(key: Seq<char>) -> bool {
        key == "usage_usec"@ || key == "user_usec"@ || key == "system_usec"@ || key
            == "nr_periods"@ || key == "nr_throttled"@ || key == "throttled_usec"@
    }

    open spec fn with_field(self, key: Seq<char>, val: u64) -> Stat {
        if key == "usage_usec"@ {
            Stat { usage_usec: val, ..self }
        } else if key == "user_usec"@ {
            Stat { user_usec: val, ..self }
        } else if key == "system_usec"@ {
            Stat { system_usec: val, ..self }
        } else if key == "nr_periods"@ {
            Stat { nr_periods: val, ..self }
        } else if key == "nr_throttled"@ {
            Stat { nr_throttled: val, ..self }
        } else if key == "throttled_usec"@ {
            Stat { throttled_usec: val, ..self }
        } else {
            self
        }
    }

    fn new() -> (r: Stat) {
        Stat {
            usage_usec: 0,
            user_usec: 0,
            system_usec: 0,
            nr_periods: 0,
            nr_throttled: 0,
            throttled_usec: 0,
        }
    }

    fn set(&mut self, s: &str, val: u64) {
        if same_text(s, "usage_usec") {
            self.usage_usec = val;
        } else if same_text(s, "user_usec") {
            self.user_usec = val;
        } else if same_text(s, "system_usec") {
            self.system_usec = val;
        } else if same_text(s, "nr_periods") {
            self.nr_periods = val;
        } else if same_text(s, "nr_throttled") {
            self.nr_throttled = val;
        } else if same_text(s, "throttled_usec") {
            self.throttled_usec = val;
        }
    }

    fn is_field(s: &str) -> (r: bool) {
        same_text(s, "usage_usec") || same_text(s, "user_usec") || same_text(s, "system_usec")
            || same_text(s, "nr_periods") || same_text(s, "nr_throttled") || same_text(
            s,
            "throttled_usec",
        )
    }
}

/// `cpu.max`: the quota per period, and the period in microseconds.
#[derive(Debug, PartialEq, Eq, Structural, Clone, Copy)]
pub struct CPUMax {
    pub max: Max,
    pub period: Option<u32>,
}

impl CPUMax {
    /// The text of the line as it is written: the quota, then the period if there is one.
    pub open spec fn text(self) -> Seq<char> {
        match self.period {
            Some(p) => self.max.text() + seq![' '] + decimal(p as nat),
            None => self.max.text(),
        }
    }

    pub fn to_string(&self) -> (r: String)
        ensures
            r@ == self.text(),
    {
        let max = self.max.to_string();
        match self.period {
            Some(p) => {
                proof {
                    reveal_strlit(" ");
                    assert(" "@ =~= seq![' ']);
                }
                let with_sep = max.concat(" ");
                with_sep.concat(format_unsigned(p as u64).as_str())
            },
            None => max,
        }
    }
}

/// Decoding the text of a `cpu.max` line gives the line back, also when it is read
/// as the first line of a file.
pub proof fn cpu_max_decode_encode(v: CPUMax)
    ensures
        CPUMax::parse_spec(v.text()) == Some(v),
        first_line(v.text()) == v.text(),
{
    let a = v.max.text();
    lemma_max_text(v.max);
    max_decode_encode(v.max);
    match v.period {
        Some(p) => {
            let b = decimal(p as nat);
            lemma_decimal(p as nat);
            lemma_unsigned_round_trip(p as nat, u32::MAX as nat);
            assert(is_digit(b[0]));
            assert forall|i: int| 0 <= i < b.len() implies !is_space(#[trigger] b[i]) by {
                assert(is_digit(b[i]));
            }
            lemma_words_pair(a, b);
            let t = a + seq![' '] + b;
            assert forall|i: int| 0 <= i < t.len() implies t[i] != '\n' by {
                if i < a.len() {
                    assert(t[i] == a[i]);
                } else if i > a.len() {
                    assert(t[i] == b[i - a.len() - 1]);
                }
            }
            lemma_split_on_absent(t, '\n');
        },
        None => {
            lemma_words_single(a);
            lemma_split_on_absent(a, '\n');
        },
    }
}

impl FieldValue for CPUMax {
    /// The first word is the quota; a second word, if there is one, is the period.
    open spec fn parse_spec(s: Seq<char>) -> Option<CPUMax> {
        let ws = words(s);
        if ws.len() == 0 {
            None
        } else {
            match Max::parse_spec(ws[0]) {
                None => None,
                Some(m) => if ws.len() == 1 {
                    Some(CPUMax { max: m, period: None })
                } else {
                    match u32::parse_spec(ws[1]) {
                        Some(p) => Some(CPUMax { max: m, period: Some(p) }),
                        None => None,
                    }
                },
            }
        }
    }

    fn parse(s: &str) -> (r: Option<CPUMax>) {
        let ws = split_words(s);
        assert(texts(ws@).len() == ws@.len());
        if ws.len() == 0 {
            return None;
        }
        match Max::parse(ws[0].as_str()) {
            None => None,
            Some(m) => if ws.len() == 1 {
                Some(CPUMax { max: m, period: None })
            } else {
                match u32::parse(ws[1].as_str()) {
                    Some(p) => Some(CPUMax { max: m, period: Some(p) }),
                    None => None,
                }
            },
        }
    }
}

} // verus!
