//! The core interface files of a cgroup (`cgroup.*`).
use vstd::prelude::*;

use crate::controller::ControllerType;
use crate::cpu::Cpu;
use crate::error::{decoded, malformed_err, CGroupError, Result};
use crate::io::IO;
use crate::memory::Memory;
use crate::num::{decimal, format_unsigned};
use crate::text::{chomp, chomp_str, first_line, split_char, join_with_spaces, join_words, same_text, split_on, texts, words};
use crate::util::{
    file_path, file_write, flat_record, join_path, parsed_values, read_flat_keyed_file,
    read_newline_separated_values, read_space_separated_values, FileWrite,
};
use crate::{FieldValue, FlatKeyedSetter};

pub use crate::common::Max;

verus! {

// The names of the interface files.
pub const CONTROLLERS: &'static str = "cgroup.controllers";

pub const SUBTREE_CONTROL: &'static str = "cgroup.subtree_control";

pub const TYPE: &'static str = "cgroup.type";

pub const PROCS: &'static str = "cgroup.procs";

pub const THREADS: &'static str = "cgroup.threads";

pub const EVENTS: &'static str = "cgroup.events";

pub const MAX_DESCENDANTS: &'static str = "cgroup.max.descendants";

pub const MAX_DEPTH: &'static str = "cgroup.max.depth";

pub const STAT: &'static str = "cgroup.stat";

pub const FREEZE: &'static str = "cgroup.freeze";

/// `r` is what decoding a file whose first line holds the value gives: an empty
/// file has no value; a first line that does not decode is malformed, and the
/// failure carries that line.
pub open spec fn line_decoded<T: FieldValue>(r: Result<T>, content: Seq<char>) -> bool {
    if content.len() == 0 {
        r == Err::<T, CGroupError>(CGroupError::EmptyFileErr)
    } else {
        decoded(r, T::parse_spec(first_line(content)), first_line(content))
    }
}

fn decode_first_line<T: FieldValue>(content: &str) -> (r: Result<T>)
    ensures
        line_decoded(r, content@),
{
    if content.unicode_len() == 0 {
        return Err(CGroupError::EmptyFileErr);
    }
    let lines = split_char(content, '\n');
    proof {
        crate::text::lemma_split_on_nonempty(content@, '\n');
    }
    match T::parse(lines[0].as_str()) {
        Some(v) => Ok(v),
        None => malformed_err(lines[0].as_str()),
    }
}

/// One cgroup: the directory that holds its interface files.
pub struct CGroup {
    path: String,
}

impl View for CGroup {
    type V = Seq<char>;

    closed spec fn view(&self) -> Seq<char> {
        self.path@
    }
}

/// The tokens of a `cgroup.subtree_control` write: `+name` for each controller to
/// enable, then `-name` for each controller to disable.
pub open spec fn control_tokens(
    enables: Seq<ControllerType>,
    disables: Option<Seq<ControllerType>>,
) -> Seq<Seq<char>> {
    enables.map_values(|c: ControllerType| seq!['+'] + c.name()) + match disables {
        Some(d) => d.map_values(|c: ControllerType| seq!['-'] + c.name()),
        None => Seq::empty(),
    }
}

/// Appends `sign` and the name of each controller of `cs` to `out`.
fn push_signed(out: &mut Vec<String>, sign: &str, cs: &Vec<ControllerType>)
    ensures
        texts(final(out)@) == texts(old(out)@) + cs@.map_values(
            |c: ControllerType| sign@ + c.name(),
        ),
{
    let ghost start = texts(out@);
    let mut i: usize = 0;
    while i < cs.len()
        invariant
            i <= cs@.len(),
            texts(out@) == start + cs@.subrange(0, i as int).map_values(
                |c: ControllerType| sign@ + c.name(),
            ),
        decreases cs@.len() - i,
    {
        let token = String::from_str(sign).concat(cs[i].to_string().as_str());
        let ghost before = out@;
        out.push(token);
        proof {
            assert(texts(out@) =~= texts(before).push(token@));
            assert(cs@.subrange(0, i as int + 1).map_values(|c: ControllerType| sign@ + c.name())
                =~= cs@.subrange(0, i as int).map_values(|c: ControllerType| sign@ + c.name()).push(
                sign@ + cs@[i as int].name(),
            ));
        }
        i = i + 1;
    }
    assert(cs@.subrange(0, i as int) =~= cs@);
}

impl CGroup {
    pub fn new(path: String) -> (r: CGroup)
        ensures
            r@ == path@,
    {
        CGroup { path }
    }

    /// The path of the interface file `name` of this cgroup.
    pub fn file(&self, name: &str) -> (r: String)
        ensures
            r@ == join_path(self@, name@),
    {
        file_path(self.path.as_str(), name)
    }

    /// `cgroup.controllers`: the controllers available to this cgroup, in file order.
    pub fn controllers(&self, content: &str) -> (r: Vec<ControllerType>)
        ensures
            r@ == parsed_values::<ControllerType>(words(content@)),
    {
        read_space_separated_values(String::from_str(content))
    }

    /// `cgroup.subtree_control`: the controllers enabled for the children.
    pub fn subtree_control(&self, content: &str) -> (r: Vec<ControllerType>)
        ensures
            r@ == parsed_values::<ControllerType>(words(content@)),
    {
        read_space_separated_values(String::from_str(content))
    }

    /// The write to `cgroup.subtree_control` that enables the controllers of
    /// `enables` and disables those of `disables`.
    pub fn set_subtree_control(
        &self,
        enables: Vec<ControllerType>,
        disables: Option<Vec<ControllerType>>,
    ) -> (r: FileWrite)
        ensures
            r.path@ == join_path(self@, SUBTREE_CONTROL@),
            r.content@ == join_words(
                control_tokens(
                    enables@,
                    match disables {
                        Some(d) => Some(d@),
                        None => None,
                    },
                ),
            ),
    {
        proof {
            reveal_strlit("+");
            reveal_strlit("-");
            assert("+"@ =~= seq!['+']);
            assert("-"@ =~= seq!['-']);
        }
        let mut tokens: Vec<String> = Vec::new();
        assert(texts(tokens@) =~= Seq::<Seq<char>>::empty());
        push_signed(&mut tokens, "+", &enables);
        match &disables {
            Some(d) => push_signed(&mut tokens, "-", d),
            None => {},
        }
        proof {
            let e = enables@.map_values(|c: ControllerType| "+"@ + c.name());
            assert(e =~= enables@.map_values(|c: ControllerType| seq!['+'] + c.name()));
            match &disables {
                Some(d) => {
                    assert(d@.map_values(|c: ControllerType| "-"@ + c.name()) =~= d@.map_values(
                        |c: ControllerType| seq!['-'] + c.name(),
                    ));
                },
                None => {
                    assert(texts(tokens@) =~= e + Seq::<Seq<char>>::empty());
                },
            }
        }
        let content = join_with_spaces(&tokens);
        file_write(self.path.as_str(), SUBTREE_CONTROL, content)
    }

    /// `cgroup.type`: the whole content but for one trailing newline is the type.
    pub fn cg_type(&self, content: &str) -> (r: Result<CGroupType>)
        ensures
            content@.len() == 0 ==> r == Err::<CGroupType, CGroupError>(CGroupError::EmptyFileErr),
            content@.len() > 0 ==> decoded(r, CGroupType::parse_spec(chomp(content@)), content@),
    {
        if content.unicode_len() == 0 {
            return Err(CGroupError::EmptyFileErr);
        }
        match CGroupType::parse(chomp_str(content)) {
            Some(t) => Ok(t),
            None => malformed_err(content),
        }
    }

    /// `cgroup.procs`: the processes of this cgroup.
    pub fn procs(&self, content: &str) -> (r: Vec<i32>)
        ensures
            r@ == parsed_values::<i32>(split_on(content@, '\n')),
    {
        read_newline_separated_values(String::from_str(content))
    }

    /// The write to `cgroup.procs` that moves process `pid` into this cgroup; it is
    /// appended to the file.
    pub fn add_pid(&self, pid: u32) -> (r: FileWrite)
        ensures
            r.path@ == join_path(self@, PROCS@),
            r.content@ == decimal(pid as nat),
    {
        file_write(self.path.as_str(), PROCS, format_unsigned(pid as u64))
    }

    /// `cgroup.threads`: the threads of this cgroup.
    pub fn threads(&self, content: &str) -> (r: Vec<i32>)
        ensures
            r@ == parsed_values::<i32>(split_on(content@, '\n')),
    {
        read_newline_separated_values(String::from_str(content))
    }

    /// The write to `cgroup.threads` that moves thread `tid` into this cgroup; it is
    /// appended to the file.
    pub fn add_tid(&self, tid: u32) -> (r: FileWrite)
        ensures
            r.path@ == join_path(self@, THREADS@),
            r.content@ == decimal(tid as nat),
    {
        file_write(self.path.as_str(), THREADS, format_unsigned(tid as u64))
    }

    /// `cgroup.events`.
    pub fn events(&self, content: &str) -> (r: Result<CGroupEvent>)
        ensures
            decoded(r, flat_record::<bool, CGroupEvent>(content@), content@),
    {
        read_flat_keyed_file::<bool, CGroupEvent>(content)
    }

    /// `cgroup.max.descendants`.
    pub fn max_descendants(&self, content: &str) -> (r: Result<Max>)
        ensures
            line_decoded(r, content@),
    {
        decode_first_line(content)
    }

    /// The write to `cgroup.max.descendants`.
    pub fn set_max_descendants(&self, max: u32) -> (r: FileWrite)
        ensures
            r.path@ == join_path(self@, MAX_DESCENDANTS@),
            r.content@ == decimal(max as nat),
    {
        file_write(self.path.as_str(), MAX_DESCENDANTS, format_unsigned(max as u64))
    }

    /// `cgroup.max.depth`.
    pub fn max_depth(&self, content: &str) -> (r: Result<Max>)
        ensures
            line_decoded(r, content@),
    {
        decode_first_line(content)
    }

    /// The write to `cgroup.max.depth`.
    pub fn set_max_depth(&self, max: u32) -> (r: FileWrite)
        ensures
            r.path@ == join_path(self@, MAX_DEPTH@),
            r.content@ == decimal(max as nat),
    {
        file_write(self.path.as_str(), MAX_DEPTH, format_unsigned(max as u64))
    }

    /// `cgroup.stat`.
    pub fn stat(&self, content: &str) -> (r: Result<CGroupStat>)
        ensures
            decoded(r, flat_record::<u32, CGroupStat>(content@), content@),
    {
        read_flat_keyed_file::<u32, CGroupStat>(content)
    }

    /// `cgroup.freeze`.
    pub fn freeze(&self, content: &str) -> (r: Result<Freeze>)
        ensures
            line_decoded(r, content@),
    {
        decode_first_line(content)
    }

    /// The write to `cgroup.freeze` that freezes this cgroup.
    pub fn set_freeze(&self) -> (r: FileWrite)
        ensures
            r.path@ == join_path(self@, FREEZE@),
            r.content@ == seq!['1'],
    {
        proof {
            reveal_strlit("1");
        }
        file_write(self.path.as_str(), FREEZE, String::from_str("1"))
    }

    /// The CPU controller's files of this cgroup.
    pub fn cpu(&self) -> (r: Cpu)
        ensures
            r@ == self@,
    {
        Cpu::new(self.path.clone())
    }

    /// The memory controller's files of this cgroup.
    pub fn memory(&self) -> (r: Memory)
        ensures
            r@ == self@,
    {
        Memory::new(self.path.clone())
    }

    /// The IO controller's files of this cgroup.
    pub fn io(&self) -> (r: IO)
        ensures
            r@ == self@,
    {
        IO::new(self.path.clone())
    }
}

#[derive(Debug, PartialEq, Eq, Structural, Clone, Copy)]
pub enum CGroupType {
    Domain,
    DomainThreaded,
    DomainInvalid,
    Threaded,
}

impl FieldValue for CGroupType {
    open spec fn parse_spec(s: Seq<char>) -> Option<CGroupType> {
        if s == "domain"@ {
            Some(CGroupType::Domain)
        } else if s == "domain threaded"@ {
            Some(CGroupType::DomainThreaded)
        } else if s == "domain invalid"@ {
            Some(CGroupType::DomainInvalid)
        } else if s == "threaded"@ {
            Some(CGroupType::Threaded)
        } else {
            None
        }
    }

    fn parse(s: &str) -> (r: Option<CGroupType>) {
        if same_text(s, "domain") {
            Some(CGroupType::Domain)
        } else if same_text(s, "domain threaded") {
            Some(CGroupType::DomainThreaded)
        } else if same_text(s, "domain invalid") {
            Some(CGroupType::DomainInvalid)
        } else if same_text(s, "threaded") {
            Some(CGroupType::Threaded)
        } else {
            None
        }
    }
}

/// `cgroup.events`: whether the cgroup has live processes, and whether it is frozen.
#[derive(Debug, PartialEq, Eq, Structural, Clone, Copy)]
pub struct CGroupEvent {
    pub populated: bool,
    pub frozen: bool,
}

impl CGroupEvent {
    fn setter(&mut self, s: &str, val: bool)
        ensures
            *final(self) == old(self).with_field(s@, val),
    {
        if same_text(s, "populated") {
            self.populated = val;
        } else if same_text(s, "frozen") {
            self.frozen = val;
        }
    }
}

impl FlatKeyedSetter<bool> for CGroupEvent {
    open spec fn initial() -> CGroupEvent {
        CGroupEvent { populated: false, frozen: false }
    }

    open spec fn knows(key: Seq<char>) -> bool {
        key == "populated"@ || key == "frozen"@
    }

    open spec fn with_field(self, key: Seq<char>, val: bool) -> CGroupEvent {
        if key == "populated"@ {
            CGroupEvent { populated: val, frozen: self.frozen }
        } else if key == "frozen"@ {
            CGroupEvent { populated: self.populated, frozen: val }
        } else {
            self
        }
    }

    fn new() -> (r: CGroupEvent) {
        CGroupEvent { populated: false, frozen: false }
    }

    fn set(&mut self, s: &str, val: bool) {
        self.setter(s, val)
    }

    fn is_field(s: &str) -> (r: bool) {
        same_text(s, "populated") || same_text(s, "frozen")
    }
}

/// `cgroup.stat`: the number of live and of dying descendant cgroups.
#[derive(Debug, PartialEq, Eq, Structural, Clone, Copy)]
pub struct CGroupStat {
    pub nr_descendants: u32,
    pub nr_dying_descendants: u32,
}

impl CGroupStat {
    fn setter(&mut self, s: &str, val: u32)
        ensures
            *final(self) == old(self).with_field(s@, val),
    {
        if same_text(s, "nr_descendants") {
            self.nr_descendants = val;
        } else if same_text(s, "nr_dying_descendants") {
            self.nr_dying_descendants = val;
        }
    }
}

impl FlatKeyedSetter<u32> for CGroupStat {
    open spec fn initial() -> CGroupStat {
        CGroupStat { nr_descendants: 0, nr_dying_descendants: 0 }
    }

    open spec fn knows(key: Seq<char>) -> bool {
        key == "nr_descendants"@ || key == "nr_dying_descendants"@
    }

    open spec fn with_field(self, key: Seq<char>, val: u32) -> CGroupStat {
        if key == "nr_descendants"@ {
            CGroupStat { nr_descendants: val, nr_dying_descendants: self.nr_dying_descendants }
        } else if key == "nr_dying_descendants"@ {
            CGroupStat { nr_descendants: self.nr_descendants, nr_dying_descendants: val }
        } else {
            self
        }
    }

    fn new() -> (r: CGroupStat) {
        CGroupStat { nr_descendants: 0, nr_dying_descendants: 0 }
    }

    fn set(&mut self, s: &str, val: u32) {
        self.setter(s, val)
    }

    fn is_field(s: &str) -> (r: bool) {
        same_text(s, "nr_descendants") || same_text(s, "nr_dying_descendants")
    }
}

/// `cgroup.freeze`: whether the cgroup is to be frozen.
#[derive(Debug, PartialEq, Eq, Structural, Clone, Copy)]
pub struct Freeze(pub bool);

impl FieldValue for Freeze {
    open spec fn parse_spec(s: Seq<char>) -> Option<Freeze> {
        match bool::parse_spec(s) {
            Some(b) => Some(Freeze(b)),
            None => None,
        }
    }

    fn parse(s: &str) -> (r: Option<Freeze>) {
        match bool::parse(s) {
            Some(b) => Some(Freeze(b)),
            None => None,
        }
    }
}

} // verus!
