//! The resource controllers that a cgroup can enable.
use vstd::prelude::*;

use crate::text::same_text;
use crate::FieldValue;

verus! {

#[derive(Debug, PartialEq, Eq, Structural, Clone, Copy)]
pub enum ControllerType {
    CPUSET,
    CPU,
    IO,
    MEMORY,
    PIDS,
}

impl ControllerType {
    /// The controller's name as the kernel writes it.
    pub open spec fn name(self) -> Seq<char> {
        match self {
            ControllerType::CPUSET => "cpuset"@,
            ControllerType::CPU => "cpu"@,
            ControllerType::IO => "io"@,
            ControllerType::MEMORY => "memory"@,
            ControllerType::PIDS => "pids"@,
        }
    }

    /// Every controller, in the kernel's order.
    pub fn all() -> (r: Vec<ControllerType>)
        ensures
            r@ == seq![
                ControllerType::CPUSET,
                ControllerType::CPU,
                ControllerType::IO,
                ControllerType::MEMORY,
                ControllerType::PIDS,
            ],
    {
        let r = vec![
            ControllerType::CPUSET,
            ControllerType::CPU,
            ControllerType::IO,
            ControllerType::MEMORY,
            ControllerType::PIDS,
        ];
        assert(r@ =~= seq![
            ControllerType::CPUSET,
            ControllerType::CPU,
            ControllerType::IO,
            ControllerType::MEMORY,
            ControllerType::PIDS,
        ]);
        r
    }

    fn name_str(&self) -> (r: &'static str)
        ensures
            r@ == self.name(),
    {
        match self {
            ControllerType::CPUSET => "cpuset",
            ControllerType::CPU => "cpu",
            ControllerType::IO => "io",
            ControllerType::MEMORY => "memory",
            ControllerType::PIDS => "pids",
        }
    }

    pub fn to_string(&self) -> (r: String)
        ensures
            r@ == self.name(),
    {
        String::from_str(self.name_str())
    }
}

impl FieldValue for ControllerType {
    open spec fn parse_spec(s: Seq<char>) -> Option<ControllerType> {
        if s == "cpuset"@ {
            Some(ControllerType::CPUSET)
        } else if s == "cpu"@ {
            Some(ControllerType::CPU)
        } else if s == "io"@ {
            Some(ControllerType::IO)
        } else if s == "memory"@ {
            Some(ControllerType::MEMORY)
        } else if s == "pids"@ {
            Some(ControllerType::PIDS)
        } else {
            None
        }
    }

    fn parse(s: &str) -> (r: Option<ControllerType>) {
        if same_text(s, "cpuset") {
            Some(ControllerType::CPUSET)
        } else if same_text(s, "cpu") {
            Some(ControllerType::CPU)
        } else if same_text(s, "io") {
            Some(ControllerType::IO)
        } else if same_text(s, "memory") {
            Some(ControllerType::MEMORY)
        } else if same_text(s, "pids") {
            Some(ControllerType::PIDS)
        } else {
            None
        }
    }
}

/// Decoding a controller's name gives the controller back.
pub proof fn controller_decode_encode(c: ControllerType)
    ensures
        ControllerType::parse_spec(c.name()) == Some(c),
{
    reveal_strlit("cpuset");
    reveal_strlit("cpu");
    reveal_strlit("io");
    reveal_strlit("memory");
    reveal_strlit("pids");
    assert("cpuset"@.len() == 6 && "cpu"@.len() == 3 && "io"@.len() == 2);
    assert("memory"@.len() == 6 && "pids"@.len() == 4);
    assert("cpuset"@[0] != "memory"@[0]);
}

} // verus!
