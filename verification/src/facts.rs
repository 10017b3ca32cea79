//! The data model: facts, queries, output formats, and the raw per-platform
//! probe values that an application hands to the collector.

use vstd::prelude::*;

verus! {

/// The value of a fact: a number or a piece of text.
#[derive(Debug, Clone, PartialEq, Eq)]
pub enum FactValue {
    Int(u64),
    Text(String),
}

/// The mathematical model of a [`FactValue`].
pub enum ValueModel {
    Int(u64),
    Text(Seq<char>),
}

impl View for FactValue {
    type V = ValueModel;

    open spec fn view(&self) -> ValueModel {
        match self {
            FactValue::Int(n) => ValueModel::Int(*n),
            FactValue::Text(s) => ValueModel::Text(s@),
        }
    }
}

impl DeepView for FactValue {
    type V = ValueModel;

    open spec fn deep_view(&self) -> ValueModel {
        self.view()
    }
}

/// A named system fact.
#[derive(Debug, Clone, PartialEq, Eq)]
pub struct Fact {
    pub name: String,
    pub value: FactValue,
}

/// The mathematical model of a [`Fact`].
pub struct FactModel {
    pub name: Seq<char>,
    pub value: ValueModel,
}

impl View for Fact {
    type V = FactModel;

    open spec fn view(&self) -> FactModel {
        FactModel { name: self.name@, value: self.value@ }
    }
}

impl DeepView for Fact {
    type V = FactModel;

    open spec fn deep_view(&self) -> FactModel {
        self.view()
    }
}

/// How a fact sequence is rendered: human-readable lines, or a structured
/// key-value encoding.
#[derive(Debug, Clone, Copy, PartialEq, Eq, Structural)]
pub enum OutputFormat {
    Text,
    Structured,
}

/// What the caller asks for: extra diagnostic facts, and an output format.
#[derive(Debug, Clone, Copy, PartialEq, Eq, Structural)]
pub struct Query {
    pub verbose: bool,
    pub format: OutputFormat,
}

/// Raw values read from the kernel's system-information structure and the
/// machine-name query on the windows variant. The structure query itself
/// cannot fail; only the machine name is optional.
#[derive(Debug, Clone, PartialEq, Eq)]
pub struct WindowsProbe {
    pub processors: u32,
    pub page_size: u32,
    pub architecture: u16,
    pub processor_type: u32,
    pub processor_level: u16,
    pub processor_revision: u16,
    pub allocation_granularity: u32,
    pub computer_name: Option<String>,
}

/// Raw pseudo-file contents on the linux variant. A field is `None` when the
/// file could not be read; that query is then skipped.
#[derive(Debug, Clone, PartialEq, Eq)]
pub struct LinuxProbe {
    pub cpuinfo: Option<String>,
    pub meminfo: Option<String>,
    pub hostname: Option<String>,
}

/// Raw output of the system-configuration query tool on the mac variant.
/// A field is `None` when the tool could not be run; that query is then
/// skipped.
#[derive(Debug, Clone, PartialEq, Eq)]
pub struct MacProbe {
    pub ncpu: Option<String>,
    pub memsize: Option<String>,
    pub cpu_brand: Option<String>,
}

/// The raw values gathered on the current platform. Exactly one variant is
/// produced per process; `Unsupported` stands for any unrecognized platform.
#[derive(Debug, Clone, PartialEq, Eq)]
pub enum Probe {
    Windows(WindowsProbe),
    Linux(LinuxProbe),
    MacOs(MacProbe),
    Unsupported,
}

} // verus!
