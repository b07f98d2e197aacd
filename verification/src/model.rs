//! The small vocabulary shared by the agent rules: object kinds, modes and
//! export formats.
use vstd::prelude::*;

verus! {

/// The kind of a CadQuery object.
#[derive(Debug, Clone, Copy, PartialEq, Eq, Structural)]
pub enum CadQueryObjectKind {
    Part,
    Component,
    Assembly,
}

/// The mode an agent turn runs in.
#[derive(Debug, Clone, Copy, PartialEq, Eq, Structural)]
pub enum AgentMode {
    Agent,
    Plan,
}

/// A CadQuery export format.
#[derive(Debug, Clone, Copy, PartialEq, Eq, Structural)]
pub enum CadQueryExportFormat {
    Step,
    Stl,
    ThreeMf,
}

pub open spec fn kind_label(kind: CadQueryObjectKind) -> Seq<char> {
    match kind {
        CadQueryObjectKind::Part => "part"@,
        CadQueryObjectKind::Component => "component"@,
        CadQueryObjectKind::Assembly => "assembly"@,
    }
}

/// The label of an object kind: `part`, `component` or `assembly`.
pub fn target_type_label(kind: CadQueryObjectKind) -> (r: &'static str)
    ensures
        r@ == kind_label(kind),
{
    match kind {
        CadQueryObjectKind::Part => "part",
        CadQueryObjectKind::Component => "component",
        CadQueryObjectKind::Assembly => "assembly",
    }
}

/// The root directory that holds sources of an object kind.
pub open spec fn kind_root(kind: CadQueryObjectKind) -> Seq<char> {
    match kind {
        CadQueryObjectKind::Part => "parts"@,
        CadQueryObjectKind::Component => "components"@,
        CadQueryObjectKind::Assembly => "assemblies"@,
    }
}

pub fn kind_root_exec(kind: CadQueryObjectKind) -> (r: &'static str)
    ensures
        r@ == kind_root(kind),
{
    match kind {
        CadQueryObjectKind::Part => "parts",
        CadQueryObjectKind::Component => "components",
        CadQueryObjectKind::Assembly => "assemblies",
    }
}

pub open spec fn format_extension(format: CadQueryExportFormat) -> Seq<char> {
    match format {
        CadQueryExportFormat::Step => "step"@,
        CadQueryExportFormat::Stl => "stl"@,
        CadQueryExportFormat::ThreeMf => "3mf"@,
    }
}

/// The file extension of an export format.
pub fn format_extension_exec(format: CadQueryExportFormat) -> (r: &'static str)
    ensures
        r@ == format_extension(format),
{
    match format {
        CadQueryExportFormat::Step => "step",
        CadQueryExportFormat::Stl => "stl",
        CadQueryExportFormat::ThreeMf => "3mf",
    }
}

} // verus!
