use vstd::prelude::*;

verus! {

/// Where a unit lives.
#[derive(Clone, Copy, Debug, PartialEq, Eq, Structural)]
pub enum VmType {
    Host,
    AdmVm,
    SysVm,
    AppVm,
}

/// What a unit is.
#[derive(Clone, Copy, Debug, PartialEq, Eq, Structural)]
pub enum ServiceType {
    Mgr,
    Svc,
    App,
    Vm,
}

/// The kind of a unit; the registry only compares kinds for equality.
#[derive(Clone, Copy, Debug, PartialEq, Eq, Structural)]
pub struct UnitType {
    pub vm: VmType,
    pub service: ServiceType,
}

/// Lifecycle status of a unit. The registry stores and replaces it and
/// checks no transition.
#[derive(Clone, Copy, Debug, PartialEq, Eq, Structural)]
pub enum UnitStatus {
    Starting,
    Running,
    Stopped,
    Failed,
}

/// One managed unit.
#[derive(Debug, PartialEq, Eq)]
pub struct RegistryEntry {
    pub name: String,
    pub unit_type: UnitType,
    pub status: UnitStatus,
    pub watch: bool,
}

/// The mathematical value of a `RegistryEntry`.
pub struct EntryView {
    pub name: Seq<char>,
    pub unit_type: UnitType,
    pub status: UnitStatus,
    pub watch: bool,
}

impl View for RegistryEntry {
    type V = EntryView;

    open spec fn view(&self) -> EntryView {
        EntryView {
            name: self.name@,
            unit_type: self.unit_type,
            status: self.status,
            watch: self.watch,
        }
    }
}

impl Clone for RegistryEntry {
    fn clone(&self) -> (r: Self)
        ensures
            r@ == self@,
    {
        RegistryEntry {
            name: self.name.clone(),
            unit_type: self.unit_type,
            status: self.status,
            watch: self.watch,
        }
    }
}

/// What a failed lookup asked for.
#[derive(Debug, PartialEq, Eq)]
pub enum Query {
    /// An exact name.
    Name(String),
    /// A part of a name.
    Substring(String),
    /// A unit type.
    Type(UnitType),
}

/// Why a registry operation failed. A failed operation leaves the registry
/// as it was.
#[derive(Debug, PartialEq, Eq)]
pub enum RegistryError {
    /// Nothing in the registry matches the query.
    NotFound(Query),
    /// More than one unit has a type that should have a single unit.
    Conflict(UnitType),
}

} // verus!
