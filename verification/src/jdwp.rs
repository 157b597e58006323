//! The parts of the Java Debug Wire Protocol that the library's records speak of.

use vstd::prelude::*;

verus! {

/// What a field watch fires on.
#[derive(Clone, Copy, Debug, PartialEq, Eq, Structural)]
pub enum WatchKind {
    Modify,
    Access,
}

/// The four monitor events: two pairs, each with an event that opens it and one that closes it.
#[derive(Clone, Copy, Debug, PartialEq, Eq, Structural)]
pub enum MonitorKind {
    Blocked,
    Acquired,
    Wait,
    Waited,
}

impl MonitorKind {
    /// The word a caller names this event by.
    pub open spec fn word(self) -> Seq<char> {
        match self {
            MonitorKind::Blocked => "blocked"@,
            MonitorKind::Acquired => "acquired"@,
            MonitorKind::Wait => "wait"@,
            MonitorKind::Waited => "waited"@,
        }
    }

    /// The word a caller names this event by.
    pub fn label(self) -> (r: &'static str)
        ensures
            r@ == self.word(),
    {
        match self {
            MonitorKind::Blocked => "blocked",
            MonitorKind::Acquired => "acquired",
            MonitorKind::Wait => "wait",
            MonitorKind::Waited => "waited",
        }
    }
}

/// Which threads an event stops.
#[derive(Clone, Copy, Debug, PartialEq, Eq, Structural)]
pub enum SuspendPolicy {
    Nothing,
    EventThread,
    All,
}

/// What a value is. The two floating-point types are carried as their bits.
#[derive(Clone, Copy, Debug, PartialEq, Eq, Structural)]
pub enum ValueData {
    Byte(i8),
    Char(u16),
    FloatBits(u32),
    DoubleBits(u64),
    Int(i32),
    Long(i64),
    Short(i16),
    Boolean(bool),
    Object(u64),
    Void,
}

/// A value of the debuggee, with the tag it came with.
#[derive(Clone, Copy, Debug, PartialEq, Eq, Structural)]
pub struct RuntimeValue {
    pub tag: u8,
    pub data: ValueData,
}

/// A declared method.
#[derive(Clone, Debug)]
pub struct MethodInfo {
    pub method_id: u64,
    pub name: String,
    pub signature: String,
    pub generic_signature: Option<String>,
    pub mod_bits: i32,
}

/// A declared field.
#[derive(Clone, Debug)]
pub struct FieldInfo {
    pub field_id: u64,
    pub name: String,
    pub signature: String,
    pub generic_signature: Option<String>,
    pub mod_bits: i32,
}

/// A loaded class.
#[derive(Clone, Debug)]
pub struct ClassInfo {
    pub ref_type_tag: u8,
    pub type_id: u64,
    pub signature: String,
    pub status: i32,
}

/// Where the code of a line starts.
#[derive(Clone, Copy, Debug, PartialEq, Eq, Structural)]
pub struct LineTableEntry {
    pub line_code_index: u64,
    pub line_number: i32,
}

/// The lines of a method.
#[derive(Clone, Debug)]
pub struct LineTable {
    pub start: u64,
    pub end: u64,
    pub lines: Vec<LineTableEntry>,
}

/// What a VM can be asked.
#[derive(Clone, Copy, Debug, PartialEq, Eq, Structural)]
pub struct VmCapabilities {
    pub can_watch_field_modification: bool,
    pub can_watch_field_access: bool,
    pub can_get_bytecodes: bool,
    pub can_get_synthetic_attribute: bool,
    pub can_get_owned_monitor_info: bool,
    pub can_get_current_contended_monitor: bool,
    pub can_get_monitor_info: bool,
}

fn copy_optional(s: &Option<String>) -> (r: Option<String>)
    ensures
        r == *s,
{
    match s {
        Some(s) => Some(s.clone()),
        None => None,
    }
}

impl MethodInfo {
    /// A copy.
    pub fn duplicate(&self) -> (r: Self)
        ensures
            r == *self,
    {
        MethodInfo {
            method_id: self.method_id,
            name: self.name.clone(),
            signature: self.signature.clone(),
            generic_signature: copy_optional(&self.generic_signature),
            mod_bits: self.mod_bits,
        }
    }
}

impl FieldInfo {
    /// A copy.
    pub fn duplicate(&self) -> (r: Self)
        ensures
            r == *self,
    {
        FieldInfo {
            field_id: self.field_id,
            name: self.name.clone(),
            signature: self.signature.clone(),
            generic_signature: copy_optional(&self.generic_signature),
            mod_bits: self.mod_bits,
        }
    }
}

} // verus!
