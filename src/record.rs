//! Process records as the snapshot provider hands them over, and the keys they sort by.
use vstd::prelude::*;

verus! {

/// One process of a snapshot. CPU use is kept in hundredths of a percent, so that
/// `1250` reads as 12.5 %; totals over several cores may exceed `10000`.
pub struct ProcessRecord {
    pub pid: u32,
    pub name: String,
    pub cpu: u32,
    pub mem_kb: u64,
}

/// What a record holds, with its name as a sequence of characters.
pub struct RecordView {
    pub pid: u32,
    pub name: Seq<char>,
    pub cpu: u32,
    pub mem_kb: u64,
}

impl View for ProcessRecord {
    type V = RecordView;

    open spec fn view(&self) -> RecordView {
        RecordView { pid: self.pid, name: self.name@, cpu: self.cpu, mem_kb: self.mem_kb }
    }
}

/// The views of a sequence of records, in the same order.
pub open spec fn views(s: Seq<ProcessRecord>) -> Seq<RecordView> {
    s.map_values(|r: ProcessRecord| r@)
}

impl ProcessRecord {
    /// Builds a record from its four fields.
    pub fn new(pid: u32, name: String, cpu: u32, mem_kb: u64) -> (r: ProcessRecord)
        ensures
            r.pid == pid,
            r.name@ == name@,
            r.cpu == cpu,
            r.mem_kb == mem_kb,
    {
        ProcessRecord { pid, name, cpu, mem_kb }
    }

    /// A copy with the same view.
    pub fn duplicate(&self) -> (r: ProcessRecord)
        ensures
            r@ == self@,
    {
        ProcessRecord { pid: self.pid, name: self.name.clone(), cpu: self.cpu, mem_kb: self.mem_kb }
    }
}

/// The column that orders the process table.
#[derive(Clone, Copy, Debug, PartialEq, Eq, Structural)]
pub enum SortKey {
    Cpu,
    Mem,
    Pid,
    Name,
}

/// Direction of the process table.
#[derive(Clone, Copy, Debug, PartialEq, Eq, Structural)]
pub enum SortOrder {
    Ascending,
    Descending,
}

/// The key that follows `k` when the operator cycles through them.
pub open spec fn next_key(k: SortKey) -> SortKey {
    match k {
        SortKey::Cpu => SortKey::Mem,
        SortKey::Mem => SortKey::Pid,
        SortKey::Pid => SortKey::Name,
        SortKey::Name => SortKey::Cpu,
    }
}

/// The other direction.
pub open spec fn flipped(o: SortOrder) -> SortOrder {
    match o {
        SortOrder::Ascending => SortOrder::Descending,
        SortOrder::Descending => SortOrder::Ascending,
    }
}

impl SortKey {
    /// The key after this one: Cpu, Mem, Pid, Name, then Cpu again.
    pub fn cycled(self) -> (r: SortKey)
        ensures
            r == next_key(self),
    {
        match self {
            SortKey::Cpu => SortKey::Mem,
            SortKey::Mem => SortKey::Pid,
            SortKey::Pid => SortKey::Name,
            SortKey::Name => SortKey::Cpu,
        }
    }
}

impl SortOrder {
    /// The opposite direction.
    pub fn toggled(self) -> (r: SortOrder)
        ensures
            r == flipped(self),
    {
        match self {
            SortOrder::Ascending => SortOrder::Descending,
            SortOrder::Descending => SortOrder::Ascending,
        }
    }
}

} // verus!
