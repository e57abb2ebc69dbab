//! The data of one snapshot that the report reads.
use vstd::prelude::*;

verus! {

/// One process at sample time. The CPU share is in hundredths of a percent
/// of one core, so it may exceed 10000 on a saturated multi-core machine.
#[derive(Debug)]
pub struct ProcessEntry {
    pub pid: u32,
    pub name: String,
    pub cpu_hundredths: u32,
    pub memory_bytes: u64,
}

/// The mathematical value of a process entry.
pub struct ProcessView {
    pub pid: u32,
    pub name: Seq<char>,
    pub cpu_hundredths: u32,
    pub memory_bytes: u64,
}

impl View for ProcessEntry {
    type V = ProcessView;

    open spec fn view(&self) -> ProcessView {
        ProcessView {
            pid: self.pid,
            name: self.name@,
            cpu_hundredths: self.cpu_hundredths,
            memory_bytes: self.memory_bytes,
        }
    }
}

impl ProcessEntry {
    pub fn new(pid: u32, name: String, cpu_hundredths: u32, memory_bytes: u64) -> (r: Self)
        ensures
            r.pid == pid,
            r.name@ == name@,
            r.cpu_hundredths == cpu_hundredths,
            r.memory_bytes == memory_bytes,
    {
        ProcessEntry { pid, name, cpu_hundredths, memory_bytes }
    }

    /// A field-by-field copy.
    pub fn duplicate(&self) -> (r: Self)
        ensures
            r@ == self@,
    {
        ProcessEntry {
            pid: self.pid,
            name: self.name.clone(),
            cpu_hundredths: self.cpu_hundredths,
            memory_bytes: self.memory_bytes,
        }
    }
}

/// The views of a list of entries.
pub open spec fn process_views(p: Seq<ProcessEntry>) -> Seq<ProcessView> {
    p.map_values(|e: ProcessEntry| e@)
}

} // verus!
