//! The shape of the rows that the durable registry keeps.

use vstd::prelude::*;

verus! {

/// One row of the registry: a machine, its sizes and its status tag.
#[derive(Debug)]
pub struct VMRecord {
    pub id: String,
    pub name: String,
    pub status: String,
    pub memory_mb: u32,
    pub cpu_cores: u32,
    pub disk_size_gb: u32,
    pub os: String,
}

/// A [`VMRecord`] as plain values.
pub struct VMRecordView {
    pub id: Seq<char>,
    pub name: Seq<char>,
    pub status: Seq<char>,
    pub memory_mb: u32,
    pub cpu_cores: u32,
    pub disk_size_gb: u32,
    pub os: Seq<char>,
}

impl View for VMRecord {
    type V = VMRecordView;

    open spec fn view(&self) -> VMRecordView {
        VMRecordView {
            id: self.id@,
            name: self.name@,
            status: self.status@,
            memory_mb: self.memory_mb,
            cpu_cores: self.cpu_cores,
            disk_size_gb: self.disk_size_gb,
            os: self.os@,
        }
    }
}

impl Clone for VMRecord {
    fn clone(&self) -> (r: Self)
        ensures
            r@ == self@,
    {
        VMRecord {
            id: self.id.clone(),
            name: self.name.clone(),
            status: self.status.clone(),
            memory_mb: self.memory_mb,
            cpu_cores: self.cpu_cores,
            disk_size_gb: self.disk_size_gb,
            os: self.os.clone(),
        }
    }
}

} // verus!
