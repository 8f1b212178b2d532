//! Disk images: where they lie, how the image tool is asked for them and
//! what its answers mean.

use vstd::prelude::*;
use crate::commands::{disk_file, disk_path};
use crate::error::{Error, ErrorView};
use crate::json::{json_member, json_problem, json_u64, read_member, u64_value};
use crate::text::{decimal, decimal_string, text_of_bytes};
use vstd::utf8::{decode_utf8, valid_utf8};

verus! {

/// The disk images of the machines, all in one directory.
#[derive(Debug)]
pub struct DiskManager {
    pub storage_dir: String,
}

/// The program that makes and inspects disk images.
pub fn image_tool() -> (program: &'static str)
    ensures
        program@ == "qemu-img"@,
{
    "qemu-img"
}

/// The arguments with which the image tool makes the image `path` of
/// `size_gb` GiB.
pub open spec fn create_args(path: Seq<char>, size_gb: u32) -> Seq<Seq<char>> {
    seq!["create"@, "-f"@, "qcow2"@, path, decimal(size_gb as nat) + "G"@]
}

/// The arguments with which the image tool describes the image `path` in
/// JSON.
pub open spec fn info_args(path: Seq<char>) -> Seq<Seq<char>> {
    seq!["info"@, "--output=json"@, path]
}

/// What became of a run of the image tool that was to make the image `path`:
/// the path where the tool succeeded, else an error with what the tool wrote
/// to its error stream.
pub open spec fn creation_outcome(success: bool, stderr: Seq<char>, path: Seq<char>) -> Result<
    Seq<char>,
    ErrorView,
> {
    if success {
        Ok(path)
    } else {
        Err(ErrorView::QemuError("qemu-img create failed: "@ + stderr))
    }
}

/// The size that the image tool reports in the JSON text `doc`: the member
/// `virtual-size`, which must be a number that fits in 64 bits.
pub open spec fn reported_size(doc: Seq<char>) -> Result<u64, ErrorView> {
    match json_problem(doc) {
        Some(problem) => Err(ErrorView::JsonError(problem)),
        None => size_found(
            match json_member(doc, "virtual-size"@) {
                Some(member) => json_u64(member),
                None => None,
            },
        ),
    }
}

/// The size, or the complaint that the tool reported none.
pub open spec fn size_found(size: Option<u64>) -> Result<u64, ErrorView> {
    match size {
        Some(n) => Ok(n),
        None => Err(ErrorView::InvalidConfig("Invalid virtual-size in qemu-img output"@)),
    }
}

/// What became of a run of the image tool that was to describe an image:
/// the size that it reported where it succeeded and wrote UTF-8.
pub open spec fn info_outcome(success: bool, stdout: Seq<u8>) -> Result<u64, ErrorView> {
    if !success {
        Err(ErrorView::QemuError("qemu-img info failed"@))
    } else if !valid_utf8(stdout) {
        Err(ErrorView::InvalidConfig("qemu-img output is not UTF-8"@))
    } else {
        reported_size(decode_utf8(stdout))
    }
}

/// A size or an error as plain values.
pub open spec fn size_view(r: Result<u64, Error>) -> Result<u64, ErrorView> {
    match r {
        Ok(n) => Ok(n),
        Err(e) => Err(e@),
    }
}

/// Takes the size that was read from the tool's report, or complains that
/// there was none.
pub fn virtual_size_from(size: Option<u64>) -> (r: Result<u64, Error>)
    ensures
        size_view(r) == size_found(size),
{
    match size {
        Some(n) => Ok(n),
        None => Err(
            Error::InvalidConfig(String::from_str("Invalid virtual-size in qemu-img output")),
        ),
    }
}

/// Reads the virtual size out of the image tool's JSON report.
pub fn parse_virtual_size(info_json: &str) -> (r: Result<u64, Error>)
    ensures
        size_view(r) == reported_size(info_json@),
{
    match read_member(info_json, "virtual-size") {
        Err(problem) => Err(Error::JsonError(problem)),
        Ok(member) => virtual_size_from(
            match member {
                Some(text) => u64_value(text.as_str()),
                None => None,
            },
        ),
    }
}

impl DiskManager {
    /// The manager of the disk images below `storage_dir`.
    pub fn new(storage_dir: String) -> (manager: Self)
        ensures
            manager.storage_dir == storage_dir,
    {
        Self { storage_dir }
    }

    /// Where the disk image of the machine `vm_id` lies.
    pub fn disk_path(&self, vm_id: &str) -> (path: String)
        ensures
            path@ == disk_file(self.storage_dir@, vm_id@),
    {
        disk_path(self.storage_dir.as_str(), vm_id)
    }

    /// The arguments for the image tool that make the disk of the machine
    /// `vm_id`, `size_gb` GiB large.
    pub fn create_disk_args(&self, vm_id: &str, size_gb: u32) -> (args: Vec<String>)
        ensures
            args.deep_view() == create_args(disk_file(self.storage_dir@, vm_id@), size_gb),
    {
        let mut size = decimal_string(size_gb as u64);
        size.append("G");
        let mut args: Vec<String> = Vec::new();
        args.push(String::from_str("create"));
        args.push(String::from_str("-f"));
        args.push(String::from_str("qcow2"));
        args.push(self.disk_path(vm_id));
        args.push(size);
        assert(args.deep_view() =~= create_args(disk_file(self.storage_dir@, vm_id@), size_gb));
        args
    }

    /// Says what became of the run of the image tool that was to make the
    /// disk of the machine `vm_id`.
    pub fn create_disk(&self, vm_id: &str, success: bool, stderr: &str) -> (r: Result<
        String,
        Error,
    >)
        ensures
            match r {
                Ok(path) => creation_outcome(
                    success,
                    stderr@,
                    disk_file(self.storage_dir@, vm_id@),
                ) == Ok::<Seq<char>, ErrorView>(path@),
                Err(e) => creation_outcome(
                    success,
                    stderr@,
                    disk_file(self.storage_dir@, vm_id@),
                ) == Err::<Seq<char>, ErrorView>(e@),
            },
    {
        if !success {
            let mut message = String::from_str("qemu-img create failed: ");
            message.append(stderr);
            return Err(Error::QemuError(message));
        }
        Ok(self.disk_path(vm_id))
    }

    /// The arguments for the image tool that describe the disk of the
    /// machine `vm_id`.
    pub fn disk_info_args(&self, vm_id: &str) -> (args: Vec<String>)
        ensures
            args.deep_view() == info_args(disk_file(self.storage_dir@, vm_id@)),
    {
        let mut args: Vec<String> = Vec::new();
        args.push(String::from_str("info"));
        args.push(String::from_str("--output=json"));
        args.push(self.disk_path(vm_id));
        assert(args.deep_view() =~= info_args(disk_file(self.storage_dir@, vm_id@)));
        args
    }

    /// Says what size the image tool reported: `success` is whether it ran
    /// well, `stdout` what it wrote.
    pub fn get_virtual_size(&self, success: bool, stdout: &[u8]) -> (r: Result<u64, Error>)
        ensures
            size_view(r) == info_outcome(success, stdout@),
    {
        if !success {
            return Err(Error::QemuError(String::from_str("qemu-img info failed")));
        }
        match text_of_bytes(stdout) {
            Some(text) => parse_virtual_size(text.as_str()),
            None => Err(Error::InvalidConfig(String::from_str("qemu-img output is not UTF-8"))),
        }
    }
}

} // verus!
