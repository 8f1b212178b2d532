//! Finding the hypervisor on the host.
//!
//! Looking at the file system and running programs is left to the caller;
//! here stand the places to look at, and what to make of what was found.

use vstd::prelude::*;
use crate::platform::Platform;
use crate::error::{Error, ErrorView};
use crate::text::{first_line, first_line_of, text_eq, text_has_char, trim, trimmed};
use crate::{QemuInfo, QemuInfoView};

verus! {

/// The names under which the hypervisor is installed.
pub open spec fn binary_names() -> Seq<Seq<char>> {
    seq!["qemu-system-aarch64"@, "qemu-system-x86_64"@]
}

/// The names under which the hypervisor is looked up on the search path.
pub fn candidate_binary_names() -> (names: Vec<&'static str>)
    ensures
        names@.len() == 2,
        names@[0]@ == binary_names()[0],
        names@[1]@ == binary_names()[1],
{
    let mut names: Vec<&'static str> = Vec::new();
    names.push("qemu-system-aarch64");
    names.push("qemu-system-x86_64");
    names
}

/// The directories that are searched when the environment names none.
pub open spec fn shell_path() -> Seq<char> {
    "/opt/homebrew/bin:/usr/local/bin:/usr/bin:/bin:/usr/sbin:/sbin"@
}

/// The directories that are searched when the environment names none.
pub fn default_shell_path() -> (path: String)
    ensures
        path@ == shell_path(),
{
    String::from_str("/opt/homebrew/bin:/usr/local/bin:/usr/bin:/bin:/usr/sbin:/sbin")
}

/// The search path for the lookup: the environment's own, where it has one,
/// with the default directories behind it.
pub open spec fn lookup_path(current: Seq<char>) -> Seq<char> {
    if current.len() == 0 {
        shell_path()
    } else {
        current + ":"@ + shell_path()
    }
}

/// Makes the search path for the lookup; `current` is the search path of the
/// environment, empty where it has none.
pub fn build_lookup_path(current: &str) -> (path: String)
    ensures
        path@ == lookup_path(current@),
{
    if current.is_empty() {
        return default_shell_path();
    }
    let mut path = String::from_str(current);
    path.append(":");
    path.append(default_shell_path().as_str());
    path
}

/// The places where the hypervisor is installed on a host of the kind
/// `platform`, in the order of preference.
pub open spec fn search_paths(platform: Platform) -> Seq<Seq<char>> {
    match platform {
        Platform::MacOs => seq![
            "/opt/homebrew/bin/qemu-system-x86_64"@,
            "/opt/homebrew/bin/qemu-system-aarch64"@,
            "/opt/homebrew/opt/qemu/bin/qemu-system-x86_64"@,
            "/opt/homebrew/opt/qemu/bin/qemu-system-aarch64"@,
            "/usr/local/bin/qemu-system-x86_64"@,
            "/usr/local/bin/qemu-system-aarch64"@,
            "/usr/bin/qemu-system-x86_64"@,
            "/usr/bin/qemu-system-aarch64"@,
        ],
        Platform::Linux => seq![
            "/usr/bin/qemu-system-x86_64"@,
            "/usr/bin/qemu-system-aarch64"@,
            "/usr/libexec/qemu-system-x86_64"@,
        ],
        Platform::Windows => seq![
            "C:\\Program Files\\qemu\\qemu-system-x86_64.exe"@,
            "C:\\Program Files (x86)\\qemu\\qemu-system-x86_64.exe"@,
        ],
        Platform::Other => Seq::empty(),
    }
}

fn push_path(paths: &mut Vec<String>, path: &str)
    ensures
        final(paths).deep_view() == old(paths).deep_view().push(path@),
{
    paths.push(String::from_str(path));
    assert(paths.deep_view() =~= old(paths).deep_view().push(path@));
}

/// Get QEMU installation search paths by platform
pub fn get_search_paths(platform: Platform) -> (paths: Vec<String>)
    ensures
        paths.deep_view() == search_paths(platform),
{
    let mut paths: Vec<String> = Vec::new();
    assert(paths.deep_view() =~= Seq::<Seq<char>>::empty());
    match platform {
        Platform::MacOs => {
            push_path(&mut paths, "/opt/homebrew/bin/qemu-system-x86_64");
            push_path(&mut paths, "/opt/homebrew/bin/qemu-system-aarch64");
            push_path(&mut paths, "/opt/homebrew/opt/qemu/bin/qemu-system-x86_64");
            push_path(&mut paths, "/opt/homebrew/opt/qemu/bin/qemu-system-aarch64");
            push_path(&mut paths, "/usr/local/bin/qemu-system-x86_64");
            push_path(&mut paths, "/usr/local/bin/qemu-system-aarch64");
            push_path(&mut paths, "/usr/bin/qemu-system-x86_64");
            push_path(&mut paths, "/usr/bin/qemu-system-aarch64");
        },
        Platform::Linux => {
            push_path(&mut paths, "/usr/bin/qemu-system-x86_64");
            push_path(&mut paths, "/usr/bin/qemu-system-aarch64");
            push_path(&mut paths, "/usr/libexec/qemu-system-x86_64");
        },
        Platform::Windows => {
            push_path(&mut paths, "C:\\Program Files\\qemu\\qemu-system-x86_64.exe");
            push_path(&mut paths, "C:\\Program Files (x86)\\qemu\\qemu-system-x86_64.exe");
        },
        Platform::Other => {},
    }
    assert(paths.deep_view() =~= search_paths(platform));
    paths
}

/// The candidates `candidates` after the place `path` was looked at:
/// a place that exists and is not among them yet comes last.
pub open spec fn with_candidate(
    candidates: Seq<Seq<char>>,
    path: Seq<char>,
    exists: bool,
) -> Seq<Seq<char>> {
    if exists && !candidates.contains(path) {
        candidates.push(path)
    } else {
        candidates
    }
}

fn holds_path(candidates: &Vec<String>, path: &str) -> (r: bool)
    ensures
        r == candidates.deep_view().contains(path@),
{
    let mut i: usize = 0;
    while i < candidates.len()
        invariant
            i <= candidates@.len(),
            forall|j: int| 0 <= j < i ==> candidates.deep_view()[j] != path@,
        decreases candidates.len() - i,
    {
        assert(candidates.deep_view()[i as int] == candidates@[i as int]@);
        if text_eq(candidates[i].as_str(), path) {
            return true;
        }
        i += 1;
    }
    false
}

/// Notes a place where the hypervisor may be installed; `exists` is whether
/// something is there. No place is noted twice.
pub fn append_candidate_if_exists(candidates: &mut Vec<String>, path: String, exists: bool)
    ensures
        final(candidates).deep_view() == with_candidate(old(candidates).deep_view(), path@, exists),
{
    if holds_path(candidates, path.as_str()) {
        return ;
    }
    if exists {
        let ghost text = path@;
        candidates.push(path);
        assert(candidates.deep_view() =~= old(candidates).deep_view().push(text));
    }
}

/// A place that was looked at.
#[derive(Debug)]
pub struct Probe {
    /// The place.
    pub path: String,
    /// Whether something is there.
    pub exists: bool,
    /// Whether what is there runs and tells its version.
    pub runnable: bool,
}

/// A [`Probe`] as plain values.
pub struct ProbeView {
    pub path: Seq<char>,
    pub exists: bool,
    pub runnable: bool,
}

impl View for Probe {
    type V = ProbeView;

    open spec fn view(&self) -> ProbeView {
        ProbeView { path: self.path@, exists: self.exists, runnable: self.runnable }
    }
}

/// Probes as plain values.
pub open spec fn probe_views(probes: Seq<Probe>) -> Seq<ProbeView> {
    Seq::new(probes.len(), |i: int| probes[i]@)
}

/// The candidates among the places `probes`, in the order in which they
/// were looked at.
pub open spec fn candidates_of(probes: Seq<ProbeView>) -> Seq<Seq<char>>
    decreases probes.len(),
{
    if probes.len() == 0 {
        Seq::empty()
    } else {
        with_candidate(
            candidates_of(probes.drop_last()),
            probes.last().path,
            probes.last().exists,
        )
    }
}

/// Collects the places where the hypervisor may be installed from the
/// places that were looked at: first the fixed places of the platform, then
/// what the lookup on the search path found.
pub fn collect_qemu_candidates(probes: &Vec<Probe>) -> (candidates: Vec<String>)
    ensures
        candidates.deep_view() == candidates_of(probe_views(probes@)),
{
    let ghost all = probe_views(probes@);
    let mut candidates: Vec<String> = Vec::new();
    let mut i: usize = 0;
    assert(all.take(0) =~= Seq::<ProbeView>::empty());
    assert(candidates.deep_view() =~= candidates_of(all.take(0)));
    while i < probes.len()
        invariant
            i <= probes@.len(),
            all == probe_views(probes@),
            candidates.deep_view() == candidates_of(all.take(i as int)),
        decreases probes.len() - i,
    {
        assert(all.take(i + 1).drop_last() =~= all.take(i as int));
        assert(all.take(i + 1).last() == probes@[i as int]@);
        append_candidate_if_exists(&mut candidates, probes[i].path.clone(), probes[i].exists);
        i += 1;
    }
    assert(all.take(i as int) =~= all);
    candidates
}

/// Whether `at` is the first of `probes` that runs.
pub open spec fn first_runnable(probes: Seq<ProbeView>, at: int) -> bool {
    &&& 0 <= at < probes.len()
    &&& probes[at].runnable
    &&& forall|j: int| 0 <= j < at ==> !(#[trigger] probes[j]).runnable
}

/// Whether `at` is the first of `probes` that exists.
pub open spec fn first_existing(probes: Seq<ProbeView>, at: int) -> bool {
    &&& 0 <= at < probes.len()
    &&& probes[at].exists
    &&& forall|j: int| 0 <= j < at ==> !(#[trigger] probes[j]).exists
}

/// Whether `found` is the right answer to the question where the hypervisor
/// is: the first candidate that runs; where none runs, the first that
/// exists; where none exists, the error that there is no hypervisor.
pub open spec fn binary_found(probes: Seq<ProbeView>, found: Result<Seq<char>, ErrorView>) -> bool {
    if exists|at: int| first_runnable(probes, at) {
        exists|at: int| first_runnable(probes, at) && found == Ok::<Seq<char>, ErrorView>(
            probes[at].path,
        )
    } else if exists|at: int| first_existing(probes, at) {
        exists|at: int| first_existing(probes, at) && found == Ok::<Seq<char>, ErrorView>(
            probes[at].path,
        )
    } else {
        found == Err::<Seq<char>, ErrorView>(ErrorView::QemuNotFound)
    }
}

/// A path or an error as plain values.
pub open spec fn path_view(r: Result<String, Error>) -> Result<Seq<char>, ErrorView> {
    match r {
        Ok(path) => Ok(path@),
        Err(e) => Err(e@),
    }
}

/// Find QEMU binary among the candidates that were probed
pub fn find_qemu_binary(probes: &Vec<Probe>) -> (r: Result<String, Error>)
    ensures
        binary_found(probe_views(probes@), path_view(r)),
{
    let ghost all = probe_views(probes@);
    // Prefer candidates that are directly runnable.
    let mut i: usize = 0;
    while i < probes.len()
        invariant
            i <= probes@.len(),
            all == probe_views(probes@),
            forall|j: int| 0 <= j < i ==> !(#[trigger] all[j]).runnable,
        decreases probes.len() - i,
    {
        assert(all[i as int] == probes@[i as int]@);
        if probes[i].runnable {
            assert(first_runnable(all, i as int));
            return Ok(probes[i].path.clone());
        }
        i += 1;
    }
    assert(!exists|at: int| first_runnable(all, at));
    // Fall back to existing binaries, even if version probing failed.
    let mut k: usize = 0;
    while k < probes.len()
        invariant
            k <= probes@.len(),
            all == probe_views(probes@),
            !exists|at: int| first_runnable(all, at),
            forall|j: int| 0 <= j < k ==> !(#[trigger] all[j]).exists,
        decreases probes.len() - k,
    {
        assert(all[k as int] == probes@[k as int]@);
        if probes[k].exists {
            assert(first_existing(all, k as int));
            return Ok(probes[k].path.clone());
        }
        k += 1;
    }
    assert(!exists|at: int| first_existing(all, at));
    Err(Error::QemuNotFound)
}

/// Detect KVM support on Linux; `device_present` is whether `/dev/kvm`
/// exists.
pub fn detect_kvm_support(device_present: bool) -> (r: Result<String, Error>)
    ensures
        match r {
            Ok(name) => device_present && name@ == "KVM"@,
            Err(e) => !device_present && e@ == ErrorView::QemuError("KVM not available"@),
        },
{
    if device_present {
        Ok(String::from_str("KVM"))
    } else {
        Err(Error::QemuError(String::from_str("KVM not available")))
    }
}

/// Detect WHPX support on Windows
pub fn detect_whpx_support() -> (r: Result<String, Error>)
    ensures
        r matches Ok(name) && name@ == "WHPX"@,
{
    Ok(String::from_str("WHPX"))
}

/// What the answer of the system to the question for `kern.hv_support`
/// means.
pub open spec fn hvf_support(success: bool, output: Seq<char>) -> Result<Seq<char>, ErrorView> {
    if !success {
        Err(ErrorView::QemuError("HVF not available"@))
    } else if output.contains('1') {
        Ok("HVF"@)
    } else {
        Err(ErrorView::QemuError("HVF disabled"@))
    }
}

/// Detect HVF support on macOS from what `sysctl kern.hv_support` answered:
/// `success` is whether it ran well, `output` what it wrote.
pub fn detect_hvf_support(success: bool, output: &str) -> (r: Result<String, Error>)
    ensures
        path_view(r) == hvf_support(success, output@),
{
    if !success {
        return Err(Error::QemuError(String::from_str("HVF not available")));
    }
    if text_has_char(output, '1') {
        Ok(String::from_str("HVF"))
    } else {
        Err(Error::QemuError(String::from_str("HVF disabled")))
    }
}

/// The version that the hypervisor told of itself: the first line of what it
/// wrote, without the white space at its ends.
pub open spec fn version_line(output: Seq<char>) -> Seq<char> {
    if output.len() == 0 {
        "unknown"@
    } else {
        trimmed(first_line(output))
    }
}

/// What a run of the hypervisor that was asked for its version tells.
pub open spec fn version_told(success: bool, output: Seq<char>) -> Result<Seq<char>, ErrorView> {
    if success {
        Ok(version_line(output))
    } else {
        Err(ErrorView::QemuError("Failed to get QEMU version"@))
    }
}

/// Get QEMU version from what the binary wrote when asked for it
pub fn get_qemu_version(success: bool, output: &str) -> (r: Result<String, Error>)
    ensures
        path_view(r) == version_told(success, output@),
{
    if !success {
        return Err(Error::QemuError(String::from_str("Failed to get QEMU version")));
    }
    if output.is_empty() {
        return Ok(String::from_str("unknown"));
    }
    Ok(trim(first_line_of(output).as_str()))
}

/// What is reported of a hypervisor that was found at `path`.
pub open spec fn detected(
    path: Seq<char>,
    version: Option<Seq<char>>,
    accelerator: Option<Seq<char>>,
) -> QemuInfoView {
    QemuInfoView { detected: true, path: Some(path), version, accelerator }
}

/// Detect QEMU binary and get system information: puts together what was
/// found.
pub fn detect(path: String, version: Option<String>, accelerator: Option<String>) -> (info:
    QemuInfo)
    ensures
        info@ == detected(path@, version.deep_view(), accelerator.deep_view()),
{
    QemuInfo { detected: true, path: Some(path), version, accelerator }
}

} // verus!
