//! Builder for the hypervisor's command line.
//!
//! A [`QemuCommand`] collects the parts of a machine and [`QemuCommand::build`]
//! lays them out as arguments in a fixed order, so that equal commands always
//! give equal command lines.

use vstd::prelude::*;
use crate::text::{decimal, decimal_string, join, joined, text_eq};

verus! {

/// Hardware acceleration back ends of the hypervisor.
#[derive(Debug, Clone, Copy, PartialEq, Eq, Structural)]
pub enum Accelerator {
    Hvf,
    Kvm,
    Whpx,
    Tcg,
}

impl Accelerator {
    /// The name the hypervisor knows the back end by.
    pub open spec fn name(self) -> Seq<char> {
        match self {
            Accelerator::Hvf => "hvf"@,
            Accelerator::Kvm => "kvm"@,
            Accelerator::Whpx => "whpx"@,
            Accelerator::Tcg => "tcg"@,
        }
    }

    /// The name the hypervisor knows the back end by.
    pub fn as_str(&self) -> (s: &str)
        ensures
            s@ == self.name(),
    {
        match self {
            Accelerator::Hvf => "hvf",
            Accelerator::Kvm => "kvm",
            Accelerator::Whpx => "whpx",
            Accelerator::Tcg => "tcg",
        }
    }
}

/// Machine models of the hypervisor.
#[derive(Debug, Clone, Copy, PartialEq, Eq, Structural)]
pub enum MachineType {
    Q35,
    I440fx,
    Virt,
}

impl MachineType {
    /// The name the hypervisor knows the machine model by.
    pub open spec fn name(self) -> Seq<char> {
        match self {
            MachineType::Q35 => "q35"@,
            MachineType::I440fx => "i440fx"@,
            MachineType::Virt => "virt"@,
        }
    }

    /// The name the hypervisor knows the machine model by.
    pub fn as_str(&self) -> (s: &str)
        ensures
            s@ == self.name(),
    {
        match self {
            MachineType::Q35 => "q35",
            MachineType::I440fx => "i440fx",
            MachineType::Virt => "virt",
        }
    }
}

/// Named settings of a device, in the order in which their names were first
/// inserted; no name occurs twice.
#[derive(Debug)]
pub struct Options {
    entries: Vec<(String, String)>,
}

/// Whether no two entries of `entries` share a name.
pub open spec fn names_distinct(entries: Seq<(Seq<char>, Seq<char>)>) -> bool {
    forall|i: int, j: int|
        0 <= i < entries.len() && 0 <= j < entries.len() && i != j ==> (#[trigger] entries[i]).0
            != (#[trigger] entries[j]).0
}

/// Whether some entry of `entries` is named `name`.
pub open spec fn has_name(entries: Seq<(Seq<char>, Seq<char>)>, name: Seq<char>) -> bool {
    exists|i: int| 0 <= i < entries.len() && (#[trigger] entries[i]).0 == name
}

/// `entries` after `name` was given `value`: the entry of that name keeps its
/// place and takes the value, or a new entry comes last.
pub open spec fn with_entry(
    entries: Seq<(Seq<char>, Seq<char>)>,
    name: Seq<char>,
    value: Seq<char>,
) -> Seq<(Seq<char>, Seq<char>)>
    decreases entries.len(),
{
    if entries.len() == 0 {
        seq![(name, value)]
    } else if entries.last().0 == name {
        entries.drop_last().push((name, value))
    } else if has_name(entries.drop_last(), name) {
        with_entry(entries.drop_last(), name, value).push(entries.last())
    } else {
        entries.push((name, value))
    }
}

/// The value that `entries` holds under `name`, if any.
pub open spec fn value_of(entries: Seq<(Seq<char>, Seq<char>)>, name: Seq<char>) -> Option<
    Seq<char>,
>
    decreases entries.len(),
{
    if entries.len() == 0 {
        None
    } else if entries.last().0 == name {
        Some(entries.last().1)
    } else {
        value_of(entries.drop_last(), name)
    }
}

proof fn lemma_with_entry_at(
    entries: Seq<(Seq<char>, Seq<char>)>,
    name: Seq<char>,
    value: Seq<char>,
    at: int,
)
    requires
        names_distinct(entries),
        0 <= at < entries.len(),
        entries[at].0 == name,
    ensures
        with_entry(entries, name, value) == entries.update(at, (name, value)),
        value_of(entries, name) == Some(entries[at].1),
    decreases entries.len(),
{
    let n = entries.len() as int;
    if at == n - 1 {
        assert(entries.drop_last().push((name, value)) =~= entries.update(at, (name, value)));
    } else {
        assert(entries[n - 1].0 != entries[at].0);
        let front = entries.drop_last();
        assert(front[at].0 == name);
        assert(names_distinct(front)) by {
            assert forall|i: int, j: int|
                0 <= i < front.len() && 0 <= j < front.len() && i != j implies (
            #[trigger] front[i]).0 != (#[trigger] front[j]).0 by {
                assert(front[i] == entries[i]);
                assert(front[j] == entries[j]);
            }
        }
        lemma_with_entry_at(front, name, value, at);
        assert(front.update(at, (name, value)).push(entries.last()) =~= entries.update(
            at,
            (name, value),
        ));
    }
}

proof fn lemma_with_entry_new(
    entries: Seq<(Seq<char>, Seq<char>)>,
    name: Seq<char>,
    value: Seq<char>,
)
    requires
        !has_name(entries, name),
    ensures
        with_entry(entries, name, value) == entries.push((name, value)),
        value_of(entries, name) is None,
    decreases entries.len(),
{
    if entries.len() > 0 {
        let n = entries.len() as int;
        assert(entries[n - 1].0 != name);
        let front = entries.drop_last();
        assert(!has_name(front, name)) by {
            if has_name(front, name) {
                let i = choose|i: int| 0 <= i < front.len() && (#[trigger] front[i]).0 == name;
                assert(entries[i].0 == name);
            }
        }
        lemma_with_entry_new(front, name, value);
    } else {
        assert(seq![(name, value)] =~= entries.push((name, value)));
    }
}

/// Giving a name a value keeps the names distinct.
pub proof fn lemma_with_entry_distinct(
    entries: Seq<(Seq<char>, Seq<char>)>,
    name: Seq<char>,
    value: Seq<char>,
)
    requires
        names_distinct(entries),
    ensures
        names_distinct(with_entry(entries, name, value)),
{
    let after = with_entry(entries, name, value);
    if has_name(entries, name) {
        let at = choose|i: int| 0 <= i < entries.len() && (#[trigger] entries[i]).0 == name;
        lemma_with_entry_at(entries, name, value, at);
        assert forall|a: int, b: int|
            0 <= a < after.len() && 0 <= b < after.len() && a != b implies (#[trigger] after[a]).0
            != (#[trigger] after[b]).0 by {
            assert(after[a].0 == entries[a].0);
            assert(after[b].0 == entries[b].0);
        }
    } else {
        lemma_with_entry_new(entries, name, value);
        assert forall|a: int, b: int|
            0 <= a < after.len() && 0 <= b < after.len() && a != b implies (#[trigger] after[a]).0
            != (#[trigger] after[b]).0 by {
            if a < entries.len() {
                assert(after[a] == entries[a]);
            }
            if b < entries.len() {
                assert(after[b] == entries[b]);
            }
        }
    }
}

/// The names and values of `entries` as plain texts.
spec fn pairs(entries: Seq<(String, String)>) -> Seq<(Seq<char>, Seq<char>)> {
    Seq::new(entries.len(), |i: int| (entries[i].0@, entries[i].1@))
}

impl View for Options {
    type V = Seq<(Seq<char>, Seq<char>)>;

    closed spec fn view(&self) -> Seq<(Seq<char>, Seq<char>)> {
        pairs(self.entries@)
    }
}

impl Options {
    /// What holds of every value of this type: no name occurs twice.
    #[verifier::type_invariant]
    pub open spec fn distinct(self) -> bool {
        names_distinct(self@)
    }

    /// No settings.
    pub fn new() -> (r: Self)
        ensures
            r@ == Seq::<(Seq<char>, Seq<char>)>::empty(),
    {
        let r = Options { entries: Vec::new() };
        assert(r@ =~= Seq::<(Seq<char>, Seq<char>)>::empty());
        r
    }

    /// The number of settings.
    pub fn len(&self) -> (n: usize)
        ensures
            n == self@.len(),
    {
        self.entries.len()
    }

    /// Gives `name` the value `value` and returns the value it had before.
    pub fn insert(&mut self, name: String, value: String) -> (previous: Option<String>)
        ensures
            final(self)@ == with_entry(old(self)@, name@, value@),
            previous.deep_view() == value_of(old(self)@, name@),
    {
        proof {
            use_type_invariant(&*self);
        }
        let ghost before = self@;
        let ghost key = name@;
        let ghost text = value@;
        let mut entries: Vec<(String, String)> = Vec::new();
        std::mem::swap(&mut self.entries, &mut entries);
        assert(pairs(entries@) =~= before);
        let n = entries.len();
        let mut i: usize = 0;
        while i < n
            invariant
                n == entries@.len(),
                i <= n,
                pairs(entries@) == before,
                before == old(self)@,
                names_distinct(before),
                key == name@,
                text == value@,
                forall|j: int| 0 <= j < i ==> (#[trigger] before[j]).0 != name@,
            decreases n - i,
        {
            assert(before[i as int] == (entries@[i as int].0@, entries@[i as int].1@));
            if text_eq(entries[i].0.as_str(), name.as_str()) {
                let previous = entries[i].1.clone();
                assert(previous@ == before[i as int].1);
                entries.set(i, (name, value));
                proof {
                    lemma_with_entry_at(before, key, text, i as int);
                    assert(pairs(entries@) =~= before.update(i as int, (key, text)));
                    lemma_with_entry_distinct(before, key, text);
                }
                self.entries = entries;
                return Some(previous);
            }
            i += 1;
        }
        entries.push((name, value));
        proof {
            assert(!has_name(before, key));
            lemma_with_entry_new(before, key, text);
            assert(pairs(entries@) =~= before.push((key, text)));
            lemma_with_entry_distinct(before, key, text);
        }
        self.entries = entries;
        None
    }
}

impl Clone for Options {
    fn clone(&self) -> (r: Self)
        ensures
            r@ == self@,
    {
        proof {
            use_type_invariant(self);
        }
        let mut entries: Vec<(String, String)> = Vec::new();
        let mut i: usize = 0;
        while i < self.entries.len()
            invariant
                i <= self.entries@.len(),
                entries@.len() == i,
                forall|j: int|
                    0 <= j < i ==> (#[trigger] entries@[j]).0@ == self.entries@[j].0@
                        && entries@[j].1@ == self.entries@[j].1@,
            decreases self.entries.len() - i,
        {
            entries.push((self.entries[i].0.clone(), self.entries[i].1.clone()));
            i += 1;
        }
        proof {
            assert(pairs(entries@) =~= self@);
        }
        Options { entries }
    }
}

impl Default for Options {
    fn default() -> (r: Self)
        ensures
            r@ == Seq::<(Seq<char>, Seq<char>)>::empty(),
    {
        Options::new()
    }
}

/// A virtual drive: the image file behind it, the image format and the bus
/// it is attached to.
#[derive(Debug)]
pub struct DriveConfig {
    pub id: String,
    pub file: String,
    pub format: String,
    pub interface: String,
}

/// A [`DriveConfig`] as plain texts.
pub struct DriveConfigView {
    pub id: Seq<char>,
    pub file: Seq<char>,
    pub format: Seq<char>,
    pub interface: Seq<char>,
}

impl View for DriveConfig {
    type V = DriveConfigView;

    open spec fn view(&self) -> DriveConfigView {
        DriveConfigView {
            id: self.id@,
            file: self.file@,
            format: self.format@,
            interface: self.interface@,
        }
    }
}

impl Clone for DriveConfig {
    fn clone(&self) -> (r: Self)
        ensures
            r@ == self@,
    {
        DriveConfig {
            id: self.id.clone(),
            file: self.file.clone(),
            format: self.format.clone(),
            interface: self.interface.clone(),
        }
    }
}

/// A network back end and its settings.
#[derive(Debug)]
pub struct NetdevConfig {
    pub id: String,
    pub kind: String,
    pub options: Options,
}

/// A [`NetdevConfig`] as plain texts.
pub struct NetdevConfigView {
    pub id: Seq<char>,
    pub kind: Seq<char>,
    pub options: Seq<(Seq<char>, Seq<char>)>,
}

impl View for NetdevConfig {
    type V = NetdevConfigView;

    open spec fn view(&self) -> NetdevConfigView {
        NetdevConfigView { id: self.id@, kind: self.kind@, options: self.options@ }
    }
}

impl Clone for NetdevConfig {
    fn clone(&self) -> (r: Self)
        ensures
            r@ == self@,
    {
        NetdevConfig {
            id: self.id.clone(),
            kind: self.kind.clone(),
            options: self.options.clone(),
        }
    }
}

/// A display back end, the port it listens on and its settings.
#[derive(Debug)]
pub struct DisplayConfig {
    pub kind: String,
    pub port: Option<u16>,
    pub options: Options,
}

/// A [`DisplayConfig`] as plain values.
pub struct DisplayConfigView {
    pub kind: Seq<char>,
    pub port: Option<u16>,
    pub options: Seq<(Seq<char>, Seq<char>)>,
}

impl View for DisplayConfig {
    type V = DisplayConfigView;

    open spec fn view(&self) -> DisplayConfigView {
        DisplayConfigView { kind: self.kind@, port: self.port, options: self.options@ }
    }
}

impl Clone for DisplayConfig {
    fn clone(&self) -> (r: Self)
        ensures
            r@ == self@,
    {
        DisplayConfig {
            kind: self.kind.clone(),
            port: self.port,
            options: self.options.clone(),
        }
    }
}

/// The program that a command line starts.
pub open spec fn program_name() -> Seq<char> {
    "qemu-system-x86_64"@
}

/// One setting, written `name=value`.
pub open spec fn option_text(option: (Seq<char>, Seq<char>)) -> Seq<char> {
    option.0 + "="@ + option.1
}

/// The argument that describes a drive.
pub open spec fn drive_text(drive: DriveConfigView) -> Seq<char> {
    "file="@ + drive.file + ",format="@ + drive.format + ",if="@ + drive.interface
}

/// `base` followed by each setting of `options`, a comma before each.
pub open spec fn with_options(base: Seq<char>, options: Seq<(Seq<char>, Seq<char>)>) -> Seq<char>
    decreases options.len(),
{
    if options.len() == 0 {
        base
    } else {
        with_options(base, options.drop_last()) + ","@ + option_text(options.last())
    }
}

/// The argument that describes a network back end.
pub open spec fn netdev_text(netdev: NetdevConfigView) -> Seq<char> {
    with_options(netdev.kind + ",id="@ + netdev.id, netdev.options)
}

/// `base` followed by each setting of `options`, with commas between the
/// parts but none in front of the first.
pub open spec fn with_separated_options(
    base: Seq<char>,
    options: Seq<(Seq<char>, Seq<char>)>,
) -> Seq<char>
    decreases options.len(),
{
    if options.len() == 0 {
        base
    } else {
        let front = with_separated_options(base, options.drop_last());
        if front.len() > 0 {
            front + ","@ + option_text(options.last())
        } else {
            option_text(options.last())
        }
    }
}

/// The argument that describes a remote-graphics display.
pub open spec fn spice_text(display: DisplayConfigView) -> Seq<char> {
    with_separated_options(
        match display.port {
            Some(port) => "port="@ + decimal(port as nat),
            None => Seq::empty(),
        },
        display.options,
    )
}

/// The arguments for a machine model.
pub open spec fn machine_args(machine: Option<MachineType>) -> Seq<Seq<char>> {
    match machine {
        Some(m) => seq!["-machine"@, m.name()],
        None => Seq::empty(),
    }
}

/// The arguments for an acceleration back end.
pub open spec fn accel_args(accelerator: Option<Accelerator>) -> Seq<Seq<char>> {
    match accelerator {
        Some(a) => seq!["-accel"@, a.name()],
        None => Seq::empty(),
    }
}

/// The arguments for a processor count.
pub open spec fn cpu_args(cpu_count: Option<u32>) -> Seq<Seq<char>> {
    match cpu_count {
        Some(n) => seq!["-smp"@, decimal(n as nat)],
        None => Seq::empty(),
    }
}

/// The arguments for a memory size.
pub open spec fn memory_args(memory_mb: Option<u32>) -> Seq<Seq<char>> {
    match memory_mb {
        Some(n) => seq!["-m"@, decimal(n as nat)],
        None => Seq::empty(),
    }
}

/// The arguments for the drives, in the order in which they were added.
pub open spec fn drive_args(drives: Seq<DriveConfigView>) -> Seq<Seq<char>>
    decreases drives.len(),
{
    if drives.len() == 0 {
        Seq::empty()
    } else {
        drive_args(drives.drop_last()).push("-drive"@).push(drive_text(drives.last()))
    }
}

/// The arguments for the network back ends, in the order in which they were
/// added.
pub open spec fn netdev_args(netdevs: Seq<NetdevConfigView>) -> Seq<Seq<char>>
    decreases netdevs.len(),
{
    if netdevs.len() == 0 {
        Seq::empty()
    } else {
        netdev_args(netdevs.drop_last()).push("-netdev"@).push(netdev_text(netdevs.last()))
    }
}

/// The arguments for the display; a display of a kind other than `spice`
/// contributes none.
pub open spec fn display_args(display: Option<DisplayConfigView>) -> Seq<Seq<char>> {
    match display {
        Some(d) => if d.kind == "spice"@ {
            seq!["-spice"@, spice_text(d)]
        } else {
            Seq::empty()
        },
        None => Seq::empty(),
    }
}

/// The arguments for the pointer device.
pub open spec fn tablet_args(usb_tablet: bool) -> Seq<Seq<char>> {
    if usb_tablet {
        seq!["-device"@, "usb-tablet"@]
    } else {
        Seq::empty()
    }
}

/// The parts of a hypervisor command.
pub struct QemuCommandView {
    pub machine: Option<MachineType>,
    pub accelerator: Option<Accelerator>,
    pub cpu_count: Option<u32>,
    pub memory_mb: Option<u32>,
    pub drives: Seq<DriveConfigView>,
    pub netdevs: Seq<NetdevConfigView>,
    pub display: Option<DisplayConfigView>,
    pub usb_tablet: bool,
}

/// The arguments that follow the program name.
pub open spec fn command_args(c: QemuCommandView) -> Seq<Seq<char>> {
    machine_args(c.machine) + accel_args(c.accelerator) + cpu_args(c.cpu_count) + memory_args(
        c.memory_mb,
    ) + drive_args(c.drives) + netdev_args(c.netdevs) + display_args(c.display) + tablet_args(
        c.usb_tablet,
    )
}

/// The whole command line: the program name, then machine, accelerator,
/// processors, memory, drives, network back ends, display and pointer device.
pub open spec fn command_line(c: QemuCommandView) -> Seq<Seq<char>> {
    seq![program_name()] + command_args(c)
}

spec fn drive_views(drives: Seq<DriveConfig>) -> Seq<DriveConfigView> {
    Seq::new(drives.len(), |i: int| drives[i]@)
}

spec fn netdev_views(netdevs: Seq<NetdevConfig>) -> Seq<NetdevConfigView> {
    Seq::new(netdevs.len(), |i: int| netdevs[i]@)
}

spec fn display_view(display: Option<DisplayConfig>) -> Option<DisplayConfigView> {
    match display {
        Some(d) => Some(d@),
        None => None,
    }
}

/// QEMU command builder with fluent API
#[derive(Debug)]
pub struct QemuCommand {
    machine: Option<MachineType>,
    accelerator: Option<Accelerator>,
    cpu_count: Option<u32>,
    memory_mb: Option<u32>,
    drives: Vec<DriveConfig>,
    netdevs: Vec<NetdevConfig>,
    display: Option<DisplayConfig>,
    usb_tablet: bool,
}

impl View for QemuCommand {
    type V = QemuCommandView;

    closed spec fn view(&self) -> QemuCommandView {
        QemuCommandView {
            machine: self.machine,
            accelerator: self.accelerator,
            cpu_count: self.cpu_count,
            memory_mb: self.memory_mb,
            drives: drive_views(self.drives@),
            netdevs: netdev_views(self.netdevs@),
            display: display_view(self.display),
            usb_tablet: self.usb_tablet,
        }
    }
}

/// A command with no parts.
pub open spec fn empty_command() -> QemuCommandView {
    QemuCommandView {
        machine: None,
        accelerator: None,
        cpu_count: None,
        memory_mb: None,
        drives: Seq::empty(),
        netdevs: Seq::empty(),
        display: None,
        usb_tablet: false,
    }
}

proof fn lemma_concat_assoc(a: Seq<Seq<char>>, b: Seq<Seq<char>>, c: Seq<Seq<char>>)
    ensures
        (a + b) + c == a + (b + c),
{
    assert((a + b) + c =~= a + (b + c));
}

fn push_text(args: &mut Vec<String>, text: &str)
    ensures
        final(args).deep_view() == old(args).deep_view().push(text@),
{
    args.push(String::from_str(text));
    assert(args.deep_view() =~= old(args).deep_view().push(text@));
}

fn push_string(args: &mut Vec<String>, text: String)
    ensures
        final(args).deep_view() == old(args).deep_view().push(text@),
{
    let ghost t = text@;
    args.push(text);
    assert(args.deep_view() =~= old(args).deep_view().push(t));
}

fn append_option(text: &mut String, name: &str, value: &str)
    ensures
        final(text)@ == old(text)@ + option_text((name@, value@)),
{
    text.append(name);
    text.append("=");
    text.append(value);
    assert(text@ =~= old(text)@ + option_text((name@, value@)));
}

fn drive_argument(drive: &DriveConfig) -> (text: String)
    ensures
        text@ == drive_text(drive@),
{
    let mut text = String::from_str("file=");
    text.append(drive.file.as_str());
    text.append(",format=");
    text.append(drive.format.as_str());
    text.append(",if=");
    text.append(drive.interface.as_str());
    text
}

fn netdev_argument(netdev: &NetdevConfig) -> (text: String)
    ensures
        text@ == netdev_text(netdev@),
{
    let mut text = netdev.kind.clone();
    text.append(",id=");
    text.append(netdev.id.as_str());
    let ghost base = text@;
    let options = &netdev.options.entries;
    let ghost all = netdev.options@;
    let mut i: usize = 0;
    while i < options.len()
        invariant
            i <= options@.len(),
            all == pairs(options@),
            text@ == with_options(base, all.take(i as int)),
        decreases options.len() - i,
    {
        text.append(",");
        append_option(&mut text, options[i].0.as_str(), options[i].1.as_str());
        proof {
            assert(all.take(i + 1).drop_last() =~= all.take(i as int));
            assert(all.take(i + 1).last() == (options@[i as int].0@, options@[i as int].1@));
            assert(text@ =~= with_options(base, all.take(i + 1)));
        }
        i += 1;
    }
    assert(all.take(i as int) =~= all);
    text
}

fn spice_argument(display: &DisplayConfig) -> (text: String)
    ensures
        text@ == spice_text(display@),
{
    let mut text = String::new();
    if let Some(port) = display.port {
        text.append("port=");
        text.append(decimal_string(port as u64).as_str());
        assert(text@ =~= "port="@ + decimal(port as nat));
    }
    let ghost base = text@;
    let options = &display.options.entries;
    let ghost all = display.options@;
    let mut i: usize = 0;
    while i < options.len()
        invariant
            i <= options@.len(),
            all == pairs(options@),
            text@ == with_separated_options(base, all.take(i as int)),
        decreases options.len() - i,
    {
        if !text.as_str().is_empty() {
            text.append(",");
        }
        append_option(&mut text, options[i].0.as_str(), options[i].1.as_str());
        proof {
            assert(all.take(i + 1).drop_last() =~= all.take(i as int));
            assert(all.take(i + 1).last() == (options@[i as int].0@, options@[i as int].1@));
            assert(text@ =~= with_separated_options(base, all.take(i + 1)));
        }
        i += 1;
    }
    assert(all.take(i as int) =~= all);
    text
}

fn push_machine(args: &mut Vec<String>, machine: &Option<MachineType>)
    ensures
        final(args).deep_view() == old(args).deep_view() + machine_args(*machine),
{
    if let Some(m) = machine {
        push_text(args, "-machine");
        push_text(args, m.as_str());
    }
    assert(args.deep_view() =~= old(args).deep_view() + machine_args(*machine));
}

fn push_accel(args: &mut Vec<String>, accelerator: &Option<Accelerator>)
    ensures
        final(args).deep_view() == old(args).deep_view() + accel_args(*accelerator),
{
    if let Some(a) = accelerator {
        push_text(args, "-accel");
        push_text(args, a.as_str());
    }
    assert(args.deep_view() =~= old(args).deep_view() + accel_args(*accelerator));
}

fn push_cpu(args: &mut Vec<String>, cpu_count: Option<u32>)
    ensures
        final(args).deep_view() == old(args).deep_view() + cpu_args(cpu_count),
{
    if let Some(cpu) = cpu_count {
        push_text(args, "-smp");
        push_string(args, decimal_string(cpu as u64));
    }
    assert(args.deep_view() =~= old(args).deep_view() + cpu_args(cpu_count));
}

fn push_memory(args: &mut Vec<String>, memory_mb: Option<u32>)
    ensures
        final(args).deep_view() == old(args).deep_view() + memory_args(memory_mb),
{
    if let Some(mem) = memory_mb {
        push_text(args, "-m");
        push_string(args, decimal_string(mem as u64));
    }
    assert(args.deep_view() =~= old(args).deep_view() + memory_args(memory_mb));
}

fn push_drives(args: &mut Vec<String>, drives: &Vec<DriveConfig>)
    ensures
        final(args).deep_view() == old(args).deep_view() + drive_args(drive_views(drives@)),
{
    let ghost start = args.deep_view();
    let ghost all = drive_views(drives@);
    assert(args.deep_view() =~= start + drive_args(all.take(0)));
    let mut i: usize = 0;
    while i < drives.len()
        invariant
            i <= drives@.len(),
            all == drive_views(drives@),
            args.deep_view() == start + drive_args(all.take(i as int)),
        decreases drives.len() - i,
    {
        push_text(args, "-drive");
        push_string(args, drive_argument(&drives[i]));
        proof {
            assert(all.take(i + 1).drop_last() =~= all.take(i as int));
            assert(all.take(i + 1).last() == drives@[i as int]@);
            assert(args.deep_view() =~= start + drive_args(all.take(i + 1)));
        }
        i += 1;
    }
    assert(all.take(i as int) =~= all);
}

fn push_netdevs(args: &mut Vec<String>, netdevs: &Vec<NetdevConfig>)
    ensures
        final(args).deep_view() == old(args).deep_view() + netdev_args(netdev_views(netdevs@)),
{
    let ghost start = args.deep_view();
    let ghost all = netdev_views(netdevs@);
    assert(args.deep_view() =~= start + netdev_args(all.take(0)));
    let mut i: usize = 0;
    while i < netdevs.len()
        invariant
            i <= netdevs@.len(),
            all == netdev_views(netdevs@),
            args.deep_view() == start + netdev_args(all.take(i as int)),
        decreases netdevs.len() - i,
    {
        push_text(args, "-netdev");
        push_string(args, netdev_argument(&netdevs[i]));
        proof {
            assert(all.take(i + 1).drop_last() =~= all.take(i as int));
            assert(all.take(i + 1).last() == netdevs@[i as int]@);
            assert(args.deep_view() =~= start + netdev_args(all.take(i + 1)));
        }
        i += 1;
    }
    assert(all.take(i as int) =~= all);
}

fn push_display(args: &mut Vec<String>, display: &Option<DisplayConfig>)
    ensures
        final(args).deep_view() == old(args).deep_view() + display_args(display_view(*display)),
{
    if let Some(d) = display {
        if text_eq(d.kind.as_str(), "spice") {
            push_text(args, "-spice");
            push_string(args, spice_argument(d));
        }
    }
    assert(args.deep_view() =~= old(args).deep_view() + display_args(display_view(*display)));
}

fn push_tablet(args: &mut Vec<String>, usb_tablet: bool)
    ensures
        final(args).deep_view() == old(args).deep_view() + tablet_args(usb_tablet),
{
    if usb_tablet {
        push_text(args, "-device");
        push_text(args, "usb-tablet");
    }
    assert(args.deep_view() =~= old(args).deep_view() + tablet_args(usb_tablet));
}

impl QemuCommand {
    /// Create new QEMU command builder
    pub fn new() -> (r: Self)
        ensures
            r@ == empty_command(),
    {
        let r = QemuCommand {
            machine: None,
            accelerator: None,
            cpu_count: None,
            memory_mb: None,
            drives: Vec::new(),
            netdevs: Vec::new(),
            display: None,
            usb_tablet: false,
        };
        assert(drive_views(r.drives@) =~= Seq::<DriveConfigView>::empty());
        assert(netdev_views(r.netdevs@) =~= Seq::<NetdevConfigView>::empty());
        r
    }

    /// Set machine type
    pub fn machine(self, machine: MachineType) -> (r: Self)
        ensures
            r@ == (QemuCommandView { machine: Some(machine), ..self@ }),
    {
        let mut r = self;
        r.machine = Some(machine);
        r
    }

    /// Set accelerator
    pub fn accel(self, accel: Accelerator) -> (r: Self)
        ensures
            r@ == (QemuCommandView { accelerator: Some(accel), ..self@ }),
    {
        let mut r = self;
        r.accelerator = Some(accel);
        r
    }

    /// Set CPU count (must be > 0)
    pub fn cpu(self, count: u32) -> (r: Result<Self, String>)
        ensures
            match r {
                Ok(c) => count > 0 && c@ == (QemuCommandView { cpu_count: Some(count), ..self@ }),
                Err(message) => count == 0 && message@ == "CPU count must be > 0"@,
            },
    {
        if count == 0 {
            return Err(String::from_str("CPU count must be > 0"));
        }
        let mut r = self;
        r.cpu_count = Some(count);
        Ok(r)
    }

    /// Set memory in MB (must be > 0)
    pub fn memory(self, mb: u32) -> (r: Result<Self, String>)
        ensures
            match r {
                Ok(c) => mb > 0 && c@ == (QemuCommandView { memory_mb: Some(mb), ..self@ }),
                Err(message) => mb == 0 && message@ == "Memory must be > 0 MB"@,
            },
    {
        if mb == 0 {
            return Err(String::from_str("Memory must be > 0 MB"));
        }
        let mut r = self;
        r.memory_mb = Some(mb);
        Ok(r)
    }

    /// Add virtual drive
    pub fn drive(self, drive: DriveConfig) -> (r: Self)
        ensures
            r@ == (QemuCommandView { drives: self@.drives.push(drive@), ..self@ }),
    {
        let mut r = self;
        r.drives.push(drive);
        assert(drive_views(r.drives@) =~= drive_views(self.drives@).push(drive@));
        r
    }

    /// Add network device
    pub fn netdev(self, netdev: NetdevConfig) -> (r: Self)
        ensures
            r@ == (QemuCommandView { netdevs: self@.netdevs.push(netdev@), ..self@ }),
    {
        let mut r = self;
        r.netdevs.push(netdev);
        assert(netdev_views(r.netdevs@) =~= netdev_views(self.netdevs@).push(netdev@));
        r
    }

    /// Set display configuration (SPICE)
    pub fn display(self, display: DisplayConfig) -> (r: Self)
        ensures
            r@ == (QemuCommandView { display: Some(display@), ..self@ }),
    {
        let mut r = self;
        r.display = Some(display);
        r
    }

    /// Enable USB tablet for better mouse support
    pub fn usb_tablet(self) -> (r: Self)
        ensures
            r@ == (QemuCommandView { usb_tablet: true, ..self@ }),
    {
        let mut r = self;
        r.usb_tablet = true;
        r
    }

    /// Generate command line arguments as Vec<String>
    pub fn build(&self) -> (args: Vec<String>)
        ensures
            args.deep_view() == command_line(self@),
    {
        let mut args: Vec<String> = Vec::new();
        push_text(&mut args, "qemu-system-x86_64");
        let ghost start = seq![program_name()];
        assert(args.deep_view() =~= start);
        push_machine(&mut args, &self.machine);
        let ghost tail = machine_args(self@.machine);
        assert(args.deep_view() == start + tail);
        push_accel(&mut args, &self.accelerator);
        proof {
            lemma_concat_assoc(start, tail, accel_args(self@.accelerator));
            tail = tail + accel_args(self@.accelerator);
        }
        push_cpu(&mut args, self.cpu_count);
        proof {
            lemma_concat_assoc(start, tail, cpu_args(self@.cpu_count));
            tail = tail + cpu_args(self@.cpu_count);
        }
        push_memory(&mut args, self.memory_mb);
        proof {
            lemma_concat_assoc(start, tail, memory_args(self@.memory_mb));
            tail = tail + memory_args(self@.memory_mb);
        }
        push_drives(&mut args, &self.drives);
        proof {
            lemma_concat_assoc(start, tail, drive_args(self@.drives));
            tail = tail + drive_args(self@.drives);
        }
        push_netdevs(&mut args, &self.netdevs);
        proof {
            lemma_concat_assoc(start, tail, netdev_args(self@.netdevs));
            tail = tail + netdev_args(self@.netdevs);
        }
        push_display(&mut args, &self.display);
        proof {
            lemma_concat_assoc(start, tail, display_args(self@.display));
            tail = tail + display_args(self@.display);
        }
        push_tablet(&mut args, self.usb_tablet);
        proof {
            lemma_concat_assoc(start, tail, tablet_args(self@.usb_tablet));
            tail = tail + tablet_args(self@.usb_tablet);
            assert(tail == command_args(self@));
        }
        args
    }

    /// Generate complete command line string
    pub fn build_string(&self) -> (line: String)
        ensures
            line@ == joined(command_line(self@), " "@),
    {
        join(&self.build(), " ")
    }
}

impl Default for QemuCommand {
    fn default() -> (r: Self)
        ensures
            r@ == empty_command(),
    {
        QemuCommand::new()
    }
}

} // verus!
