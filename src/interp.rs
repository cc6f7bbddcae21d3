//! The interpreter: every command of a program becomes one representational
//! effect, with a nominal duration that quick mode collapses to zero.
use vstd::prelude::*;
use crate::command::Command;
use crate::facts::{
    BenchmarkKind, BenchmarkScore, BiosInfo, CpuInfo, DiskInfo, Fact, FactProvider, GpuInfo,
    MemoryInfo, NetworkInfo, OsInfo,
};
use crate::parser::{Phase, PhaseView, Program};
use crate::text::{chars_of, is_space, same_text, space};

verus! {

/// How a narration line is meant to read.
#[derive(Debug, Clone, Copy, PartialEq, Eq, Structural)]
pub enum Tone {
    Note,
    Success,
    Failure,
    Warning,
}

/// The set of checks a hardware test runs on a component.
#[derive(Debug, Clone, Copy, PartialEq, Eq, Structural)]
pub enum HardwareSuite {
    Memory,
    Cpu,
    Storage,
    Gpu,
    Basic,
}

/// What a command produced.
#[derive(Debug, Clone, PartialEq, Eq)]
pub enum Outcome {
    /// A literal message to show.
    Narration(Tone, String),
    /// A pause and nothing else.
    Pause,
    /// The new progress value.
    Progress(u8),
    /// An operation that was carried out, in representation only.
    Done,
    /// The number of units a download transferred.
    Transfer(u64),
    Cpu(CpuInfo),
    Memory(MemoryInfo),
    Disk(DiskInfo),
    Gpu(GpuInfo),
    Network(NetworkInfo),
    Os(OsInfo),
    Kernel(String),
    Bios(BiosInfo),
    /// The checks that a hardware test ran.
    Suite(HardwareSuite),
    /// The packages installed, in order.
    Packages(Vec<String>),
    /// How many packages a system update brought.
    Updated(u64),
    /// The signing key, reported in verbose mode only.
    Signature(Option<u64>),
    /// The address obtained over DHCP; none in quick mode or for a static configuration.
    Lease(Option<[u8; 4]>),
    /// A benchmark's score table; empty in quick mode.
    Scores(Vec<BenchmarkScore>),
}

/// One command's effect: what it produced and how long it nominally takes, in milliseconds.
#[derive(Debug, Clone, PartialEq, Eq)]
pub struct Effect {
    pub outcome: Outcome,
    pub duration: u64,
}

/// The component that a hardware test names selects its checks.
pub open spec fn suite_of(component: Seq<char>) -> HardwareSuite {
    if component == "memory"@ || component == "ram"@ {
        HardwareSuite::Memory
    } else if component == "cpu"@ {
        HardwareSuite::Cpu
    } else if component == "disk"@ || component == "storage"@ {
        HardwareSuite::Storage
    } else if component == "gpu"@ {
        HardwareSuite::Gpu
    } else {
        HardwareSuite::Basic
    }
}

pub open spec fn suite_size(s: HardwareSuite) -> nat {
    match s {
        HardwareSuite::Basic => 2,
        _ => 3,
    }
}

/// The words of `s[i..]`, where a word that is open begins at `start` (-1: none open).
pub open spec fn words_from(s: Seq<char>, i: int, start: int) -> Seq<Seq<char>>
    decreases s.len() - i,
{
    if i < 0 || i >= s.len() {
        if start >= 0 {
            seq![s.subrange(start, s.len() as int)]
        } else {
            seq![]
        }
    } else if is_space(s[i]) {
        if start >= 0 {
            seq![s.subrange(start, i)] + words_from(s, i + 1, -1)
        } else {
            words_from(s, i + 1, -1)
        }
    } else {
        words_from(s, i + 1, if start >= 0 { start } else { i })
    }
}

/// The whitespace-separated words of `s`, in order.
pub open spec fn words_of(s: Seq<char>) -> Seq<Seq<char>> {
    words_from(s, 0, -1)
}

/// Installing packages takes 800 ms each, up to the largest duration.
pub open spec fn packages_time(n: nat) -> nat {
    if n * 800 > u64::MAX {
        u64::MAX as nat
    } else {
        n * 800
    }
}

/// How long a command takes outside quick mode, in milliseconds.
pub open spec fn nominal(c: Command<Seq<char>>) -> nat {
    match c {
        Command::Message(_) => 0,
        Command::Delay(ms) => ms as nat,
        Command::Progress(_) => 0,
        Command::CreateDir(_) => 160,
        Command::Download { size, .. } => size as nat,
        Command::Extract { .. } => 500,
        Command::InstallDep { .. } => 1500,
        Command::Configure { .. } => 100,
        Command::Cleanup => 240,
        Command::Success(_) => 0,
        Command::Error(_) => 0,
        Command::Warning(_) => 0,
        Command::CopyFile { .. } => 150,
        Command::Symlink { .. } => 100,
        Command::SetPermission { .. } => 50,
        Command::RunScript(_) => 600,
        Command::CheckDep(_) => 200,
        Command::WriteConfig { .. } => 100,
        Command::DetectCpu => 500,
        Command::DetectMemory => 400,
        Command::DetectDisk => 600,
        Command::DetectGpu => 500,
        Command::DetectNetwork => 500,
        Command::DetectOs => 300,
        Command::DetectKernel => 200,
        Command::DetectBios => 400,
        Command::RunTest { duration, .. } => duration as nat,
        Command::LoadKernelModule(_) => 300,
        Command::UnloadKernelModule(_) => 200,
        Command::UpdateInitramfs => 1600,
        Command::UpdateGrub => 900,
        Command::MountPartition { .. } => 300,
        Command::UnmountPartition(_) => 200,
        Command::FormatPartition { .. } => 2020,
        Command::CreatePartition { .. } => 500,
        Command::SetHostname(_) => 100,
        Command::SetTimezone(_) => 100,
        Command::SetLocale(_) => 100,
        Command::CreateUser { .. } => 300,
        Command::SetPassword(_) => 300,
        Command::EnableService(_) => 200,
        Command::DisableService(_) => 200,
        Command::StartService(_) => 200,
        Command::StopService(_) => 200,
        Command::InstallBootloader(_) => 1600,
        Command::GenerateFstab => 600,
        Command::CheckIntegrity(_) => 1515,
        Command::VerifySignature(_) => 400,
        Command::CompileKernel { .. } => 5200,
        Command::InstallPackages(list) => packages_time(words_of(list).len()),
        Command::UpdateSystem => 2500,
        Command::SyncTime => 500,
        Command::TestHardware(c) => 500 * suite_size(suite_of(c)),
        Command::BenchmarkCpu => 1600,
        Command::BenchmarkMemory => 1200,
        Command::BenchmarkDisk => 1600,
        Command::NetworkConfig { config, .. } => if config == "dhcp"@ { 1200 } else { 700 },
        Command::FirewallRule(_) => 100,
        Command::ScanHardware => 1500,
        Command::DetectDrivers => 900,
        Command::InstallDriver(_) => 1500,
    }
}

/// What a command leaves as the last-seen progress value.
pub open spec fn next_progress(c: Command<Seq<char>>, progress: u8) -> u8 {
    match c {
        Command::Progress(p) => p,
        _ => progress,
    }
}

pub open spec fn is_dhcp(config: Seq<char>) -> bool {
    config == "dhcp"@
}

/// Whether `f` is the fact that command `c` needs from the provider in the given
/// mode: a record of the matching kind for a detection, a count for an update, a
/// key in verbose mode, an address for DHCP outside quick mode, a score table for
/// a benchmark outside quick mode, and none otherwise.
pub open spec fn fact_fits(c: Command<Seq<char>>, quick: bool, verbose: bool, f: Option<Fact>) -> bool {
    match c {
        Command::DetectCpu => f matches Some(Fact::Cpu(_)),
        Command::DetectMemory => f matches Some(Fact::Memory(_)),
        Command::DetectDisk => f matches Some(Fact::Disk(_)),
        Command::DetectGpu => f matches Some(Fact::Gpu(_)),
        Command::DetectNetwork => f matches Some(Fact::Network(_)),
        Command::DetectOs => f matches Some(Fact::Os(_)),
        Command::DetectKernel => f matches Some(Fact::Kernel(_)),
        Command::DetectBios => f matches Some(Fact::Bios(_)),
        Command::UpdateSystem => f matches Some(Fact::Count(_)),
        Command::VerifySignature(_) => if verbose {
            f matches Some(Fact::Key(_))
        } else {
            f is None
        },
        Command::NetworkConfig { config, .. } => if !quick && is_dhcp(config) {
            f matches Some(Fact::Address(_))
        } else {
            f is None
        },
        Command::BenchmarkCpu | Command::BenchmarkMemory | Command::BenchmarkDisk => if !quick {
            f matches Some(Fact::Scores(_))
        } else {
            f is None
        },
        _ => f is None,
    }
}

/// Whether a narration outcome has this tone and text.
pub open spec fn narrates(o: Outcome, tone: Tone, text: Seq<char>) -> bool {
    match o {
        Outcome::Narration(t, s) => t == tone && s@ == text,
        _ => false,
    }
}

/// Whether `o` is what command `c` produces in the given mode, given the fact `f`
/// drawn for it: the provider's answer is reported as it is.
pub open spec fn outcome_given(
    c: Command<Seq<char>>,
    quick: bool,
    verbose: bool,
    f: Option<Fact>,
    o: Outcome,
) -> bool {
    match c {
        Command::Message(m) => narrates(o, Tone::Note, m),
        Command::Success(m) => narrates(o, Tone::Success, m),
        Command::Error(m) => narrates(o, Tone::Failure, m),
        Command::Warning(m) => narrates(o, Tone::Warning, m),
        Command::Delay(_) => o == Outcome::Pause,
        Command::Progress(p) => o == Outcome::Progress(p),
        Command::Download { size, .. } => o == Outcome::Transfer(size),
        Command::DetectCpu => f matches Some(Fact::Cpu(x)) && o == Outcome::Cpu(x),
        Command::DetectMemory => f matches Some(Fact::Memory(x)) && o == Outcome::Memory(x),
        Command::DetectDisk => f matches Some(Fact::Disk(x)) && o == Outcome::Disk(x),
        Command::DetectGpu => f matches Some(Fact::Gpu(x)) && o == Outcome::Gpu(x),
        Command::DetectNetwork => f matches Some(Fact::Network(x)) && o == Outcome::Network(x),
        Command::DetectOs => f matches Some(Fact::Os(x)) && o == Outcome::Os(x),
        Command::DetectKernel => f matches Some(Fact::Kernel(x)) && o == Outcome::Kernel(x),
        Command::DetectBios => f matches Some(Fact::Bios(x)) && o == Outcome::Bios(x),
        Command::TestHardware(component) => o == Outcome::Suite(suite_of(component)),
        Command::InstallPackages(list) => match o {
            Outcome::Packages(ws) => ws@.map_values(|w: String| w@) == words_of(list),
            _ => false,
        },
        Command::UpdateSystem => f matches Some(Fact::Count(n)) && o == Outcome::Updated(n),
        Command::VerifySignature(_) => o == Outcome::Signature(
            match f {
                Some(Fact::Key(k)) => Some(k),
                _ => None,
            },
        ),
        Command::NetworkConfig { .. } => o == Outcome::Lease(
            match f {
                Some(Fact::Address(a)) => Some(a),
                _ => None,
            },
        ),
        Command::BenchmarkCpu | Command::BenchmarkMemory | Command::BenchmarkDisk => match f {
            Some(Fact::Scores(t)) => o == Outcome::Scores(t),
            _ => match o {
                Outcome::Scores(t) => t@.len() == 0,
                _ => false,
            },
        },
        _ => o == Outcome::Done,
    }
}

/// Whether `e` is the effect of command `c` in the given mode, given the fact `f`.
pub open spec fn effect_given(
    c: Command<Seq<char>>,
    quick: bool,
    verbose: bool,
    f: Option<Fact>,
    e: Effect,
) -> bool {
    &&& e.duration == (if quick { 0 } else { nominal(c) })
    &&& outcome_given(c, quick, verbose, f, e.outcome)
}

/// Whether `e` is an effect of command `c` in the given mode, for some fact of the
/// kind the command needs.
pub open spec fn effect_fits(c: Command<Seq<char>>, quick: bool, verbose: bool, e: Effect) -> bool {
    &&& e.duration == (if quick { 0 } else { nominal(c) })
    &&& exists|f: Option<Fact>| fact_fits(c, quick, verbose, f) && outcome_given(c, quick, verbose, f, e.outcome)
}

/// Whether `effects` are, one for one, effects of `cmds` in the given mode.
pub open spec fn effects_fit(
    cmds: Seq<Command<Seq<char>>>,
    quick: bool,
    verbose: bool,
    effects: Seq<Effect>,
) -> bool {
    &&& effects.len() == cmds.len()
    &&& forall|i: int| 0 <= i < cmds.len() ==> effect_fits(cmds[i], quick, verbose, #[trigger] effects[i])
}

/// The last progress value that `cmds` set, or `progress` if none does.
pub open spec fn last_progress(cmds: Seq<Command<Seq<char>>>, progress: u8) -> u8
    decreases cmds.len(),
{
    if cmds.len() == 0 {
        progress
    } else {
        next_progress(cmds.last(), last_progress(cmds.drop_last(), progress))
    }
}

/// The commands of a program, phase after phase.
pub open spec fn program_commands(phases: Seq<PhaseView>) -> Seq<Command<Seq<char>>>
    decreases phases.len(),
{
    if phases.len() == 0 {
        seq![]
    } else {
        program_commands(phases.drop_last()) + phases.last().commands
    }
}

/// The sum of the durations of `effects`.
pub open spec fn total_duration(effects: Seq<Effect>) -> nat
    decreases effects.len(),
{
    if effects.len() == 0 {
        0
    } else {
        total_duration(effects.drop_last()) + effects.last().duration as nat
    }
}

/// The suite that a hardware test of `component` runs.
pub fn hardware_suite(component: &str) -> (r: HardwareSuite)
    ensures
        r == suite_of(component@),
{
    if same_text(component, "memory") || same_text(component, "ram") {
        HardwareSuite::Memory
    } else if same_text(component, "cpu") {
        HardwareSuite::Cpu
    } else if same_text(component, "disk") || same_text(component, "storage") {
        HardwareSuite::Storage
    } else if same_text(component, "gpu") {
        HardwareSuite::Gpu
    } else {
        HardwareSuite::Basic
    }
}

/// How many checks a suite runs.
pub fn suite_len(s: HardwareSuite) -> (r: u64)
    ensures
        r == suite_size(s),
{
    match s {
        HardwareSuite::Basic => 2,
        _ => 3,
    }
}

/// The whitespace-separated words of `s`.
pub fn words(s: &str) -> (r: Vec<String>)
    ensures
        r@.map_values(|w: String| w@) == words_of(s@),
{
    let t = chars_of(s);
    let n = t.len();
    let mut r: Vec<String> = Vec::new();
    let mut start: usize = 0;
    let mut open = false;
    let mut i: usize = 0;
    while i < n
        invariant
            t@ == s@,
            n == t@.len(),
            i <= n,
            open ==> start < i,
            r@.map_values(|w: String| w@) + words_from(t@, i as int, if open { start as int } else { -1 })
                == words_of(s@),
        decreases n - i,
    {
        let ghost before = r@.map_values(|w: String| w@);
        if space(t[i]) {
            if open {
                r.push(crate::text::text_of(s, start, i));
                assert(r@.map_values(|w: String| w@) =~= before.push(t@.subrange(start as int, i as int)));
                assert(before + words_from(t@, i as int, start as int) =~= before.push(
                    t@.subrange(start as int, i as int),
                ) + words_from(t@, i + 1, -1));
            }
            open = false;
        } else if !open {
            open = true;
            start = i;
        }
        i = i + 1;
    }
    let ghost before = r@.map_values(|w: String| w@);
    if open {
        r.push(crate::text::text_of(s, start, n));
        assert(r@.map_values(|w: String| w@) =~= before + words_from(t@, i as int, start as int));
    } else {
        assert(before + words_from(t@, i as int, -1) =~= before);
    }
    r
}

/// How many whitespace-separated words `s` holds.
pub fn count_words(s: &str) -> (r: usize)
    ensures
        r == words_of(s@).len(),
{
    let w = words(s);
    w.len()
}

/// How long `c` takes outside quick mode, in milliseconds.
pub fn nominal_duration(c: &Command<String>) -> (r: u64)
    ensures
        r == nominal(c@),
{
    match c {
        Command::Message(_) => 0,
        Command::Delay(ms) => *ms,
        Command::Progress(_) => 0,
        Command::CreateDir(_) => 160,
        Command::Download { size, .. } => *size,
        Command::Extract { .. } => 500,
        Command::InstallDep { .. } => 1500,
        Command::Configure { .. } => 100,
        Command::Cleanup => 240,
        Command::Success(_) => 0,
        Command::Error(_) => 0,
        Command::Warning(_) => 0,
        Command::CopyFile { .. } => 150,
        Command::Symlink { .. } => 100,
        Command::SetPermission { .. } => 50,
        Command::RunScript(_) => 600,
        Command::CheckDep(_) => 200,
        Command::WriteConfig { .. } => 100,
        Command::DetectCpu => 500,
        Command::DetectMemory => 400,
        Command::DetectDisk => 600,
        Command::DetectGpu => 500,
        Command::DetectNetwork => 500,
        Command::DetectOs => 300,
        Command::DetectKernel => 200,
        Command::DetectBios => 400,
        Command::RunTest { duration, .. } => *duration,
        Command::LoadKernelModule(_) => 300,
        Command::UnloadKernelModule(_) => 200,
        Command::UpdateInitramfs => 1600,
        Command::UpdateGrub => 900,
        Command::MountPartition { .. } => 300,
        Command::UnmountPartition(_) => 200,
        Command::FormatPartition { .. } => 2020,
        Command::CreatePartition { .. } => 500,
        Command::SetHostname(_) => 100,
        Command::SetTimezone(_) => 100,
        Command::SetLocale(_) => 100,
        Command::CreateUser { .. } => 300,
        Command::SetPassword(_) => 300,
        Command::EnableService(_) => 200,
        Command::DisableService(_) => 200,
        Command::StartService(_) => 200,
        Command::StopService(_) => 200,
        Command::InstallBootloader(_) => 1600,
        Command::GenerateFstab => 600,
        Command::CheckIntegrity(_) => 1515,
        Command::VerifySignature(_) => 400,
        Command::CompileKernel { .. } => 5200,
        Command::InstallPackages(list) => {
                let n = count_words(list.as_str()) as u64;
                if n > u64::MAX / 800 {
                    u64::MAX
                } else {
                    800 * n
                }
            },
        Command::UpdateSystem => 2500,
        Command::SyncTime => 500,
        Command::TestHardware(c) => 500 * suite_len(hardware_suite(c.as_str())),
        Command::BenchmarkCpu => 1600,
        Command::BenchmarkMemory => 1200,
        Command::BenchmarkDisk => 1600,
        Command::NetworkConfig { config, .. } => {
                if same_text(config.as_str(), "dhcp") {
                    1200
                } else {
                    700
                }
            },
        Command::FirewallRule(_) => 100,
        Command::ScanHardware => 1500,
        Command::DetectDrivers => 900,
        Command::InstallDriver(_) => 1500,
    }
}

/// Runs commands with a mode and a last-seen progress value.
pub struct Simulator {
    pub quick_mode: bool,
    pub verbose: bool,
    pub progress: u8,
}

impl Simulator {
    pub fn new(quick_mode: bool, verbose: bool) -> (r: Simulator)
        ensures
            r.quick_mode == quick_mode,
            r.verbose == verbose,
            r.progress == 0,
    {
        Simulator { quick_mode, verbose, progress: 0 }
    }

    /// Draws from the provider the fact that `cmd` needs in the given mode, if any.
    pub fn draw_fact<F: FactProvider>(
        cmd: &Command<String>,
        quick: bool,
        verbose: bool,
        facts: &mut F,
    ) -> (f: Option<Fact>)
        ensures
            fact_fits(cmd@, quick, verbose, f),
    {
        match cmd {
            Command::DetectCpu => Some(Fact::Cpu(facts.cpu())),
            Command::DetectMemory => Some(Fact::Memory(facts.memory())),
            Command::DetectDisk => Some(Fact::Disk(facts.disk())),
            Command::DetectGpu => Some(Fact::Gpu(facts.gpu())),
            Command::DetectNetwork => Some(Fact::Network(facts.network())),
            Command::DetectOs => Some(Fact::Os(facts.os())),
            Command::DetectKernel => Some(Fact::Kernel(facts.kernel())),
            Command::DetectBios => Some(Fact::Bios(facts.bios())),
            Command::UpdateSystem => Some(Fact::Count(facts.updated_packages())),
            Command::VerifySignature(_) => {
                if verbose {
                    Some(Fact::Key(facts.key_id()))
                } else {
                    None
                }
            },
            Command::NetworkConfig { config, .. } => {
                if !quick && same_text(config.as_str(), "dhcp") {
                    Some(Fact::Address(facts.ip_address()))
                } else {
                    None
                }
            },
            Command::BenchmarkCpu => Self::scores(quick, BenchmarkKind::Cpu, facts),
            Command::BenchmarkMemory => Self::scores(quick, BenchmarkKind::Memory, facts),
            Command::BenchmarkDisk => Self::scores(quick, BenchmarkKind::Disk, facts),
            _ => None,
        }
    }

    fn scores<F: FactProvider>(quick: bool, kind: BenchmarkKind, facts: &mut F) -> (f: Option<Fact>)
        ensures
            if quick {
                f is None
            } else {
                f matches Some(Fact::Scores(_))
            },
    {
        if quick {
            None
        } else {
            Some(Fact::Scores(facts.benchmark(kind)))
        }
    }

    /// The effect of one command, given the fact drawn for it. Only a progress
    /// command changes the simulator.
    pub fn effect_of(&mut self, cmd: &Command<String>, fact: Option<Fact>) -> (e: Effect)
        requires
            fact_fits(cmd@, old(self).quick_mode, old(self).verbose, fact),
        ensures
            final(self).quick_mode == old(self).quick_mode,
            final(self).verbose == old(self).verbose,
            final(self).progress == next_progress(cmd@, old(self).progress),
            effect_given(cmd@, old(self).quick_mode, old(self).verbose, fact, e),
    {
        let outcome = match cmd {
            Command::Message(m) => Outcome::Narration(Tone::Note, m.clone()),
            Command::Delay(_) => Outcome::Pause,
            Command::Progress(p) => {
                self.progress = *p;
                Outcome::Progress(*p)
            },
            Command::CreateDir(_) => Outcome::Done,
            Command::Download { size, .. } => Outcome::Transfer(*size),
            Command::Extract { .. } => Outcome::Done,
            Command::InstallDep { .. } => Outcome::Done,
            Command::Configure { .. } => Outcome::Done,
            Command::Cleanup => Outcome::Done,
            Command::Success(m) => Outcome::Narration(Tone::Success, m.clone()),
            Command::Error(m) => Outcome::Narration(Tone::Failure, m.clone()),
            Command::Warning(m) => Outcome::Narration(Tone::Warning, m.clone()),
            Command::CopyFile { .. } => Outcome::Done,
            Command::Symlink { .. } => Outcome::Done,
            Command::SetPermission { .. } => Outcome::Done,
            Command::RunScript(_) => Outcome::Done,
            Command::CheckDep(_) => Outcome::Done,
            Command::WriteConfig { .. } => Outcome::Done,
            Command::DetectCpu => match fact {
                Some(Fact::Cpu(x)) => Outcome::Cpu(x),
                _ => Outcome::Done,
            },
            Command::DetectMemory => match fact {
                Some(Fact::Memory(x)) => Outcome::Memory(x),
                _ => Outcome::Done,
            },
            Command::DetectDisk => match fact {
                Some(Fact::Disk(x)) => Outcome::Disk(x),
                _ => Outcome::Done,
            },
            Command::DetectGpu => match fact {
                Some(Fact::Gpu(x)) => Outcome::Gpu(x),
                _ => Outcome::Done,
            },
            Command::DetectNetwork => match fact {
                Some(Fact::Network(x)) => Outcome::Network(x),
                _ => Outcome::Done,
            },
            Command::DetectOs => match fact {
                Some(Fact::Os(x)) => Outcome::Os(x),
                _ => Outcome::Done,
            },
            Command::DetectKernel => match fact {
                Some(Fact::Kernel(x)) => Outcome::Kernel(x),
                _ => Outcome::Done,
            },
            Command::DetectBios => match fact {
                Some(Fact::Bios(x)) => Outcome::Bios(x),
                _ => Outcome::Done,
            },
            Command::RunTest { .. } => Outcome::Done,
            Command::LoadKernelModule(_) => Outcome::Done,
            Command::UnloadKernelModule(_) => Outcome::Done,
            Command::UpdateInitramfs => Outcome::Done,
            Command::UpdateGrub => Outcome::Done,
            Command::MountPartition { .. } => Outcome::Done,
            Command::UnmountPartition(_) => Outcome::Done,
            Command::FormatPartition { .. } => Outcome::Done,
            Command::CreatePartition { .. } => Outcome::Done,
            Command::SetHostname(_) => Outcome::Done,
            Command::SetTimezone(_) => Outcome::Done,
            Command::SetLocale(_) => Outcome::Done,
            Command::CreateUser { .. } => Outcome::Done,
            Command::SetPassword(_) => Outcome::Done,
            Command::EnableService(_) => Outcome::Done,
            Command::DisableService(_) => Outcome::Done,
            Command::StartService(_) => Outcome::Done,
            Command::StopService(_) => Outcome::Done,
            Command::InstallBootloader(_) => Outcome::Done,
            Command::GenerateFstab => Outcome::Done,
            Command::CheckIntegrity(_) => Outcome::Done,
            Command::VerifySignature(_) => match fact {
                Some(Fact::Key(k)) => Outcome::Signature(Some(k)),
                _ => Outcome::Signature(None),
            },
            Command::CompileKernel { .. } => Outcome::Done,
            Command::InstallPackages(list) => Outcome::Packages(words(list.as_str())),
            Command::UpdateSystem => match fact {
                Some(Fact::Count(n)) => Outcome::Updated(n),
                _ => Outcome::Done,
            },
            Command::SyncTime => Outcome::Done,
            Command::TestHardware(component) => Outcome::Suite(hardware_suite(component.as_str())),
            Command::BenchmarkCpu => match fact {
                Some(Fact::Scores(t)) => Outcome::Scores(t),
                _ => Outcome::Scores(Vec::new()),
            },
            Command::BenchmarkMemory => match fact {
                Some(Fact::Scores(t)) => Outcome::Scores(t),
                _ => Outcome::Scores(Vec::new()),
            },
            Command::BenchmarkDisk => match fact {
                Some(Fact::Scores(t)) => Outcome::Scores(t),
                _ => Outcome::Scores(Vec::new()),
            },
            Command::NetworkConfig { .. } => match fact {
                Some(Fact::Address(a)) => Outcome::Lease(Some(a)),
                _ => Outcome::Lease(None),
            },
            Command::FirewallRule(_) => Outcome::Done,
            Command::ScanHardware => Outcome::Done,
            Command::DetectDrivers => Outcome::Done,
            Command::InstallDriver(_) => Outcome::Done,
        };
        let duration = if self.quick_mode {
            0
        } else {
            nominal_duration(cmd)
        };
        Effect { outcome, duration }
    }

    /// The effect of one command, with the fact it needs drawn from `facts`. Only
    /// a progress command changes the simulator.
    pub fn execute_command<F: FactProvider>(&mut self, cmd: &Command<String>, facts: &mut F) -> (e: Effect)
        ensures
            final(self).quick_mode == old(self).quick_mode,
            final(self).verbose == old(self).verbose,
            final(self).progress == next_progress(cmd@, old(self).progress),
            effect_fits(cmd@, old(self).quick_mode, old(self).verbose, e),
    {
        let fact = Self::draw_fact(cmd, self.quick_mode, self.verbose, facts);
        let ghost f = fact;
        let e = self.effect_of(cmd, fact);
        assert(fact_fits(cmd@, old(self).quick_mode, old(self).verbose, f) && outcome_given(
            cmd@,
            old(self).quick_mode,
            old(self).verbose,
            f,
            e.outcome,
        ));
        e
    }

    /// The effects of a phase's commands, in order.
    pub fn run_phase<F: FactProvider>(&mut self, phase: &Phase, facts: &mut F) -> (r: Vec<Effect>)
        ensures
            final(self).quick_mode == old(self).quick_mode,
            final(self).verbose == old(self).verbose,
            final(self).progress == last_progress(phase@.commands, old(self).progress),
            effects_fit(phase@.commands, old(self).quick_mode, old(self).verbose, r@),
    {
        let mut r: Vec<Effect> = Vec::new();
        let ghost cmds = phase@.commands;
        let mut i: usize = 0;
        while i < phase.commands.len()
            invariant
                cmds == phase@.commands,
                i <= cmds.len(),
                self.quick_mode == old(self).quick_mode,
                self.verbose == old(self).verbose,
                self.progress == last_progress(cmds.subrange(0, i as int), old(self).progress),
                effects_fit(cmds.subrange(0, i as int), old(self).quick_mode, old(self).verbose, r@),
            decreases cmds.len() - i,
        {
            let e = self.execute_command(&phase.commands[i], facts);
            r.push(e);
            assert(cmds.subrange(0, i + 1).drop_last() =~= cmds.subrange(0, i as int));
            i = i + 1;
        }
        assert(cmds.subrange(0, i as int) =~= cmds);
        r
    }

    /// The effects of a program's commands, phase after phase.
    pub fn run<F: FactProvider>(&mut self, program: &Program, facts: &mut F) -> (r: Vec<Effect>)
        ensures
            final(self).quick_mode == old(self).quick_mode,
            final(self).verbose == old(self).verbose,
            final(self).progress == last_progress(program_commands(program@.phases), old(self).progress),
            effects_fit(program_commands(program@.phases), old(self).quick_mode, old(self).verbose, r@),
    {
        let mut r: Vec<Effect> = Vec::new();
        let ghost phases = program@.phases;
        let mut i: usize = 0;
        while i < program.phases.len()
            invariant
                phases == program@.phases,
                i <= phases.len(),
                self.quick_mode == old(self).quick_mode,
                self.verbose == old(self).verbose,
                self.progress == last_progress(program_commands(phases.subrange(0, i as int)), old(self).progress),
                effects_fit(program_commands(phases.subrange(0, i as int)), old(self).quick_mode, old(self).verbose, r@),
            decreases phases.len() - i,
        {
            let ghost before = r@;
            let ghost done = program_commands(phases.subrange(0, i as int));
            let mut es = self.run_phase(&program.phases[i], facts);
            let ghost added = es@;
            r.append(&mut es);
            assert(phases.subrange(0, i + 1).drop_last() =~= phases.subrange(0, i as int));
            proof {
                lemma_last_progress_append(done, phases[i as int].commands, old(self).progress);
            }
            assert(r@ =~= before + added);
            i = i + 1;
        }
        assert(phases.subrange(0, i as int) =~= phases);
        r
    }
}

pub proof fn lemma_last_progress_append(a: Seq<Command<Seq<char>>>, b: Seq<Command<Seq<char>>>, p: u8)
    ensures
        last_progress(a + b, p) == last_progress(b, last_progress(a, p)),
    decreases b.len(),
{
    if b.len() == 0 {
        assert(a + b =~= a);
    } else {
        assert((a + b).drop_last() =~= a + b.drop_last());
        lemma_last_progress_append(a, b.drop_last(), p);
    }
}

/// In quick mode a run takes no time: every effect has duration zero, so the
/// total is zero, whatever the program.
pub proof fn quick_run_takes_no_time(
    cmds: Seq<Command<Seq<char>>>,
    verbose: bool,
    effects: Seq<Effect>,
)
    requires
        effects_fit(cmds, true, verbose, effects),
    ensures
        total_duration(effects) == 0,
    decreases effects.len(),
{
    if effects.len() > 0 {
        let n = effects.len() - 1;
        assert(effect_fits(cmds[n as int], true, verbose, effects[n as int]));
        assert forall|i: int| 0 <= i < n implies effect_fits(cmds.drop_last()[i], true, verbose, #[trigger] effects.drop_last()[i]) by {
            assert(effect_fits(cmds[i], true, verbose, effects[i]));
        }
        quick_run_takes_no_time(cmds.drop_last(), verbose, effects.drop_last());
    }
}

/// How many of the 30 cells of a progress bar are filled at `pct` percent; values
/// above 100 fill the whole bar.
pub fn filled_cells(pct: u8) -> (r: u64)
    ensures
        r == if pct >= 100 { 30 } else { 30 * pct / 100 },
{
    if pct >= 100 {
        30
    } else {
        30 * (pct as u64) / 100
    }
}

} // verus!
