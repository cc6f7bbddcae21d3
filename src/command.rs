//! The command vocabulary and the rule that reads one command line.
use vstd::prelude::*;
use crate::text::{
    args_of, digit_end_at, equals_at, find_char_at, find_seq_at, key_pattern,
    lemma_find_char, lemma_find_seq, parse_unsigned, parse_unsigned_at, quoted, quoted_at, text_of,
    trim, trim_bounds, word_bounds, word_of, digit_run_end, find_char, find_seq,
};

verus! {

/// One instruction of a script. `S` is the type of its texts: `String` in
/// programs, `Seq<char>` in their specifications.
#[derive(Debug, Clone, PartialEq, Eq)]
pub enum Command<S> {
    Message(S),
    Delay(u64),
    Progress(u8),
    CreateDir(S),
    Download { url: S, size: u64 },
    Extract { from: S, to: S },
    InstallDep { name: S, version: S },
    Configure { key: S, value: S },
    Cleanup,
    Success(S),
    Error(S),
    Warning(S),
    CopyFile { from: S, to: S },
    Symlink { from: S, to: S },
    SetPermission { path: S, mode: S },
    RunScript(S),
    CheckDep(S),
    WriteConfig { path: S, content: S },
    DetectCpu,
    DetectMemory,
    DetectDisk,
    DetectGpu,
    DetectNetwork,
    DetectOs,
    DetectKernel,
    DetectBios,
    RunTest { name: S, duration: u64 },
    LoadKernelModule(S),
    UnloadKernelModule(S),
    UpdateInitramfs,
    UpdateGrub,
    MountPartition { device: S, mount_point: S },
    UnmountPartition(S),
    FormatPartition { device: S, fs_type: S },
    CreatePartition { device: S, size: S },
    SetHostname(S),
    SetTimezone(S),
    SetLocale(S),
    CreateUser { username: S, groups: S },
    SetPassword(S),
    EnableService(S),
    DisableService(S),
    StartService(S),
    StopService(S),
    InstallBootloader(S),
    GenerateFstab,
    CheckIntegrity(S),
    VerifySignature(S),
    CompileKernel { version: S },
    InstallPackages(S),
    UpdateSystem,
    SyncTime,
    TestHardware(S),
    BenchmarkCpu,
    BenchmarkMemory,
    BenchmarkDisk,
    NetworkConfig { interface: S, config: S },
    FirewallRule(S),
    ScanHardware,
    DetectDrivers,
    InstallDriver(S),
}

impl View for Command<String> {
    type V = Command<Seq<char>>;

    open spec fn view(&self) -> Command<Seq<char>> {
        match self {
            Command::Message(s) => Command::Message(s@),
            Command::Delay(ms) => Command::Delay(*ms),
            Command::Progress(p) => Command::Progress(*p),
            Command::CreateDir(s) => Command::CreateDir(s@),
            Command::Download { url, size } => Command::Download { url: url@, size: *size },
            Command::Extract { from, to } => Command::Extract { from: from@, to: to@ },
            Command::InstallDep { name, version } => Command::InstallDep { name: name@, version: version@ },
            Command::Configure { key, value } => Command::Configure { key: key@, value: value@ },
            Command::Cleanup => Command::Cleanup,
            Command::Success(s) => Command::Success(s@),
            Command::Error(s) => Command::Error(s@),
            Command::Warning(s) => Command::Warning(s@),
            Command::CopyFile { from, to } => Command::CopyFile { from: from@, to: to@ },
            Command::Symlink { from, to } => Command::Symlink { from: from@, to: to@ },
            Command::SetPermission { path, mode } => Command::SetPermission { path: path@, mode: mode@ },
            Command::RunScript(s) => Command::RunScript(s@),
            Command::CheckDep(s) => Command::CheckDep(s@),
            Command::WriteConfig { path, content } => Command::WriteConfig { path: path@, content: content@ },
            Command::DetectCpu => Command::DetectCpu,
            Command::DetectMemory => Command::DetectMemory,
            Command::DetectDisk => Command::DetectDisk,
            Command::DetectGpu => Command::DetectGpu,
            Command::DetectNetwork => Command::DetectNetwork,
            Command::DetectOs => Command::DetectOs,
            Command::DetectKernel => Command::DetectKernel,
            Command::DetectBios => Command::DetectBios,
            Command::RunTest { name, duration } => Command::RunTest { name: name@, duration: *duration },
            Command::LoadKernelModule(s) => Command::LoadKernelModule(s@),
            Command::UnloadKernelModule(s) => Command::UnloadKernelModule(s@),
            Command::UpdateInitramfs => Command::UpdateInitramfs,
            Command::UpdateGrub => Command::UpdateGrub,
            Command::MountPartition { device, mount_point } => Command::MountPartition { device: device@, mount_point: mount_point@ },
            Command::UnmountPartition(s) => Command::UnmountPartition(s@),
            Command::FormatPartition { device, fs_type } => Command::FormatPartition { device: device@, fs_type: fs_type@ },
            Command::CreatePartition { device, size } => Command::CreatePartition { device: device@, size: size@ },
            Command::SetHostname(s) => Command::SetHostname(s@),
            Command::SetTimezone(s) => Command::SetTimezone(s@),
            Command::SetLocale(s) => Command::SetLocale(s@),
            Command::CreateUser { username, groups } => Command::CreateUser { username: username@, groups: groups@ },
            Command::SetPassword(s) => Command::SetPassword(s@),
            Command::EnableService(s) => Command::EnableService(s@),
            Command::DisableService(s) => Command::DisableService(s@),
            Command::StartService(s) => Command::StartService(s@),
            Command::StopService(s) => Command::StopService(s@),
            Command::InstallBootloader(s) => Command::InstallBootloader(s@),
            Command::GenerateFstab => Command::GenerateFstab,
            Command::CheckIntegrity(s) => Command::CheckIntegrity(s@),
            Command::VerifySignature(s) => Command::VerifySignature(s@),
            Command::CompileKernel { version } => Command::CompileKernel { version: version@ },
            Command::InstallPackages(s) => Command::InstallPackages(s@),
            Command::UpdateSystem => Command::UpdateSystem,
            Command::SyncTime => Command::SyncTime,
            Command::TestHardware(s) => Command::TestHardware(s@),
            Command::BenchmarkCpu => Command::BenchmarkCpu,
            Command::BenchmarkMemory => Command::BenchmarkMemory,
            Command::BenchmarkDisk => Command::BenchmarkDisk,
            Command::NetworkConfig { interface, config } => Command::NetworkConfig { interface: interface@, config: config@ },
            Command::FirewallRule(s) => Command::FirewallRule(s@),
            Command::ScanHardware => Command::ScanHardware,
            Command::DetectDrivers => Command::DetectDrivers,
            Command::InstallDriver(s) => Command::InstallDriver(s@),
        }
    }
}

/// The text of `key="..."` in `args`: what stands after the first `key="` up to the next
/// double quote.
pub open spec fn string_param(args: Seq<char>, key: Seq<char>) -> Option<Seq<char>> {
    let p = key + seq!['=', '"'];
    let k = find_seq(args, p, 0);
    let rest = args.subrange(k + p.len(), args.len() as int);
    let e = find_char(rest, '"', 0);
    if k < 0 || e < 0 {
        None
    } else {
        Some(rest.subrange(0, e))
    }
}

/// The number of `key=123` in `args`: the digits that follow the first `key=`.
pub open spec fn number_param(args: Seq<char>, key: Seq<char>) -> Option<nat> {
    let p = key + seq!['='];
    let k = find_seq(args, p, 0);
    let rest = args.subrange(k + p.len(), args.len() as int);
    if k < 0 {
        None
    } else {
        parse_unsigned(rest.subrange(0, digit_run_end(rest, 0)), u64::MAX as nat)
    }
}

/// A parameter's text, or its default when it is absent.
pub open spec fn text_or(o: Option<Seq<char>>, default: Seq<char>) -> Seq<char> {
    match o {
        Some(v) => v,
        None => default,
    }
}

/// A parameter's number, or its default when it is absent or malformed.
pub open spec fn number_or(o: Option<nat>, default: u64) -> u64 {
    match o {
        Some(v) => v as u64,
        None => default,
    }
}

/// The command that a trimmed command line denotes. The first word picks the
/// vocabulary entry; a command that needs a quoted value and has none, or an
/// unknown word, gives `None`.
pub open spec fn command_of(line: Seq<char>) -> Option<Command<Seq<char>>> {
    let w = word_of(line);
    let a = args_of(line);
    let q = quoted(line);
    // the quoted value, for the entries that require one
    let v = q->0;
    if w == "message"@ {
        if q is Some { Some(Command::Message(v)) } else { None }
    } else if w == "delay"@ {
        Some(Command::Delay(number_or(parse_unsigned(trim(a), u64::MAX as nat), 100)))
    } else if w == "progress"@ {
        Some(Command::Progress(match parse_unsigned(trim(a), 255) { Some(n) => n as u8, None => 0 }))
    } else if w == "create_dir"@ {
        if q is Some { Some(Command::CreateDir(v)) } else { None }
    } else if w == "download"@ {
        if q is Some { Some(Command::Download { url: v, size: number_or(number_param(a, "size"@), 1024) }) } else { None }
    } else if w == "extract"@ {
        if q is Some { Some(Command::Extract { from: v, to: text_or(string_param(a, "to"@), ""@) }) } else { None }
    } else if w == "install_dep"@ {
        if q is Some { Some(Command::InstallDep { name: v, version: text_or(string_param(a, "version"@), "latest"@) }) } else { None }
    } else if w == "configure"@ {
        Some(Command::Configure { key: text_or(string_param(a, "key"@), ""@), value: text_or(string_param(a, "value"@), ""@) })
    } else if w == "cleanup"@ {
        Some(Command::Cleanup)
    } else if w == "success"@ {
        if q is Some { Some(Command::Success(v)) } else { None }
    } else if w == "error"@ {
        if q is Some { Some(Command::Error(v)) } else { None }
    } else if w == "warning"@ {
        if q is Some { Some(Command::Warning(v)) } else { None }
    } else if w == "copy_file"@ {
        if q is Some { Some(Command::CopyFile { from: v, to: text_or(string_param(a, "to"@), ""@) }) } else { None }
    } else if w == "symlink"@ {
        if q is Some { Some(Command::Symlink { from: v, to: text_or(string_param(a, "to"@), ""@) }) } else { None }
    } else if w == "set_permission"@ {
        if q is Some { Some(Command::SetPermission { path: v, mode: text_or(string_param(a, "mode"@), "755"@) }) } else { None }
    } else if w == "run_script"@ {
        if q is Some { Some(Command::RunScript(v)) } else { None }
    } else if w == "check_dep"@ {
        if q is Some { Some(Command::CheckDep(v)) } else { None }
    } else if w == "write_config"@ {
        if q is Some { Some(Command::WriteConfig { path: v, content: text_or(string_param(a, "content"@), ""@) }) } else { None }
    } else if w == "detect_cpu"@ {
        Some(Command::DetectCpu)
    } else if w == "detect_memory"@ {
        Some(Command::DetectMemory)
    } else if w == "detect_disk"@ {
        Some(Command::DetectDisk)
    } else if w == "detect_gpu"@ {
        Some(Command::DetectGpu)
    } else if w == "detect_network"@ {
        Some(Command::DetectNetwork)
    } else if w == "detect_os"@ {
        Some(Command::DetectOs)
    } else if w == "detect_kernel"@ {
        Some(Command::DetectKernel)
    } else if w == "detect_bios"@ {
        Some(Command::DetectBios)
    } else if w == "run_test"@ {
        if q is Some { Some(Command::RunTest { name: v, duration: number_or(number_param(a, "duration"@), 1000) }) } else { None }
    } else if w == "load_module"@ {
        if q is Some { Some(Command::LoadKernelModule(v)) } else { None }
    } else if w == "unload_module"@ {
        if q is Some { Some(Command::UnloadKernelModule(v)) } else { None }
    } else if w == "update_initramfs"@ {
        Some(Command::UpdateInitramfs)
    } else if w == "update_grub"@ {
        Some(Command::UpdateGrub)
    } else if w == "mount"@ {
        if q is Some { Some(Command::MountPartition { device: v, mount_point: text_or(string_param(a, "to"@), ""@) }) } else { None }
    } else if w == "unmount"@ {
        if q is Some { Some(Command::UnmountPartition(v)) } else { None }
    } else if w == "format"@ {
        if q is Some { Some(Command::FormatPartition { device: v, fs_type: text_or(string_param(a, "fs"@), "ext4"@) }) } else { None }
    } else if w == "create_partition"@ {
        if q is Some { Some(Command::CreatePartition { device: v, size: text_or(string_param(a, "size"@), "100%"@) }) } else { None }
    } else if w == "set_hostname"@ {
        if q is Some { Some(Command::SetHostname(v)) } else { None }
    } else if w == "set_timezone"@ {
        if q is Some { Some(Command::SetTimezone(v)) } else { None }
    } else if w == "set_locale"@ {
        if q is Some { Some(Command::SetLocale(v)) } else { None }
    } else if w == "create_user"@ {
        if q is Some { Some(Command::CreateUser { username: v, groups: text_or(string_param(a, "groups"@), "users"@) }) } else { None }
    } else if w == "set_password"@ {
        if q is Some { Some(Command::SetPassword(v)) } else { None }
    } else if w == "enable_service"@ {
        if q is Some { Some(Command::EnableService(v)) } else { None }
    } else if w == "disable_service"@ {
        if q is Some { Some(Command::DisableService(v)) } else { None }
    } else if w == "start_service"@ {
        if q is Some { Some(Command::StartService(v)) } else { None }
    } else if w == "stop_service"@ {
        if q is Some { Some(Command::StopService(v)) } else { None }
    } else if w == "install_bootloader"@ {
        if q is Some { Some(Command::InstallBootloader(v)) } else { None }
    } else if w == "generate_fstab"@ {
        Some(Command::GenerateFstab)
    } else if w == "check_integrity"@ {
        if q is Some { Some(Command::CheckIntegrity(v)) } else { None }
    } else if w == "verify_signature"@ {
        if q is Some { Some(Command::VerifySignature(v)) } else { None }
    } else if w == "compile_kernel"@ {
        if q is Some { Some(Command::CompileKernel { version: v }) } else { None }
    } else if w == "install_packages"@ {
        if q is Some { Some(Command::InstallPackages(v)) } else { None }
    } else if w == "update_system"@ {
        Some(Command::UpdateSystem)
    } else if w == "sync_time"@ {
        Some(Command::SyncTime)
    } else if w == "test_hardware"@ {
        if q is Some { Some(Command::TestHardware(v)) } else { None }
    } else if w == "benchmark_cpu"@ {
        Some(Command::BenchmarkCpu)
    } else if w == "benchmark_memory"@ {
        Some(Command::BenchmarkMemory)
    } else if w == "benchmark_disk"@ {
        Some(Command::BenchmarkDisk)
    } else if w == "network_config"@ {
        if q is Some { Some(Command::NetworkConfig { interface: v, config: text_or(string_param(a, "config"@), "dhcp"@) }) } else { None }
    } else if w == "firewall_rule"@ {
        if q is Some { Some(Command::FirewallRule(v)) } else { None }
    } else if w == "scan_hardware"@ {
        Some(Command::ScanHardware)
    } else if w == "detect_drivers"@ {
        Some(Command::DetectDrivers)
    } else if w == "install_driver"@ {
        if q is Some { Some(Command::InstallDriver(v)) } else { None }
    } else {
        None
    }
}

fn string_param_at(src: &str, t: &Vec<char>, lo: usize, hi: usize, key: &str) -> (r: Option<String>)
    requires
        t@ == src@,
        lo <= hi <= t@.len(),
    ensures
        match string_param(t@.subrange(lo as int, hi as int), key@) {
            Some(v) => r is Some && r->0@ == v,
            None => r is None,
        },
{
    let ghost a = t@.subrange(lo as int, hi as int);
    let p = key_pattern(key, true);
    proof {
        lemma_find_seq(a, p@, 0);
    }
    match find_seq_at(t, lo, hi, &p) {
        None => None,
        Some(k) => {
            let start = lo + k + p.len();
            let ghost rest = a.subrange(k + p@.len(), a.len() as int);
            assert(rest =~= t@.subrange(start as int, hi as int));
            proof {
                lemma_find_char(rest, '"', 0);
            }
            match find_char_at(t, start, hi, '"', 0) {
                None => None,
                Some(e) => {
                    assert(rest.subrange(0, e as int) =~= t@.subrange(start as int, start + e));
                    Some(text_of(src, start, start + e))
                },
            }
        },
    }
}

fn number_param_at(t: &Vec<char>, lo: usize, hi: usize, key: &str) -> (r: Option<u64>)
    requires
        lo <= hi <= t@.len(),
    ensures
        match number_param(t@.subrange(lo as int, hi as int), key@) {
            Some(v) => r == Some(v as u64),
            None => r is None,
        },
{
    let ghost a = t@.subrange(lo as int, hi as int);
    let p = key_pattern(key, false);
    proof {
        lemma_find_seq(a, p@, 0);
    }
    match find_seq_at(t, lo, hi, &p) {
        None => None,
        Some(k) => {
            let start = lo + k + p.len();
            let ghost rest = a.subrange(k + p@.len(), a.len() as int);
            assert(rest =~= t@.subrange(start as int, hi as int));
            let end = digit_end_at(t, start, hi);
            assert(rest.subrange(0, end - start) =~= t@.subrange(start as int, end as int));
            parse_unsigned_at(t, start, end, u64::MAX)
        },
    }
}

/// Reads the trimmed command line `t[lo..hi]`.
pub fn command_at(src: &str, t: &Vec<char>, lo: usize, hi: usize) -> (r: Option<Command<String>>)
    requires
        t@ == src@,
        lo <= hi <= t@.len(),
    ensures
        match r {
            Some(c) => command_of(t@.subrange(lo as int, hi as int)) == Some(c@),
            None => command_of(t@.subrange(lo as int, hi as int)) is None,
        },
{
    let (wlo, whi, alo, ahi) = word_bounds(t, lo, hi);
    let q = quoted_at(t, lo, hi);
    let (qa, qb) = match q {
        Some(b) => b,
        None => (lo, lo),
    };
    let has_q = q.is_some();
    if equals_at(t, wlo, whi, "message") {
        if has_q { Some(Command::Message(text_of(src, qa, qb))) } else { None }
    } else if equals_at(t, wlo, whi, "delay") {
        let (x, y) = trim_bounds(t, alo, ahi);
        let ms = match parse_unsigned_at(t, x, y, u64::MAX) { Some(n) => n, None => 100 };
        Some(Command::Delay(ms))
    } else if equals_at(t, wlo, whi, "progress") {
        let (x, y) = trim_bounds(t, alo, ahi);
        let pct = match parse_unsigned_at(t, x, y, 255) { Some(n) => n as u8, None => 0 };
        Some(Command::Progress(pct))
    } else if equals_at(t, wlo, whi, "create_dir") {
        if has_q { Some(Command::CreateDir(text_of(src, qa, qb))) } else { None }
    } else if equals_at(t, wlo, whi, "download") {
        if has_q {
            let size = match number_param_at(t, alo, ahi, "size") { Some(x) => x, None => 1024 };
            Some(Command::Download { url: text_of(src, qa, qb), size })
        } else { None }
    } else if equals_at(t, wlo, whi, "extract") {
        if has_q {
            let to = match string_param_at(src, t, alo, ahi, "to") { Some(x) => x, None => String::from_str("") };
            Some(Command::Extract { from: text_of(src, qa, qb), to })
        } else { None }
    } else if equals_at(t, wlo, whi, "install_dep") {
        if has_q {
            let version = match string_param_at(src, t, alo, ahi, "version") { Some(x) => x, None => String::from_str("latest") };
            Some(Command::InstallDep { name: text_of(src, qa, qb), version })
        } else { None }
    } else if equals_at(t, wlo, whi, "configure") {
        let key = match string_param_at(src, t, alo, ahi, "key") { Some(x) => x, None => String::from_str("") };
        let value = match string_param_at(src, t, alo, ahi, "value") { Some(x) => x, None => String::from_str("") };
        Some(Command::Configure { key, value })
    } else if equals_at(t, wlo, whi, "cleanup") {
        Some(Command::Cleanup)
    } else if equals_at(t, wlo, whi, "success") {
        if has_q { Some(Command::Success(text_of(src, qa, qb))) } else { None }
    } else if equals_at(t, wlo, whi, "error") {
        if has_q { Some(Command::Error(text_of(src, qa, qb))) } else { None }
    } else if equals_at(t, wlo, whi, "warning") {
        if has_q { Some(Command::Warning(text_of(src, qa, qb))) } else { None }
    } else if equals_at(t, wlo, whi, "copy_file") {
        if has_q {
            let to = match string_param_at(src, t, alo, ahi, "to") { Some(x) => x, None => String::from_str("") };
            Some(Command::CopyFile { from: text_of(src, qa, qb), to })
        } else { None }
    } else if equals_at(t, wlo, whi, "symlink") {
        if has_q {
            let to = match string_param_at(src, t, alo, ahi, "to") { Some(x) => x, None => String::from_str("") };
            Some(Command::Symlink { from: text_of(src, qa, qb), to })
        } else { None }
    } else if equals_at(t, wlo, whi, "set_permission") {
        if has_q {
            let mode = match string_param_at(src, t, alo, ahi, "mode") { Some(x) => x, None => String::from_str("755") };
            Some(Command::SetPermission { path: text_of(src, qa, qb), mode })
        } else { None }
    } else if equals_at(t, wlo, whi, "run_script") {
        if has_q { Some(Command::RunScript(text_of(src, qa, qb))) } else { None }
    } else if equals_at(t, wlo, whi, "check_dep") {
        if has_q { Some(Command::CheckDep(text_of(src, qa, qb))) } else { None }
    } else if equals_at(t, wlo, whi, "write_config") {
        if has_q {
            let content = match string_param_at(src, t, alo, ahi, "content") { Some(x) => x, None => String::from_str("") };
            Some(Command::WriteConfig { path: text_of(src, qa, qb), content })
        } else { None }
    } else if equals_at(t, wlo, whi, "detect_cpu") {
        Some(Command::DetectCpu)
    } else if equals_at(t, wlo, whi, "detect_memory") {
        Some(Command::DetectMemory)
    } else if equals_at(t, wlo, whi, "detect_disk") {
        Some(Command::DetectDisk)
    } else if equals_at(t, wlo, whi, "detect_gpu") {
        Some(Command::DetectGpu)
    } else if equals_at(t, wlo, whi, "detect_network") {
        Some(Command::DetectNetwork)
    } else if equals_at(t, wlo, whi, "detect_os") {
        Some(Command::DetectOs)
    } else if equals_at(t, wlo, whi, "detect_kernel") {
        Some(Command::DetectKernel)
    } else if equals_at(t, wlo, whi, "detect_bios") {
        Some(Command::DetectBios)
    } else if equals_at(t, wlo, whi, "run_test") {
        if has_q {
            let duration = match number_param_at(t, alo, ahi, "duration") { Some(x) => x, None => 1000 };
            Some(Command::RunTest { name: text_of(src, qa, qb), duration })
        } else { None }
    } else if equals_at(t, wlo, whi, "load_module") {
        if has_q { Some(Command::LoadKernelModule(text_of(src, qa, qb))) } else { None }
    } else if equals_at(t, wlo, whi, "unload_module") {
        if has_q { Some(Command::UnloadKernelModule(text_of(src, qa, qb))) } else { None }
    } else if equals_at(t, wlo, whi, "update_initramfs") {
        Some(Command::UpdateInitramfs)
    } else if equals_at(t, wlo, whi, "update_grub") {
        Some(Command::UpdateGrub)
    } else if equals_at(t, wlo, whi, "mount") {
        if has_q {
            let mount_point = match string_param_at(src, t, alo, ahi, "to") { Some(x) => x, None => String::from_str("") };
            Some(Command::MountPartition { device: text_of(src, qa, qb), mount_point })
        } else { None }
    } else if equals_at(t, wlo, whi, "unmount") {
        if has_q { Some(Command::UnmountPartition(text_of(src, qa, qb))) } else { None }
    } else if equals_at(t, wlo, whi, "format") {
        if has_q {
            let fs_type = match string_param_at(src, t, alo, ahi, "fs") { Some(x) => x, None => String::from_str("ext4") };
            Some(Command::FormatPartition { device: text_of(src, qa, qb), fs_type })
        } else { None }
    } else if equals_at(t, wlo, whi, "create_partition") {
        if has_q {
            let size = match string_param_at(src, t, alo, ahi, "size") { Some(x) => x, None => String::from_str("100%") };
            Some(Command::CreatePartition { device: text_of(src, qa, qb), size })
        } else { None }
    } else if equals_at(t, wlo, whi, "set_hostname") {
        if has_q { Some(Command::SetHostname(text_of(src, qa, qb))) } else { None }
    } else if equals_at(t, wlo, whi, "set_timezone") {
        if has_q { Some(Command::SetTimezone(text_of(src, qa, qb))) } else { None }
    } else if equals_at(t, wlo, whi, "set_locale") {
        if has_q { Some(Command::SetLocale(text_of(src, qa, qb))) } else { None }
    } else if equals_at(t, wlo, whi, "create_user") {
        if has_q {
            let groups = match string_param_at(src, t, alo, ahi, "groups") { Some(x) => x, None => String::from_str("users") };
            Some(Command::CreateUser { username: text_of(src, qa, qb), groups })
        } else { None }
    } else if equals_at(t, wlo, whi, "set_password") {
        if has_q { Some(Command::SetPassword(text_of(src, qa, qb))) } else { None }
    } else if equals_at(t, wlo, whi, "enable_service") {
        if has_q { Some(Command::EnableService(text_of(src, qa, qb))) } else { None }
    } else if equals_at(t, wlo, whi, "disable_service") {
        if has_q { Some(Command::DisableService(text_of(src, qa, qb))) } else { None }
    } else if equals_at(t, wlo, whi, "start_service") {
        if has_q { Some(Command::StartService(text_of(src, qa, qb))) } else { None }
    } else if equals_at(t, wlo, whi, "stop_service") {
        if has_q { Some(Command::StopService(text_of(src, qa, qb))) } else { None }
    } else if equals_at(t, wlo, whi, "install_bootloader") {
        if has_q { Some(Command::InstallBootloader(text_of(src, qa, qb))) } else { None }
    } else if equals_at(t, wlo, whi, "generate_fstab") {
        Some(Command::GenerateFstab)
    } else if equals_at(t, wlo, whi, "check_integrity") {
        if has_q { Some(Command::CheckIntegrity(text_of(src, qa, qb))) } else { None }
    } else if equals_at(t, wlo, whi, "verify_signature") {
        if has_q { Some(Command::VerifySignature(text_of(src, qa, qb))) } else { None }
    } else if equals_at(t, wlo, whi, "compile_kernel") {
        if has_q { Some(Command::CompileKernel { version: text_of(src, qa, qb) }) } else { None }
    } else if equals_at(t, wlo, whi, "install_packages") {
        if has_q { Some(Command::InstallPackages(text_of(src, qa, qb))) } else { None }
    } else if equals_at(t, wlo, whi, "update_system") {
        Some(Command::UpdateSystem)
    } else if equals_at(t, wlo, whi, "sync_time") {
        Some(Command::SyncTime)
    } else if equals_at(t, wlo, whi, "test_hardware") {
        if has_q { Some(Command::TestHardware(text_of(src, qa, qb))) } else { None }
    } else if equals_at(t, wlo, whi, "benchmark_cpu") {
        Some(Command::BenchmarkCpu)
    } else if equals_at(t, wlo, whi, "benchmark_memory") {
        Some(Command::BenchmarkMemory)
    } else if equals_at(t, wlo, whi, "benchmark_disk") {
        Some(Command::BenchmarkDisk)
    } else if equals_at(t, wlo, whi, "network_config") {
        if has_q {
            let config = match string_param_at(src, t, alo, ahi, "config") { Some(x) => x, None => String::from_str("dhcp") };
            Some(Command::NetworkConfig { interface: text_of(src, qa, qb), config })
        } else { None }
    } else if equals_at(t, wlo, whi, "firewall_rule") {
        if has_q { Some(Command::FirewallRule(text_of(src, qa, qb))) } else { None }
    } else if equals_at(t, wlo, whi, "scan_hardware") {
        Some(Command::ScanHardware)
    } else if equals_at(t, wlo, whi, "detect_drivers") {
        Some(Command::DetectDrivers)
    } else if equals_at(t, wlo, whi, "install_driver") {
        if has_q { Some(Command::InstallDriver(text_of(src, qa, qb))) } else { None }
    } else {
        None
    }
}

/// Reads one trimmed command line.
pub fn parse_command(line: &str) -> (r: Option<Command<String>>)
    ensures
        match r {
            Some(c) => command_of(line@) == Some(c@),
            None => command_of(line@) is None,
        },
{
    let t = crate::text::chars_of(line);
    assert(t@.subrange(0, t@.len() as int) =~= line@);
    command_at(line, &t, 0, t.len())
}

} // verus!
