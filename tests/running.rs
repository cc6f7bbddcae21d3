use instnoth::command::Command;
use instnoth::facts::{
    BenchmarkKind, BenchmarkScore, BiosInfo, CpuInfo, DiskInfo, Fact, FactProvider, GpuInfo,
    MemoryInfo, NetworkInfo, OsInfo, RandomFacts,
};
use instnoth::interp::{
    count_words, hardware_suite, nominal_duration, words, Effect, HardwareSuite, Outcome,
    Simulator, Tone,
};
use instnoth::parser::parse;

struct Fixed;

impl FactProvider for Fixed {
    fn cpu(&mut self) -> CpuInfo {
        CpuInfo { vendor: "AMD".to_string(), model: "EPYC 7742".to_string(), cores: 64, mhz: 3400 }
    }
    fn memory(&mut self) -> MemoryInfo {
        MemoryInfo { gigabytes: 32, kind: "DDR5".to_string(), mhz: 4800 }
    }
    fn disk(&mut self) -> DiskInfo {
        DiskInfo { vendor: "WD".to_string(), model: "Blue".to_string(), gigabytes: 500, kind: "NVMe".to_string() }
    }
    fn gpu(&mut self) -> GpuInfo {
        GpuInfo { vendor: "Intel".to_string(), model: "Arc A380".to_string(), vram_gigabytes: 6 }
    }
    fn network(&mut self) -> NetworkInfo {
        NetworkInfo {
            vendor: "Intel".to_string(),
            model: "X710".to_string(),
            speed: "10 Gbps".to_string(),
            mac: [1, 2, 3, 4, 5, 6],
            ip: [10, 0, 0, 2],
        }
    }
    fn os(&mut self) -> OsInfo {
        OsInfo { name: "Debian".to_string(), version: "12".to_string() }
    }
    fn kernel(&mut self) -> String {
        "6.1.0".to_string()
    }
    fn bios(&mut self) -> BiosInfo {
        BiosInfo { vendor: "AMI".to_string(), kind: "UEFI".to_string(), version: "1.0".to_string() }
    }
    fn ip_address(&mut self) -> [u8; 4] {
        [192, 168, 1, 7]
    }
    fn updated_packages(&mut self) -> u64 {
        77
    }
    fn key_id(&mut self) -> u64 {
        0xABCD
    }
    fn benchmark(&mut self, kind: BenchmarkKind) -> Vec<BenchmarkScore> {
        vec![BenchmarkScore { test: format!("{:?}", kind), result: "1 point".to_string() }]
    }
}

fn one(sim: &mut Simulator, cmd: Command<String>) -> Effect {
    sim.execute_command(&cmd, &mut Fixed)
}

const SCRIPT: &str = "package: \"demo\"\nphase \"setup\" {\n  message \"start\"\n  delay 250\n  progress 50\n  download \"http://x\" size=2048\n  detect_cpu\n}\nphase \"finish\" {\n  install_packages \"a b  c\"\n  success \"done\"\n}\n";

#[test]
fn quick_mode_takes_no_time() {
    let p = parse(SCRIPT).unwrap();
    let mut sim = Simulator::new(true, false);
    let effects = sim.run(&p, &mut Fixed);
    assert_eq!(effects.len(), 7);
    let total: u64 = effects.iter().map(|e| e.duration).sum();
    assert_eq!(total, 0);
    assert_eq!(sim.progress, 50);
}

#[test]
fn normal_mode_durations() {
    let p = parse(SCRIPT).unwrap();
    let mut sim = Simulator::new(false, false);
    let effects = sim.run(&p, &mut Fixed);
    let durations: Vec<u64> = effects.iter().map(|e| e.duration).collect();
    assert_eq!(durations, vec![0, 250, 0, 2048, 500, 2400, 0]);
    assert_eq!(sim.progress, 50);
}

#[test]
fn effects_follow_commands() {
    let p = parse(SCRIPT).unwrap();
    let mut sim = Simulator::new(false, false);
    let effects = sim.run(&p, &mut Fixed);
    let outcomes: Vec<Outcome> = effects.into_iter().map(|e| e.outcome).collect();
    assert_eq!(outcomes[0], Outcome::Narration(Tone::Note, "start".to_string()));
    assert_eq!(outcomes[1], Outcome::Pause);
    assert_eq!(outcomes[2], Outcome::Progress(50));
    assert_eq!(outcomes[3], Outcome::Transfer(2048));
    assert_eq!(outcomes[4], Outcome::Cpu(Fixed.cpu()));
    assert_eq!(
        outcomes[5],
        Outcome::Packages(vec!["a".to_string(), "b".to_string(), "c".to_string()])
    );
    assert_eq!(outcomes[6], Outcome::Narration(Tone::Success, "done".to_string()));
}

#[test]
fn download_reports_size_in_both_modes() {
    for quick in [true, false] {
        let mut sim = Simulator::new(quick, false);
        let e = one(&mut sim, Command::Download { url: "u".to_string(), size: 2048 });
        assert_eq!(e.outcome, Outcome::Transfer(2048));
        assert_eq!(e.duration, if quick { 0 } else { 2048 });
    }
}

#[test]
fn progress_is_kept_until_changed() {
    let mut sim = Simulator::new(false, false);
    one(&mut sim, Command::Progress(30));
    one(&mut sim, Command::Message("x".to_string()));
    assert_eq!(sim.progress, 30);
    one(&mut sim, Command::Progress(90));
    assert_eq!(sim.progress, 90);
}

#[test]
fn narration_tones() {
    let mut sim = Simulator::new(false, false);
    assert_eq!(
        one(&mut sim, Command::Error("e".to_string())).outcome,
        Outcome::Narration(Tone::Failure, "e".to_string())
    );
    assert_eq!(
        one(&mut sim, Command::Warning("w".to_string())).outcome,
        Outcome::Narration(Tone::Warning, "w".to_string())
    );
}

#[test]
fn hardware_suites() {
    assert_eq!(hardware_suite("ram"), HardwareSuite::Memory);
    assert_eq!(hardware_suite("memory"), HardwareSuite::Memory);
    assert_eq!(hardware_suite("cpu"), HardwareSuite::Cpu);
    assert_eq!(hardware_suite("storage"), HardwareSuite::Storage);
    assert_eq!(hardware_suite("disk"), HardwareSuite::Storage);
    assert_eq!(hardware_suite("gpu"), HardwareSuite::Gpu);
    assert_eq!(hardware_suite("usb"), HardwareSuite::Basic);
    let mut sim = Simulator::new(false, false);
    let e = one(&mut sim, Command::TestHardware("usb".to_string()));
    assert_eq!(e.outcome, Outcome::Suite(HardwareSuite::Basic));
    assert_eq!(e.duration, 1000);
    let e = one(&mut sim, Command::TestHardware("gpu".to_string()));
    assert_eq!(e.duration, 1500);
}

#[test]
fn dhcp_lease_only_outside_quick_mode() {
    let cmd = Command::NetworkConfig { interface: "eth0".to_string(), config: "dhcp".to_string() };
    let mut normal = Simulator::new(false, false);
    let e = one(&mut normal, cmd.clone());
    assert_eq!(e.outcome, Outcome::Lease(Some([192, 168, 1, 7])));
    assert_eq!(e.duration, 1200);
    let mut quick = Simulator::new(true, false);
    assert_eq!(one(&mut quick, cmd).outcome, Outcome::Lease(None));
    let fixed = Command::NetworkConfig { interface: "eth0".to_string(), config: "static".to_string() };
    let e = one(&mut normal, fixed);
    assert_eq!(e.outcome, Outcome::Lease(None));
    assert_eq!(e.duration, 700);
}

#[test]
fn signature_key_in_verbose_mode() {
    let mut verbose = Simulator::new(true, true);
    let cmd = Command::VerifySignature("f".to_string());
    assert_eq!(one(&mut verbose, cmd.clone()).outcome, Outcome::Signature(Some(0xABCD)));
    let mut plain = Simulator::new(true, false);
    assert_eq!(one(&mut plain, cmd).outcome, Outcome::Signature(None));
}

#[test]
fn update_reports_provider_count() {
    let mut sim = Simulator::new(false, false);
    let e = one(&mut sim, Command::UpdateSystem);
    assert_eq!(e.outcome, Outcome::Updated(77));
    assert_eq!(e.duration, 2500);
}

#[test]
fn fixed_durations() {
    assert_eq!(nominal_duration(&Command::CreateDir("d".to_string())), 160);
    assert_eq!(nominal_duration(&Command::Cleanup), 240);
    assert_eq!(nominal_duration(&Command::CompileKernel { version: "6".to_string() }), 5200);
    assert_eq!(nominal_duration(&Command::RunTest { name: "t".to_string(), duration: 1234 }), 1234);
    assert_eq!(nominal_duration(&Command::InstallPackages("x y".to_string())), 1600);
    assert_eq!(nominal_duration(&Command::InstallPackages("   ".to_string())), 0);
}

#[test]
fn words_split_on_whitespace() {
    assert_eq!(words("  vim \t git\nmake "), vec!["vim".to_string(), "git".to_string(), "make".to_string()]);
    assert!(words("").is_empty());
    assert_eq!(count_words("a\u{3000}b"), 2);
}

#[test]
fn random_facts_stay_in_range() {
    let mut f = RandomFacts;
    for _ in 0..50 {
        let ip = f.ip_address();
        assert_eq!(ip[0], 192);
        assert_eq!(ip[1], 168);
        assert!(ip[2] < 255);
        assert!(ip[3] >= 1 && ip[3] < 254);
        let n = f.updated_packages();
        assert!((50..200).contains(&n));
        assert!(!f.cpu().vendor.is_empty());
        assert!(!f.kernel().is_empty());
    }
}

#[test]
fn benchmarks_report_provider_scores() {
    let mut normal = Simulator::new(false, false);
    let e = one(&mut normal, Command::BenchmarkMemory);
    assert_eq!(
        e.outcome,
        Outcome::Scores(vec![BenchmarkScore { test: "Memory".to_string(), result: "1 point".to_string() }])
    );
    assert_eq!(e.duration, 1200);
    let mut quick = Simulator::new(true, false);
    assert_eq!(one(&mut quick, Command::BenchmarkCpu).outcome, Outcome::Scores(vec![]));
}

#[test]
fn effect_reports_the_given_fact() {
    let mut sim = Simulator::new(false, false);
    let cpu = CpuInfo { vendor: "X".to_string(), model: "Y".to_string(), cores: 3, mhz: 7 };
    let e = sim.effect_of(&Command::DetectCpu, Some(Fact::Cpu(cpu.clone())));
    assert_eq!(e.outcome, Outcome::Cpu(cpu));
    assert_eq!(e.duration, 500);
    let e = sim.effect_of(&Command::UpdateSystem, Some(Fact::Count(123)));
    assert_eq!(e.outcome, Outcome::Updated(123));
    let e = sim.effect_of(&Command::Message("hi".to_string()), None);
    assert_eq!(e.outcome, Outcome::Narration(Tone::Note, "hi".to_string()));
}

#[test]
fn drawn_facts_match_the_command() {
    let f = Simulator::draw_fact(&Command::DetectKernel, false, false, &mut Fixed);
    assert_eq!(f, Some(Fact::Kernel("6.1.0".to_string())));
    assert_eq!(Simulator::draw_fact(&Command::VerifySignature("f".to_string()), false, false, &mut Fixed), None);
    assert_eq!(Simulator::draw_fact(&Command::BenchmarkDisk, true, false, &mut Fixed), None);
    assert_eq!(Simulator::draw_fact(&Command::Cleanup, false, true, &mut Fixed), None);
}

#[test]
fn random_tables_hold_known_entries() {
    let mut f = RandomFacts;
    for _ in 0..30 {
        let c = f.cpu();
        assert!(c.cores >= 6 && c.cores <= 64);
        assert!(c.mhz >= 3400 && c.mhz <= 5800);
        assert!(["Intel", "AMD", "Apple"].contains(&c.vendor.as_str()));
        let g = f.gpu();
        assert!(["NVIDIA", "AMD", "Intel"].contains(&g.vendor.as_str()));
        let scores = f.benchmark(BenchmarkKind::Cpu);
        assert_eq!(scores.len(), 4);
        assert_eq!(scores[1].test, "Multi-thread");
        assert_eq!(scores[1].result, "98,432 points");
    }
}
