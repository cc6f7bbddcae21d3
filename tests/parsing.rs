use instnoth::command::{parse_command, Command};
use instnoth::parser::{parse, ParseError, Program};

fn program(text: &str) -> Program {
    match parse(text) {
        Ok(p) => p,
        Err(e) => panic!("unexpected parse error: {:?}", e),
    }
}

fn s(x: &str) -> String {
    x.to_string()
}

#[test]
fn reads_metadata_keys() {
    let p = program(
        "# header\npackage: \"python\"\nversion: \"3.12\"\ndescription: \"Python runtime\"\nauthor: \"someone\"\n",
    );
    assert_eq!(p.name, "python");
    assert_eq!(p.version, "3.12");
    assert_eq!(p.description, "Python runtime");
    assert_eq!(p.author, "someone");
    assert!(p.depends.is_empty());
    assert!(p.phases.is_empty());
}

#[test]
fn depends_forms_agree() {
    let a = program("package: \"a\"\ndepends: \"x.ext\" \"y.ext\"\n");
    let b = program("package: \"a\"\ndepends: \"x.ext\", \"y.ext\"\n");
    assert_eq!(a.depends, vec![s("x.ext"), s("y.ext")]);
    assert_eq!(b.depends, vec![s("x.ext"), s("y.ext")]);
}

#[test]
fn depends_drops_empty_and_trims() {
    let p = program("package: \"a\"\ndepends: \"  x.ext \" \"\" junk \"y.ext\n");
    assert_eq!(p.depends, vec![s("x.ext"), s("y.ext")]);
}

#[test]
fn unknown_command_is_dropped() {
    let p = program("package: \"a\"\nphase \"one\" {\n  message \"a\"\n  bogus_cmd foo\n  message \"b\"\n}\n");
    assert_eq!(p.phases.len(), 1);
    assert_eq!(p.phases[0].name, "one");
    assert_eq!(
        p.phases[0].commands,
        vec![Command::Message(s("a")), Command::Message(s("b"))]
    );
}

#[test]
fn unquoted_primary_is_dropped() {
    let p = program("package: \"a\"\nphase \"p\" {\n  message hello\n  success \"ok\"\n}\n");
    assert_eq!(p.phases[0].commands, vec![Command::Success(s("ok"))]);
}

#[test]
fn missing_package_line_fails() {
    assert_eq!(parse("version: \"1\"\nphase \"p\" {\n}\n").err(), Some(ParseError::MissingName));
}

#[test]
fn unquoted_package_fails() {
    assert_eq!(parse("package: python\n").err(), Some(ParseError::Unquoted { line: 1 }));
}

#[test]
fn empty_package_name_fails() {
    assert_eq!(parse("package: \"\"\n").err(), Some(ParseError::MissingName));
}

#[test]
fn unquoted_version_reports_line() {
    assert_eq!(
        parse("package: \"a\"\n\nversion: 1.0\n").err(),
        Some(ParseError::Unquoted { line: 3 })
    );
}

#[test]
fn unnamed_phase_fails() {
    assert_eq!(
        parse("package: \"a\"\nphase {\n}\n").err(),
        Some(ParseError::UnnamedPhase { line: 2 })
    );
}

#[test]
fn brace_on_a_later_line() {
    let p = program("package: \"a\"\nphase \"p\"\n\n{\n  cleanup\n  # note\n\n}\nauthor: \"b\"\n");
    assert_eq!(p.phases[0].commands, vec![Command::Cleanup]);
    assert_eq!(p.author, "b");
}

#[test]
fn phases_keep_their_order() {
    let p = program("package: \"a\"\nphase \"one\" {\n detect_cpu\n}\nphase \"two\" {\n sync_time\n}\n");
    assert_eq!(p.phases.len(), 2);
    assert_eq!(p.phases[0].name, "one");
    assert_eq!(p.phases[1].name, "two");
    assert_eq!(p.phases[1].commands, vec![Command::SyncTime]);
}

#[test]
fn windows_line_endings() {
    let p = program("package: \"a\"\r\nphase \"p\" {\r\n  delay 5\r\n}\r\n");
    assert_eq!(p.phases[0].commands, vec![Command::Delay(5)]);
}

#[test]
fn delay_and_progress_defaults() {
    assert_eq!(parse_command("delay"), Some(Command::Delay(100)));
    assert_eq!(parse_command("delay abc"), Some(Command::Delay(100)));
    assert_eq!(parse_command("delay  250 "), Some(Command::Delay(250)));
    assert_eq!(parse_command("delay +7"), Some(Command::Delay(7)));
    assert_eq!(parse_command("progress 50"), Some(Command::Progress(50)));
    assert_eq!(parse_command("progress 256"), Some(Command::Progress(0)));
    assert_eq!(parse_command("progress"), Some(Command::Progress(0)));
    assert_eq!(
        parse_command("delay 18446744073709551616"),
        Some(Command::Delay(100))
    );
}

#[test]
fn download_size_parameter() {
    assert_eq!(
        parse_command("download \"http://x/y.tar\" size=2048"),
        Some(Command::Download { url: s("http://x/y.tar"), size: 2048 })
    );
    assert_eq!(
        parse_command("download \"u\" size=12kb"),
        Some(Command::Download { url: s("u"), size: 12 })
    );
    assert_eq!(
        parse_command("download \"u\""),
        Some(Command::Download { url: s("u"), size: 1024 })
    );
    assert_eq!(
        parse_command("download \"u\" size=x"),
        Some(Command::Download { url: s("u"), size: 1024 })
    );
    assert_eq!(parse_command("download u"), None);
}

#[test]
fn string_parameters_and_defaults() {
    assert_eq!(
        parse_command("extract \"a.tar\" to=\"/opt\""),
        Some(Command::Extract { from: s("a.tar"), to: s("/opt") })
    );
    assert_eq!(
        parse_command("install_dep \"libc\""),
        Some(Command::InstallDep { name: s("libc"), version: s("latest") })
    );
    assert_eq!(
        parse_command("set_permission \"/bin/x\""),
        Some(Command::SetPermission { path: s("/bin/x"), mode: s("755") })
    );
    assert_eq!(
        parse_command("format \"/dev/sda1\" fs=\"btrfs\""),
        Some(Command::FormatPartition { device: s("/dev/sda1"), fs_type: s("btrfs") })
    );
    assert_eq!(
        parse_command("create_partition \"/dev/sda\""),
        Some(Command::CreatePartition { device: s("/dev/sda"), size: s("100%") })
    );
    assert_eq!(
        parse_command("create_user \"bob\" groups=\"wheel,audio\""),
        Some(Command::CreateUser { username: s("bob"), groups: s("wheel,audio") })
    );
    assert_eq!(
        parse_command("network_config \"eth0\""),
        Some(Command::NetworkConfig { interface: s("eth0"), config: s("dhcp") })
    );
    assert_eq!(
        parse_command("mount \"/dev/sda1\" to=\"/mnt\""),
        Some(Command::MountPartition { device: s("/dev/sda1"), mount_point: s("/mnt") })
    );
    assert_eq!(
        parse_command("run_test \"ram\" duration=300"),
        Some(Command::RunTest { name: s("ram"), duration: 300 })
    );
}

#[test]
fn configure_needs_no_primary() {
    assert_eq!(
        parse_command("configure key=\"PATH\" value=\"/usr/bin\""),
        Some(Command::Configure { key: s("PATH"), value: s("/usr/bin") })
    );
    assert_eq!(
        parse_command("configure"),
        Some(Command::Configure { key: s(""), value: s("") })
    );
}

#[test]
fn word_ends_at_first_whitespace() {
    assert_eq!(parse_command("detect_cpu"), Some(Command::DetectCpu));
    assert_eq!(parse_command("detect_cpu extra words"), Some(Command::DetectCpu));
    assert_eq!(parse_command("detect_cpu\tx"), Some(Command::DetectCpu));
    assert_eq!(parse_command("message\t\"x\""), Some(Command::Message(s("x"))));
    assert_eq!(parse_command("detect_cpux"), None);
}

#[test]
fn whole_vocabulary_is_read() {
    let q = "\"v\"";
    let cases: Vec<(&str, Command<String>)> = vec![
        ("create_dir", Command::CreateDir(s("v"))),
        ("success", Command::Success(s("v"))),
        ("error", Command::Error(s("v"))),
        ("warning", Command::Warning(s("v"))),
        ("run_script", Command::RunScript(s("v"))),
        ("check_dep", Command::CheckDep(s("v"))),
        ("load_module", Command::LoadKernelModule(s("v"))),
        ("unload_module", Command::UnloadKernelModule(s("v"))),
        ("unmount", Command::UnmountPartition(s("v"))),
        ("set_hostname", Command::SetHostname(s("v"))),
        ("set_timezone", Command::SetTimezone(s("v"))),
        ("set_locale", Command::SetLocale(s("v"))),
        ("set_password", Command::SetPassword(s("v"))),
        ("enable_service", Command::EnableService(s("v"))),
        ("disable_service", Command::DisableService(s("v"))),
        ("start_service", Command::StartService(s("v"))),
        ("stop_service", Command::StopService(s("v"))),
        ("install_bootloader", Command::InstallBootloader(s("v"))),
        ("check_integrity", Command::CheckIntegrity(s("v"))),
        ("verify_signature", Command::VerifySignature(s("v"))),
        ("compile_kernel", Command::CompileKernel { version: s("v") }),
        ("install_packages", Command::InstallPackages(s("v"))),
        ("test_hardware", Command::TestHardware(s("v"))),
        ("firewall_rule", Command::FirewallRule(s("v"))),
        ("install_driver", Command::InstallDriver(s("v"))),
        ("copy_file", Command::CopyFile { from: s("v"), to: s("") }),
        ("symlink", Command::Symlink { from: s("v"), to: s("") }),
        ("write_config", Command::WriteConfig { path: s("v"), content: s("") }),
        ("cleanup", Command::Cleanup),
        ("detect_memory", Command::DetectMemory),
        ("detect_disk", Command::DetectDisk),
        ("detect_gpu", Command::DetectGpu),
        ("detect_network", Command::DetectNetwork),
        ("detect_os", Command::DetectOs),
        ("detect_kernel", Command::DetectKernel),
        ("detect_bios", Command::DetectBios),
        ("update_initramfs", Command::UpdateInitramfs),
        ("update_grub", Command::UpdateGrub),
        ("generate_fstab", Command::GenerateFstab),
        ("update_system", Command::UpdateSystem),
        ("sync_time", Command::SyncTime),
        ("benchmark_cpu", Command::BenchmarkCpu),
        ("benchmark_memory", Command::BenchmarkMemory),
        ("benchmark_disk", Command::BenchmarkDisk),
        ("scan_hardware", Command::ScanHardware),
        ("detect_drivers", Command::DetectDrivers),
    ];
    for (word, expected) in cases {
        let line = format!("{} {}", word, q);
        assert_eq!(parse_command(&line), Some(expected), "{}", word);
    }
}
