//! Synthetic hardware and network facts: the records that detection commands
//! report, the provider interface the interpreter consults, and a provider that
//! draws entries from fixed tables at random.
use vstd::prelude::*;
use rand::Rng;

verus! {

#[derive(Debug, Clone, PartialEq, Eq)]
pub struct CpuInfo {
    pub vendor: String,
    pub model: String,
    pub cores: u32,
    pub mhz: u32,
}

#[derive(Debug, Clone, PartialEq, Eq)]
pub struct MemoryInfo {
    pub gigabytes: u64,
    pub kind: String,
    pub mhz: u32,
}

#[derive(Debug, Clone, PartialEq, Eq)]
pub struct DiskInfo {
    pub vendor: String,
    pub model: String,
    pub gigabytes: u64,
    pub kind: String,
}

#[derive(Debug, Clone, PartialEq, Eq)]
pub struct GpuInfo {
    pub vendor: String,
    pub model: String,
    pub vram_gigabytes: u32,
}

/// A network adapter with its hardware address and an IPv4 address.
#[derive(Debug, Clone, PartialEq, Eq)]
pub struct NetworkInfo {
    pub vendor: String,
    pub model: String,
    pub speed: String,
    pub mac: [u8; 6],
    pub ip: [u8; 4],
}

#[derive(Debug, Clone, PartialEq, Eq)]
pub struct OsInfo {
    pub name: String,
    pub version: String,
}

#[derive(Debug, Clone, PartialEq, Eq)]
pub struct BiosInfo {
    pub vendor: String,
    pub kind: String,
    pub version: String,
}

/// The benchmark a command runs.
#[derive(Debug, Clone, Copy, PartialEq, Eq, Structural)]
pub enum BenchmarkKind {
    Cpu,
    Memory,
    Disk,
}

/// One line of a benchmark's score table.
#[derive(Debug, Clone, PartialEq, Eq)]
pub struct BenchmarkScore {
    pub test: String,
    pub result: String,
}

/// A fact drawn from a provider for one command.
#[derive(Debug, Clone, PartialEq, Eq)]
pub enum Fact {
    Cpu(CpuInfo),
    Memory(MemoryInfo),
    Disk(DiskInfo),
    Gpu(GpuInfo),
    Network(NetworkInfo),
    Os(OsInfo),
    Kernel(String),
    Bios(BiosInfo),
    /// An address handed out on the local network.
    Address([u8; 4]),
    /// How many packages a system update brought.
    Count(u64),
    /// The identifier of a signing key.
    Key(u64),
    /// A benchmark's score table.
    Scores(Vec<BenchmarkScore>),
}

/// Where detection commands get their facts. A fixed provider makes runs reproducible.
pub trait FactProvider {
    fn cpu(&mut self) -> CpuInfo;

    fn memory(&mut self) -> MemoryInfo;

    fn disk(&mut self) -> DiskInfo;

    fn gpu(&mut self) -> GpuInfo;

    fn network(&mut self) -> NetworkInfo;

    fn os(&mut self) -> OsInfo;

    fn kernel(&mut self) -> String;

    fn bios(&mut self) -> BiosInfo;

    /// An address handed out on the local network.
    fn ip_address(&mut self) -> [u8; 4];

    /// How many packages a system update brought.
    fn updated_packages(&mut self) -> u64;

    /// The identifier of the key that signed a file.
    fn key_id(&mut self) -> u64;

    /// The score table of a benchmark.
    fn benchmark(&mut self, kind: BenchmarkKind) -> Vec<BenchmarkScore>;
}

/// Relies on rand's `Rng::gen_range` over the thread-local generator: a value in `lo..hi`
/// (it panics on an empty range, which `requires` rules out).
#[verifier::external_body]
fn random_in(lo: u64, hi: u64) -> (r: u64)
    requires
        lo < hi,
    ensures
        lo <= r < hi,
{
    rand::thread_rng().gen_range(lo..hi)
}

/// Relies on rand's `Rng::gen` over the thread-local generator: any `u64`.
#[verifier::external_body]
fn random_u64() -> u64 {
    rand::thread_rng().gen::<u64>()
}

/// Picks a random index below `n`.
fn random_index(n: usize) -> (r: usize)
    requires
        n > 0,
    ensures
        r < n,
{
    random_in(0, n as u64) as usize
}

fn random_byte() -> u8 {
    random_in(0, 256) as u8
}

/// An address in 192.168.0.0/16 whose last part is 1..=253.
fn random_address() -> (r: [u8; 4])
    ensures
        r[0] == 192,
        r[1] == 168,
        r[2] < 255,
        1 <= r[3] < 254,
{
    [192, 168, random_in(0, 255) as u8, random_in(1, 254) as u8]
}

/// A count of updated packages, 50..=199.
fn random_update_count() -> (r: u64)
    ensures
        50 <= r < 200,
{
    random_in(50, 200)
}

/// Row `i` of the table that `cpu_entry` reads.
pub open spec fn cpu_row(i: int) -> (Seq<char>, Seq<char>, u32, u32) {
    if i == 0 {
        ("Intel"@, "Core i9-13900K"@, 24, 5800)
    } else if i == 1 {
        ("Intel"@, "Core i7-12700K"@, 12, 5000)
    } else if i == 2 {
        ("Intel"@, "Core i5-13600K"@, 14, 5100)
    } else if i == 3 {
        ("Intel"@, "Xeon E5-2699 v4"@, 22, 3600)
    } else if i == 4 {
        ("AMD"@, "Ryzen 9 7950X"@, 16, 5700)
    } else if i == 5 {
        ("AMD"@, "Ryzen 7 7800X3D"@, 8, 5000)
    } else if i == 6 {
        ("AMD"@, "Ryzen 5 7600X"@, 6, 5300)
    } else if i == 7 {
        ("AMD"@, "EPYC 7742"@, 64, 3400)
    } else if i == 8 {
        ("AMD"@, "Threadripper 3990X"@, 64, 4300)
    } else {
        ("Apple"@, "M2 Ultra"@, 24, 3500)
    }
}

fn cpu_entry(i: usize) -> (r: CpuInfo)
    requires
        i < 10,
    ensures
        (r.vendor@, r.model@, r.cores, r.mhz) == cpu_row(i as int),
{
    if i == 0 {
        CpuInfo { vendor: String::from_str("Intel"), model: String::from_str("Core i9-13900K"), cores: 24, mhz: 5800 }
    } else if i == 1 {
        CpuInfo { vendor: String::from_str("Intel"), model: String::from_str("Core i7-12700K"), cores: 12, mhz: 5000 }
    } else if i == 2 {
        CpuInfo { vendor: String::from_str("Intel"), model: String::from_str("Core i5-13600K"), cores: 14, mhz: 5100 }
    } else if i == 3 {
        CpuInfo { vendor: String::from_str("Intel"), model: String::from_str("Xeon E5-2699 v4"), cores: 22, mhz: 3600 }
    } else if i == 4 {
        CpuInfo { vendor: String::from_str("AMD"), model: String::from_str("Ryzen 9 7950X"), cores: 16, mhz: 5700 }
    } else if i == 5 {
        CpuInfo { vendor: String::from_str("AMD"), model: String::from_str("Ryzen 7 7800X3D"), cores: 8, mhz: 5000 }
    } else if i == 6 {
        CpuInfo { vendor: String::from_str("AMD"), model: String::from_str("Ryzen 5 7600X"), cores: 6, mhz: 5300 }
    } else if i == 7 {
        CpuInfo { vendor: String::from_str("AMD"), model: String::from_str("EPYC 7742"), cores: 64, mhz: 3400 }
    } else if i == 8 {
        CpuInfo { vendor: String::from_str("AMD"), model: String::from_str("Threadripper 3990X"), cores: 64, mhz: 4300 }
    } else {
        CpuInfo { vendor: String::from_str("Apple"), model: String::from_str("M2 Ultra"), cores: 24, mhz: 3500 }
    }
}

/// Row `i` of the table that `memory_entry` reads.
pub open spec fn memory_row(i: int) -> (u64, Seq<char>, u32) {
    if i == 0 {
        (8, "DDR4"@, 2666)
    } else if i == 1 {
        (16, "DDR4"@, 3200)
    } else if i == 2 {
        (32, "DDR4"@, 3600)
    } else if i == 3 {
        (32, "DDR5"@, 4800)
    } else if i == 4 {
        (64, "DDR5"@, 5600)
    } else if i == 5 {
        (128, "DDR5"@, 6000)
    } else if i == 6 {
        (16, "DDR5"@, 5200)
    } else {
        (64, "DDR4"@, 3200)
    }
}

fn memory_entry(i: usize) -> (r: MemoryInfo)
    requires
        i < 8,
    ensures
        (r.gigabytes, r.kind@, r.mhz) == memory_row(i as int),
{
    if i == 0 {
        MemoryInfo { gigabytes: 8, kind: String::from_str("DDR4"), mhz: 2666 }
    } else if i == 1 {
        MemoryInfo { gigabytes: 16, kind: String::from_str("DDR4"), mhz: 3200 }
    } else if i == 2 {
        MemoryInfo { gigabytes: 32, kind: String::from_str("DDR4"), mhz: 3600 }
    } else if i == 3 {
        MemoryInfo { gigabytes: 32, kind: String::from_str("DDR5"), mhz: 4800 }
    } else if i == 4 {
        MemoryInfo { gigabytes: 64, kind: String::from_str("DDR5"), mhz: 5600 }
    } else if i == 5 {
        MemoryInfo { gigabytes: 128, kind: String::from_str("DDR5"), mhz: 6000 }
    } else if i == 6 {
        MemoryInfo { gigabytes: 16, kind: String::from_str("DDR5"), mhz: 5200 }
    } else {
        MemoryInfo { gigabytes: 64, kind: String::from_str("DDR4"), mhz: 3200 }
    }
}

/// Row `i` of the table that `disk_entry` reads.
pub open spec fn disk_row(i: int) -> (Seq<char>, Seq<char>, u64, Seq<char>) {
    if i == 0 {
        ("Samsung"@, "990 PRO"@, 2000, "NVMe"@)
    } else if i == 1 {
        ("Samsung"@, "870 EVO"@, 1000, "SATA"@)
    } else if i == 2 {
        ("WD"@, "Black SN850X"@, 2000, "NVMe"@)
    } else if i == 3 {
        ("WD"@, "Blue SN570"@, 500, "NVMe"@)
    } else if i == 4 {
        ("Seagate"@, "Barracuda"@, 2000, "HDD"@)
    } else if i == 5 {
        ("Crucial"@, "MX500"@, 1000, "SATA"@)
    } else if i == 6 {
        ("Kingston"@, "NV2"@, 1000, "NVMe"@)
    } else if i == 7 {
        ("Toshiba"@, "X300"@, 4000, "HDD"@)
    } else {
        ("Intel"@, "Optane 905P"@, 960, "NVMe"@)
    }
}

fn disk_entry(i: usize) -> (r: DiskInfo)
    requires
        i < 9,
    ensures
        (r.vendor@, r.model@, r.gigabytes, r.kind@) == disk_row(i as int),
{
    if i == 0 {
        DiskInfo { vendor: String::from_str("Samsung"), model: String::from_str("990 PRO"), gigabytes: 2000, kind: String::from_str("NVMe") }
    } else if i == 1 {
        DiskInfo { vendor: String::from_str("Samsung"), model: String::from_str("870 EVO"), gigabytes: 1000, kind: String::from_str("SATA") }
    } else if i == 2 {
        DiskInfo { vendor: String::from_str("WD"), model: String::from_str("Black SN850X"), gigabytes: 2000, kind: String::from_str("NVMe") }
    } else if i == 3 {
        DiskInfo { vendor: String::from_str("WD"), model: String::from_str("Blue SN570"), gigabytes: 500, kind: String::from_str("NVMe") }
    } else if i == 4 {
        DiskInfo { vendor: String::from_str("Seagate"), model: String::from_str("Barracuda"), gigabytes: 2000, kind: String::from_str("HDD") }
    } else if i == 5 {
        DiskInfo { vendor: String::from_str("Crucial"), model: String::from_str("MX500"), gigabytes: 1000, kind: String::from_str("SATA") }
    } else if i == 6 {
        DiskInfo { vendor: String::from_str("Kingston"), model: String::from_str("NV2"), gigabytes: 1000, kind: String::from_str("NVMe") }
    } else if i == 7 {
        DiskInfo { vendor: String::from_str("Toshiba"), model: String::from_str("X300"), gigabytes: 4000, kind: String::from_str("HDD") }
    } else {
        DiskInfo { vendor: String::from_str("Intel"), model: String::from_str("Optane 905P"), gigabytes: 960, kind: String::from_str("NVMe") }
    }
}

/// Row `i` of the table that `gpu_entry` reads.
pub open spec fn gpu_row(i: int) -> (Seq<char>, Seq<char>, u32) {
    if i == 0 {
        ("NVIDIA"@, "GeForce RTX 4090"@, 24)
    } else if i == 1 {
        ("NVIDIA"@, "GeForce RTX 4080"@, 16)
    } else if i == 2 {
        ("NVIDIA"@, "GeForce RTX 4070 Ti"@, 12)
    } else if i == 3 {
        ("NVIDIA"@, "GeForce RTX 3080"@, 10)
    } else if i == 4 {
        ("AMD"@, "Radeon RX 7900 XTX"@, 24)
    } else if i == 5 {
        ("AMD"@, "Radeon RX 7800 XT"@, 16)
    } else if i == 6 {
        ("AMD"@, "Radeon RX 6800"@, 16)
    } else if i == 7 {
        ("Intel"@, "Arc A770"@, 16)
    } else if i == 8 {
        ("Intel"@, "Arc A380"@, 6)
    } else {
        ("NVIDIA"@, "Quadro RTX 8000"@, 48)
    }
}

fn gpu_entry(i: usize) -> (r: GpuInfo)
    requires
        i < 10,
    ensures
        (r.vendor@, r.model@, r.vram_gigabytes) == gpu_row(i as int),
{
    if i == 0 {
        GpuInfo { vendor: String::from_str("NVIDIA"), model: String::from_str("GeForce RTX 4090"), vram_gigabytes: 24 }
    } else if i == 1 {
        GpuInfo { vendor: String::from_str("NVIDIA"), model: String::from_str("GeForce RTX 4080"), vram_gigabytes: 16 }
    } else if i == 2 {
        GpuInfo { vendor: String::from_str("NVIDIA"), model: String::from_str("GeForce RTX 4070 Ti"), vram_gigabytes: 12 }
    } else if i == 3 {
        GpuInfo { vendor: String::from_str("NVIDIA"), model: String::from_str("GeForce RTX 3080"), vram_gigabytes: 10 }
    } else if i == 4 {
        GpuInfo { vendor: String::from_str("AMD"), model: String::from_str("Radeon RX 7900 XTX"), vram_gigabytes: 24 }
    } else if i == 5 {
        GpuInfo { vendor: String::from_str("AMD"), model: String::from_str("Radeon RX 7800 XT"), vram_gigabytes: 16 }
    } else if i == 6 {
        GpuInfo { vendor: String::from_str("AMD"), model: String::from_str("Radeon RX 6800"), vram_gigabytes: 16 }
    } else if i == 7 {
        GpuInfo { vendor: String::from_str("Intel"), model: String::from_str("Arc A770"), vram_gigabytes: 16 }
    } else if i == 8 {
        GpuInfo { vendor: String::from_str("Intel"), model: String::from_str("Arc A380"), vram_gigabytes: 6 }
    } else {
        GpuInfo { vendor: String::from_str("NVIDIA"), model: String::from_str("Quadro RTX 8000"), vram_gigabytes: 48 }
    }
}

/// Row `i` of the table that `adapter_entry` reads.
pub open spec fn adapter_row(i: int) -> (Seq<char>, Seq<char>, Seq<char>) {
    if i == 0 {
        ("Intel"@, "I225-V 2.5GbE"@, "2.5 Gbps"@)
    } else if i == 1 {
        ("Intel"@, "X710 10GbE"@, "10 Gbps"@)
    } else if i == 2 {
        ("Realtek"@, "RTL8125"@, "2.5 Gbps"@)
    } else if i == 3 {
        ("Realtek"@, "RTL8111"@, "1 Gbps"@)
    } else if i == 4 {
        ("Broadcom"@, "BCM57416"@, "10 Gbps"@)
    } else if i == 5 {
        ("Mellanox"@, "ConnectX-6"@, "100 Gbps"@)
    } else if i == 6 {
        ("Intel"@, "Wi-Fi 6E AX211"@, "2.4 Gbps"@)
    } else {
        ("Qualcomm"@, "Atheros AR9485"@, "300 Mbps"@)
    }
}

fn adapter_entry(i: usize) -> (r: (String, String, String))
    requires
        i < 8,
    ensures
        (r.0@, r.1@, r.2@) == adapter_row(i as int),
{
    if i == 0 {
        (String::from_str("Intel"), String::from_str("I225-V 2.5GbE"), String::from_str("2.5 Gbps"))
    } else if i == 1 {
        (String::from_str("Intel"), String::from_str("X710 10GbE"), String::from_str("10 Gbps"))
    } else if i == 2 {
        (String::from_str("Realtek"), String::from_str("RTL8125"), String::from_str("2.5 Gbps"))
    } else if i == 3 {
        (String::from_str("Realtek"), String::from_str("RTL8111"), String::from_str("1 Gbps"))
    } else if i == 4 {
        (String::from_str("Broadcom"), String::from_str("BCM57416"), String::from_str("10 Gbps"))
    } else if i == 5 {
        (String::from_str("Mellanox"), String::from_str("ConnectX-6"), String::from_str("100 Gbps"))
    } else if i == 6 {
        (String::from_str("Intel"), String::from_str("Wi-Fi 6E AX211"), String::from_str("2.4 Gbps"))
    } else {
        (String::from_str("Qualcomm"), String::from_str("Atheros AR9485"), String::from_str("300 Mbps"))
    }
}

/// Row `i` of the table that `os_entry` reads.
pub open spec fn os_row(i: int) -> (Seq<char>, Seq<char>) {
    if i == 0 {
        ("Ubuntu"@, "22.04.3 LTS (Jammy Jellyfish)"@)
    } else if i == 1 {
        ("Fedora"@, "39 (Workstation Edition)"@)
    } else if i == 2 {
        ("Debian"@, "12 (Bookworm)"@)
    } else if i == 3 {
        ("Arch Linux"@, "Rolling Release"@)
    } else if i == 4 {
        ("openSUSE"@, "Tumbleweed"@)
    } else if i == 5 {
        ("Linux Mint"@, "21.2 (Victoria)"@)
    } else if i == 6 {
        ("Pop!_OS"@, "22.04 LTS"@)
    } else if i == 7 {
        ("Manjaro"@, "23.1 (Vulcan)"@)
    } else if i == 8 {
        ("CentOS Stream"@, "9"@)
    } else {
        ("Rocky Linux"@, "9.3"@)
    }
}

fn os_entry(i: usize) -> (r: OsInfo)
    requires
        i < 10,
    ensures
        (r.name@, r.version@) == os_row(i as int),
{
    if i == 0 {
        OsInfo { name: String::from_str("Ubuntu"), version: String::from_str("22.04.3 LTS (Jammy Jellyfish)") }
    } else if i == 1 {
        OsInfo { name: String::from_str("Fedora"), version: String::from_str("39 (Workstation Edition)") }
    } else if i == 2 {
        OsInfo { name: String::from_str("Debian"), version: String::from_str("12 (Bookworm)") }
    } else if i == 3 {
        OsInfo { name: String::from_str("Arch Linux"), version: String::from_str("Rolling Release") }
    } else if i == 4 {
        OsInfo { name: String::from_str("openSUSE"), version: String::from_str("Tumbleweed") }
    } else if i == 5 {
        OsInfo { name: String::from_str("Linux Mint"), version: String::from_str("21.2 (Victoria)") }
    } else if i == 6 {
        OsInfo { name: String::from_str("Pop!_OS"), version: String::from_str("22.04 LTS") }
    } else if i == 7 {
        OsInfo { name: String::from_str("Manjaro"), version: String::from_str("23.1 (Vulcan)") }
    } else if i == 8 {
        OsInfo { name: String::from_str("CentOS Stream"), version: String::from_str("9") }
    } else {
        OsInfo { name: String::from_str("Rocky Linux"), version: String::from_str("9.3") }
    }
}

/// Row `i` of the table that `kernel_entry` reads.
pub open spec fn kernel_row(i: int) -> Seq<char> {
    if i == 0 {
        "6.6.8-arch1-1"@
    } else if i == 1 {
        "6.5.0-14-generic"@
    } else if i == 2 {
        "6.1.52-gentoo"@
    } else if i == 3 {
        "5.15.0-91-generic"@
    } else if i == 4 {
        "6.6.6-200.fc39.x86_64"@
    } else if i == 5 {
        "6.4.12-1-MANJARO"@
    } else if i == 6 {
        "5.10.0-27-amd64"@
    } else {
        "6.2.16-300.fc38.x86_64"@
    }
}

fn kernel_entry(i: usize) -> (r: String)
    requires
        i < 8,
    ensures
        r@ == kernel_row(i as int),
{
    if i == 0 {
        String::from_str("6.6.8-arch1-1")
    } else if i == 1 {
        String::from_str("6.5.0-14-generic")
    } else if i == 2 {
        String::from_str("6.1.52-gentoo")
    } else if i == 3 {
        String::from_str("5.15.0-91-generic")
    } else if i == 4 {
        String::from_str("6.6.6-200.fc39.x86_64")
    } else if i == 5 {
        String::from_str("6.4.12-1-MANJARO")
    } else if i == 6 {
        String::from_str("5.10.0-27-amd64")
    } else {
        String::from_str("6.2.16-300.fc38.x86_64")
    }
}

/// Row `i` of the table that `bios_entry` reads.
pub open spec fn bios_row(i: int) -> (Seq<char>, Seq<char>, Seq<char>) {
    if i == 0 {
        ("American Megatrends"@, "UEFI"@, "3.5.2"@)
    } else if i == 1 {
        ("Phoenix"@, "UEFI"@, "2.1.0"@)
    } else if i == 2 {
        ("Insyde"@, "UEFI"@, "5.0"@)
    } else if i == 3 {
        ("Award"@, "Legacy BIOS"@, "6.0"@)
    } else if i == 4 {
        ("AMI"@, "Aptio V"@, "1.24"@)
    } else if i == 5 {
        ("Dell"@, "UEFI"@, "2.8.1"@)
    } else if i == 6 {
        ("HP"@, "UEFI"@, "F.47"@)
    } else {
        ("Lenovo"@, "UEFI"@, "N24ET82W"@)
    }
}

fn bios_entry(i: usize) -> (r: BiosInfo)
    requires
        i < 8,
    ensures
        (r.vendor@, r.kind@, r.version@) == bios_row(i as int),
{
    if i == 0 {
        BiosInfo { vendor: String::from_str("American Megatrends"), kind: String::from_str("UEFI"), version: String::from_str("3.5.2") }
    } else if i == 1 {
        BiosInfo { vendor: String::from_str("Phoenix"), kind: String::from_str("UEFI"), version: String::from_str("2.1.0") }
    } else if i == 2 {
        BiosInfo { vendor: String::from_str("Insyde"), kind: String::from_str("UEFI"), version: String::from_str("5.0") }
    } else if i == 3 {
        BiosInfo { vendor: String::from_str("Award"), kind: String::from_str("Legacy BIOS"), version: String::from_str("6.0") }
    } else if i == 4 {
        BiosInfo { vendor: String::from_str("AMI"), kind: String::from_str("Aptio V"), version: String::from_str("1.24") }
    } else if i == 5 {
        BiosInfo { vendor: String::from_str("Dell"), kind: String::from_str("UEFI"), version: String::from_str("2.8.1") }
    } else if i == 6 {
        BiosInfo { vendor: String::from_str("HP"), kind: String::from_str("UEFI"), version: String::from_str("F.47") }
    } else {
        BiosInfo { vendor: String::from_str("Lenovo"), kind: String::from_str("UEFI"), version: String::from_str("N24ET82W") }
    }
}

/// Line `i` of the score table of benchmark `kind`.
pub open spec fn score_row(kind: BenchmarkKind, i: int) -> (Seq<char>, Seq<char>) {
    match kind {
        BenchmarkKind::Cpu => {
            if i == 0 {
                ("Single-thread"@, "12,847 points"@)
            } else if i == 1 {
                ("Multi-thread"@, "98,432 points"@)
            } else if i == 2 {
                ("Floating point"@, "45,621 points"@)
            } else {
                ("Integer ops"@, "67,891 points"@)
            }
        },
        BenchmarkKind::Memory => {
            if i == 0 {
                ("Read"@, "52,341 MB/s"@)
            } else if i == 1 {
                ("Write"@, "48,762 MB/s"@)
            } else if i == 2 {
                ("Copy"@, "45,123 MB/s"@)
            } else {
                ("Latency"@, "68.4 ns"@)
            }
        },
        BenchmarkKind::Disk => {
            if i == 0 {
                ("Sequential Read"@, "3,521 MB/s"@)
            } else if i == 1 {
                ("Sequential Write"@, "3,012 MB/s"@)
            } else if i == 2 {
                ("Random Read 4K"@, "89,456 IOPS"@)
            } else {
                ("Random Write 4K"@, "76,234 IOPS"@)
            }
        },
    }
}

fn score(test: &str, result: &str) -> (r: BenchmarkScore)
    ensures
        r.test@ == test@,
        r.result@ == result@,
{
    BenchmarkScore { test: String::from_str(test), result: String::from_str(result) }
}

/// The score table of benchmark `kind`.
fn score_table(kind: BenchmarkKind) -> (r: Vec<BenchmarkScore>)
    ensures
        r@.len() == 4,
        forall|i: int| 0 <= i < 4 ==> ((#[trigger] r@[i]).test@, r@[i].result@) == score_row(kind, i),
{
    let mut r: Vec<BenchmarkScore> = Vec::new();
    match kind {
        BenchmarkKind::Cpu => {
            r.push(score("Single-thread", "12,847 points"));
            r.push(score("Multi-thread", "98,432 points"));
            r.push(score("Floating point", "45,621 points"));
            r.push(score("Integer ops", "67,891 points"));
        },
        BenchmarkKind::Memory => {
            r.push(score("Read", "52,341 MB/s"));
            r.push(score("Write", "48,762 MB/s"));
            r.push(score("Copy", "45,123 MB/s"));
            r.push(score("Latency", "68.4 ns"));
        },
        BenchmarkKind::Disk => {
            r.push(score("Sequential Read", "3,521 MB/s"));
            r.push(score("Sequential Write", "3,012 MB/s"));
            r.push(score("Random Read 4K", "89,456 IOPS"));
            r.push(score("Random Write 4K", "76,234 IOPS"));
        },
    }
    r
}

/// Facts drawn at random from tables of plausible hardware.
pub struct RandomFacts;

impl FactProvider for RandomFacts {
    fn cpu(&mut self) -> CpuInfo {
        cpu_entry(random_index(10))
    }

    fn memory(&mut self) -> MemoryInfo {
        memory_entry(random_index(8))
    }

    fn disk(&mut self) -> DiskInfo {
        disk_entry(random_index(9))
    }

    fn gpu(&mut self) -> GpuInfo {
        gpu_entry(random_index(10))
    }

    fn network(&mut self) -> NetworkInfo {
        let (vendor, model, speed) = adapter_entry(random_index(8));
        let mac = [
            random_byte(),
            random_byte(),
            random_byte(),
            random_byte(),
            random_byte(),
            random_byte(),
        ];
        let ip = self.ip_address();
        NetworkInfo { vendor, model, speed, mac, ip }
    }

    fn os(&mut self) -> OsInfo {
        os_entry(random_index(10))
    }

    fn kernel(&mut self) -> String {
        kernel_entry(random_index(8))
    }

    fn bios(&mut self) -> BiosInfo {
        bios_entry(random_index(8))
    }

    fn ip_address(&mut self) -> [u8; 4] {
        random_address()
    }

    fn updated_packages(&mut self) -> u64 {
        random_update_count()
    }

    fn key_id(&mut self) -> u64 {
        random_u64()
    }

    fn benchmark(&mut self, kind: BenchmarkKind) -> Vec<BenchmarkScore> {
        score_table(kind)
    }
}

} // verus!
