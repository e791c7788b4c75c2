//! The capability probe's pure logic on concrete readings.

use rhizos_node::hardware::{assemble_capabilities, detect_cpu_architecture,
    detect_cpu_features, detect_storage_type, dedup_strings, parse_smi_output,
    parse_docker_version, parse_u64_or_zero, trim_str, CpuArchitecture, StorageType,
    StorageCapability};

#[test]
fn architecture_tags() {
    assert_eq!(detect_cpu_architecture("x86_64"), CpuArchitecture::X86_64);
    assert_eq!(detect_cpu_architecture("aarch64"), CpuArchitecture::Aarch64);
    assert_eq!(detect_cpu_architecture("arm"), CpuArchitecture::Arm);
    assert_eq!(detect_cpu_architecture("riscv64"), CpuArchitecture::Unknown);
}

#[test]
fn feature_list_follows_the_flags() {
    assert_eq!(detect_cpu_features(true, true, false, true, false),
        vec![String::from("avx"), String::from("avx2"), String::from("sse4.2")]);
    assert!(detect_cpu_features(false, false, false, false, false).is_empty());
    assert_eq!(detect_cpu_features(false, false, true, false, true),
        vec![String::from("avx512"), String::from("fma")]);
}

#[test]
fn storage_class_from_device_name() {
    assert_eq!(detect_storage_type("/dev/nvme0n1p2"), StorageType::Nvme);
    assert_eq!(detect_storage_type("samsung-ssd-870"), StorageType::Ssd);
    assert_eq!(detect_storage_type("/dev/sda1"), StorageType::Ssd);
}

#[test]
fn snapshot_invariants_are_established() {
    let caps = assemble_capabilities(
        String::from("id"), String::from("0.1.0"), String::from("v"), String::from("m"),
        8, 4, 3000, CpuArchitecture::X86_64,
        vec![String::from("avx"), String::from("avx"), String::from("fma")],
        16384, 20000,
        StorageCapability { total_gb: 100, available_gb: 50, storage_type: StorageType::Ssd },
        vec![], None, vec![String::from("docker")],
    );
    assert!(caps.cpu.threads >= caps.cpu.cores, "threads are clamped up to the cores");
    assert_eq!(caps.cpu.threads, 8);
    assert!(caps.memory.available_mb <= caps.memory.total_mb);
    assert_eq!(caps.memory.available_mb, 16384);
    assert_eq!(caps.cpu.features, vec![String::from("avx"), String::from("fma")],
        "the feature list is deduplicated");
}

#[test]
fn dedup_keeps_first_occurrences() {
    let out = dedup_strings(vec![
        String::from("a"), String::from("b"), String::from("a"), String::from("c"),
        String::from("b"),
    ]);
    assert_eq!(out, vec![String::from("a"), String::from("b"), String::from("c")]);
}

#[test]
fn smi_output_parses_per_line() {
    let text = "GeForce RTX 3060, 12288, 535.54, 8.6\nGeForce GT 710, 2048, 535.54\n";
    let gpus = parse_smi_output(text);
    assert_eq!(gpus.len(), 2);
    assert_eq!(gpus[0].vendor, "nvidia");
    assert_eq!(gpus[0].model, "GeForce RTX 3060");
    assert_eq!(gpus[0].vram_mb, 12288);
    assert_eq!(gpus[0].driver_version, "535.54");
    assert_eq!(gpus[0].compute_capability.as_deref(), Some("8.6"));
    assert!(gpus[0].supports.cuda && gpus[0].supports.vulkan && gpus[0].supports.opencl);
    assert!(!gpus[0].supports.rocm && !gpus[0].supports.metal);
    assert_eq!(gpus[1].model, "GeForce GT 710");
    assert_eq!(gpus[1].compute_capability, None);
    assert!(parse_smi_output("garbage without separators\n").is_empty());
    assert!(parse_smi_output("").is_empty());
}

#[test]
fn docker_version_banner() {
    assert_eq!(parse_docker_version("Docker version 24.0.5, build ced0996").as_deref(),
        Some("24.0.5"));
    assert_eq!(parse_docker_version("podman went wrong"), None);
}

#[test]
fn number_fields_read_best_effort() {
    assert_eq!(parse_u64_or_zero("12288"), 12288);
    assert_eq!(parse_u64_or_zero("0012"), 12);
    assert_eq!(parse_u64_or_zero(""), 0);
    assert_eq!(parse_u64_or_zero("12x"), 0);
    assert_eq!(parse_u64_or_zero("18446744073709551615"), 18446744073709551615);
    assert_eq!(parse_u64_or_zero("18446744073709551616"), 0);
    assert_eq!(parse_u64_or_zero("000000000000000000021"), 21);
}

#[test]
fn trimming() {
    assert_eq!(trim_str("  8.6 \r\n"), "8.6");
    assert_eq!(trim_str("plain"), "plain");
    assert_eq!(trim_str("   "), "");
}
