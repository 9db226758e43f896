use bigos::cpuinfo::{
    decode_cpu_info, decode_features, feature_name_str, get_vendor, CpuFeatureFlags, CpuInfo,
    CpuInfoTable, CpuVendor, CpuidRegs, AVX, HYPERVISOR, SSE2, TSC_DEADLINE, X2APIC,
};

fn intel_leaf0() -> CpuidRegs {
    CpuidRegs { eax: 0xd, ebx: 0x756e6547, ecx: 0x6c65746e, edx: 0x49656e69 }
}

fn intel_leaf1() -> CpuidRegs {
    CpuidRegs { eax: 0x000906EA, ebx: 0x00100800, ecx: 0x7FFAFBFF, edx: 0xBFEBFBFF }
}

#[test]
fn vendor_strings_are_recognised() {
    assert!(get_vendor(0x756e6547, 0x6c65746e, 0x49656e69) == CpuVendor::Intel);
    assert!(get_vendor(0x68747541, 0x444d4163, 0x69746e65) == CpuVendor::Amd);
    assert!(get_vendor(0, 0, 0) == CpuVendor::Unknown);
    // "GenuineIntel" with the registers in CPUID order (EBX, ECX, EDX) is not the vendor string.
    assert!(get_vendor(0x756e6547, 0x49656e69, 0x6c65746e) == CpuVendor::Unknown);
}

#[test]
fn vendor_names() {
    assert_eq!(CpuVendor::Intel.name(), "Intel");
    assert_eq!(CpuVendor::Amd.name(), "AMD");
    assert_eq!(CpuVendor::Unknown.name(), "Unknown");
}

#[test]
fn features_follow_cpuid_bits() {
    let f = decode_features(0x7FFAFBFF, 0xBFEBFBFF);
    assert_eq!(f.bits(), 0x3fff);
    assert!(f.has(TSC_DEADLINE));
    assert!(!f.has(HYPERVISOR));
    let only_hypervisor = decode_features(1 << 31, 0);
    assert_eq!(only_hypervisor.bits(), 1 << HYPERVISOR);
    let only_sse2 = decode_features(0, 1 << 26);
    assert_eq!(only_sse2.bits(), 1 << SSE2);
    assert_eq!(decode_features(0, 0).bits(), 0);
    // Bits that name no feature are ignored.
    assert_eq!(decode_features(1 << 5, 1 << 0).bits(), 0);
}

#[test]
fn decode_intel_core() {
    let info = decode_cpu_info(intel_leaf0(), intel_leaf1());
    assert!(info.vendor == CpuVendor::Intel);
    assert_eq!(info.family, 6);
    assert_eq!(info.model, 0x9E);
    assert_eq!(info.stepping, 0xF);
    assert_eq!(info.cache_line_size, 64);
    assert_eq!(info.apic_id, 0);
    assert_eq!(info.features.bits(), 0x3fff);
}

#[test]
fn decode_extended_family() {
    let leaf0 = CpuidRegs { eax: 0x10, ebx: 0x68747541, ecx: 0x444d4163, edx: 0x69746e65 };
    let leaf1 = CpuidRegs { eax: 0x00A20F12, ebx: 0x05020800, ecx: 0, edx: 0x7 };
    let info = decode_cpu_info(leaf0, leaf1);
    assert!(info.vendor == CpuVendor::Amd);
    assert_eq!(info.family, 0xF + 0xA);
    assert_eq!(info.model, 0x21);
    assert_eq!(info.stepping, 7);
    assert_eq!(info.apic_id, 5);
    assert_eq!(info.cache_line_size, 64);
}

#[test]
fn decode_old_family_ignores_extended_model() {
    let leaf1 = CpuidRegs { eax: 0x00050563, ebx: 0x00000400, ecx: 0, edx: 0 };
    let info = decode_cpu_info(intel_leaf0(), leaf1);
    assert_eq!(info.family, 5);
    assert_eq!(info.model, 6);
    assert_eq!(info.cache_line_size, 32);
}

#[test]
fn feature_names_in_order() {
    let f = decode_features(0x7FFAFBFF, 0xBFEBFBFF);
    assert_eq!(
        f.to_feature_names(),
        vec![
            "APIC", "X2APIC", "TSC", "TSC Deadline", "PGE", "PAT", "SSE", "SSE2", "SSE3",
            "SSE4.1", "SSE4.2", "AVX", "AES", "RDRAND"
        ]
    );
    assert!(CpuFeatureFlags::empty().to_feature_names().is_empty());
    assert_eq!(CpuFeatureFlags::all().to_feature_names().len(), 15);
    assert_eq!(feature_name_str(HYPERVISOR), "Hypervisor");
}

#[test]
fn flag_operations() {
    let mut f = CpuFeatureFlags::empty();
    assert!(f.is_empty());
    f.insert(CpuFeatureFlags::feature(AVX));
    f.insert(CpuFeatureFlags::feature(X2APIC));
    assert!(f.contains(CpuFeatureFlags::feature(AVX)));
    assert!(!f.contains(CpuFeatureFlags::feature(SSE2)));
    assert_eq!(CpuFeatureFlags::from_bits_truncate(0xffff_ffff).bits(), 0x7fff);
}

#[test]
fn compact_string() {
    let info = decode_cpu_info(intel_leaf0(), intel_leaf1());
    assert_eq!(
        info.to_compact_string(),
        "CPU: Intel (Family 6, Model 158), APIC ID: 0, Cache: 64B, Features: [APICX2APICTSCTSC DeadlinePGEPATSSESSE2SSE3SSE4.1SSE4.2AVXAESRDRAND]"
    );
    let bare = CpuInfo {
        features: CpuFeatureFlags::empty(),
        cache_line_size: 0,
        apic_id: 3,
        model: 0,
        stepping: 0,
        family: 0,
        vendor: CpuVendor::Unknown,
    };
    assert_eq!(
        bare.to_compact_string(),
        "CPU: Unknown (Family 0, Model 0), APIC ID: 3, Cache: 0B, Features: [none]"
    );
}

#[test]
fn pretty_string() {
    let info = decode_cpu_info(intel_leaf0(), intel_leaf1());
    let expected = "  CPU Information:\n  Vendor: Intel\n  Family: 6, Model: 158, Stepping: 15\n  APIC ID: 0\n  Cache Line Size: 64 bytes\n  Features:\n    APIC        , X2APIC      , TSC         , TSC Deadline\n    PGE         , PAT         , SSE         , SSE2        \n    SSE3        , SSE4.1      , SSE4.2      , AVX         \n    AES         , RDRAND      \n";
    assert_eq!(info.to_pretty_string(), expected);
}

#[test]
fn pretty_string_without_features() {
    let info = CpuInfo {
        features: CpuFeatureFlags::empty(),
        cache_line_size: 64,
        apic_id: 1,
        model: 2,
        stepping: 3,
        family: 4,
        vendor: CpuVendor::Amd,
    };
    let expected = "  CPU Information:\n  Vendor: AMD\n  Family: 4, Model: 2, Stepping: 3\n  APIC ID: 1\n  Cache Line Size: 64 bytes\n  Features:\n    <none detected>\n";
    assert_eq!(info.to_pretty_string(), expected);
}

#[test]
fn per_core_table_keeps_other_cores() {
    let mut table = CpuInfoTable::new();
    assert!(table.get_cpu_info_for_core(2).vendor == CpuVendor::Unknown);
    table.init_cpu_info_for_core(2, intel_leaf0(), intel_leaf1());
    assert!(table.get_cpu_info_for_core(2).vendor == CpuVendor::Intel);
    assert_eq!(table.get_cpu_info_for_core(2).model, 0x9E);
    assert!(table.get_cpu_info_for_core(1).vendor == CpuVendor::Unknown);
    assert_eq!(table.get_cpu_info_for_core(3).family, 0);
}

#[test]
fn feature_names_of_subsets() {
    let all = CpuFeatureFlags::all().to_feature_names();
    assert_eq!(all.len(), 15);
    for i in 0..all.len() {
        for j in (i + 1)..all.len() {
            assert_ne!(all[i], all[j]);
        }
    }
    let big = CpuFeatureFlags::from_bits_truncate(0b0110_1010_1100_1011);
    let small = CpuFeatureFlags::from_bits_truncate(0b0100_0000_1000_0010);
    assert!(big.contains(small));
    let big_names = big.to_feature_names();
    let small_names = small.to_feature_names();
    assert_eq!(big_names.len(), (big.bits() & 0x7fff).count_ones() as usize);
    assert_eq!(small_names, vec!["X2APIC", "SSE2", "Hypervisor"]);
    let mut at = 0;
    for name in &small_names {
        while big_names[at] != *name {
            at += 1;
        }
        at += 1;
    }
}
