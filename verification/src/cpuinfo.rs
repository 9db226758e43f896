//! CPUID decoding: vendor, family/model/stepping, feature flags, and their text forms.

use vstd::prelude::*;
use crate::MAX_CORES;
use crate::text::{decimal, is_subsequence, picks, push_char, push_decimal};
use vstd::string::StringExecFns;
use vstd::string::StrSliceExecFns;

verus! {

/// Number of distinct CPU features that `CpuFeatureFlags` can hold.
pub const FEATURE_COUNT: u32 = 15;

/// Mask of all the bits that name a feature.
pub const ALL_FEATURE_BITS: u32 = 0x7fff;

/// The CPU features that the kernel looks for, one bit each (bit `i` is the
/// feature of index `i`, see `feature_name`).
#[derive(Clone, Copy, PartialEq, Eq, Structural)]
pub struct CpuFeatureFlags {
    pub bits: u32,
}

/// Index of the "APIC" feature bit.
pub const APIC: u32 = 0;
/// Index of the "X2APIC" feature bit.
pub const X2APIC: u32 = 1;
/// Index of the "TSC" feature bit.
pub const TSC: u32 = 2;
/// Index of the "TSC deadline" feature bit.
pub const TSC_DEADLINE: u32 = 3;
/// Index of the "PGE" feature bit.
pub const PGE: u32 = 4;
/// Index of the "PAT" feature bit.
pub const PAT: u32 = 5;
/// Index of the "SSE" feature bit.
pub const SSE: u32 = 6;
/// Index of the "SSE2" feature bit.
pub const SSE2: u32 = 7;
/// Index of the "SSE3" feature bit.
pub const SSE3: u32 = 8;
/// Index of the "SSE4.1" feature bit.
pub const SSE4_1: u32 = 9;
/// Index of the "SSE4.2" feature bit.
pub const SSE4_2: u32 = 10;
/// Index of the "AVX" feature bit.
pub const AVX: u32 = 11;
/// Index of the "AES" feature bit.
pub const AES: u32 = 12;
/// Index of the "RDRAND" feature bit.
pub const RDRAND: u32 = 13;
/// Index of the "hypervisor present" feature bit.
pub const HYPERVISOR: u32 = 14;

/// Whether bit `i` of `bits` is set.
pub open spec fn bit_set(bits: u32, i: u32) -> bool {
    bits & (1u32 << i) != 0
}

impl CpuFeatureFlags {
    /// No feature.
    pub fn empty() -> (r: Self)
        ensures
            r.bits == 0,
    {
        CpuFeatureFlags { bits: 0 }
    }

    /// Every feature.
    pub fn all() -> (r: Self)
        ensures
            r.bits == ALL_FEATURE_BITS,
    {
        CpuFeatureFlags { bits: ALL_FEATURE_BITS }
    }

    /// The single feature of index `index`.
    pub fn feature(index: u32) -> (r: Self)
        requires
            index < FEATURE_COUNT,
        ensures
            r.bits == 1u32 << index,
    {
        CpuFeatureFlags { bits: 1u32 << index }
    }

    /// The raw bits.
    pub fn bits(&self) -> (r: u32)
        ensures
            r == self.bits,
    {
        self.bits
    }

    /// The flags of `bits`, with the bits that name no feature cleared.
    pub fn from_bits_truncate(bits: u32) -> (r: Self)
        ensures
            r.bits == bits & ALL_FEATURE_BITS,
    {
        CpuFeatureFlags { bits: bits & ALL_FEATURE_BITS }
    }

    /// Whether no feature is set.
    pub fn is_empty(&self) -> (r: bool)
        ensures
            r == (self.bits == 0),
    {
        self.bits == 0
    }

    /// Whether every feature of `other` is also in `self`.
    pub fn contains(&self, other: CpuFeatureFlags) -> (r: bool)
        ensures
            r == (self.bits & other.bits == other.bits),
    {
        self.bits & other.bits == other.bits
    }

    /// Adds the features of `other`.
    pub fn insert(&mut self, other: CpuFeatureFlags)
        ensures
            final(self).bits == old(self).bits | other.bits,
    {
        self.bits = self.bits | other.bits;
    }

    /// Whether the feature of index `index` is set.
    pub fn has(&self, index: u32) -> (r: bool)
        requires
            index < FEATURE_COUNT,
        ensures
            r == bit_set(self.bits, index),
    {
        self.bits & (1u32 << index) != 0
    }
}


/// Whether bit `bit` of `reg` is set (for bits of CPUID registers).
pub open spec fn reg_bit(reg: u32, bit: u32) -> bool {
    reg & (1u32 << bit) != 0
}

/// Where CPUID leaf 1 reports the feature of index `index`: `true` for ECX,
/// `false` for EDX, and the bit position in that register.
pub open spec fn feature_source(index: u32) -> (bool, u32) {
    if index == APIC {
        (false, 9)
    } else if index == X2APIC {
        (true, 21)
    } else if index == TSC {
        (false, 4)
    } else if index == TSC_DEADLINE {
        (true, 24)
    } else if index == PGE {
        (false, 13)
    } else if index == PAT {
        (false, 16)
    } else if index == SSE {
        (false, 25)
    } else if index == SSE2 {
        (false, 26)
    } else if index == SSE3 {
        (true, 0)
    } else if index == SSE4_1 {
        (true, 19)
    } else if index == SSE4_2 {
        (true, 20)
    } else if index == AVX {
        (true, 28)
    } else if index == AES {
        (true, 25)
    } else if index == RDRAND {
        (true, 30)
    } else {
        (true, 31)
    }
}

/// Whether CPUID leaf 1 (with registers `ecx`, `edx`) reports the feature of index `index`.
pub open spec fn feature_reported(ecx: u32, edx: u32, index: u32) -> bool {
    let (in_ecx, bit) = feature_source(index);
    if in_ecx {
        reg_bit(ecx, bit)
    } else {
        reg_bit(edx, bit)
    }
}

/// `flags` holds exactly the features that CPUID leaf 1 reports in `ecx` and `edx`.
pub open spec fn features_match_cpuid(flags: CpuFeatureFlags, ecx: u32, edx: u32) -> bool {
    &&& flags.bits <= ALL_FEATURE_BITS
    &&& forall|i: u32| i < FEATURE_COUNT ==> #[trigger] bit_set(flags.bits, i) == feature_reported(ecx, edx, i)
}

/// Each feature flag follows the CPUID leaf 1 bit that the architecture
/// gives it: APIC is EDX bit 9, x2APIC ECX 21, TSC EDX 4, TSC deadline ECX
/// 24, PGE EDX 13, PAT EDX 16, SSE EDX 25, SSE2 EDX 26, SSE3 ECX 0, SSE4.1
/// ECX 19, SSE4.2 ECX 20, AVX ECX 28, AES ECX 25, RDRAND ECX 30 and the
/// hypervisor bit ECX 31; no other flag bit is ever set.
pub proof fn lemma_cpuid_feature_bits(flags: CpuFeatureFlags, ecx: u32, edx: u32)
    requires
        features_match_cpuid(flags, ecx, edx),
    ensures
        (flags.bits & 0x0001 != 0) == (edx & 0x0000_0200 != 0),
        (flags.bits & 0x0002 != 0) == (ecx & 0x0020_0000 != 0),
        (flags.bits & 0x0004 != 0) == (edx & 0x0000_0010 != 0),
        (flags.bits & 0x0008 != 0) == (ecx & 0x0100_0000 != 0),
        (flags.bits & 0x0010 != 0) == (edx & 0x0000_2000 != 0),
        (flags.bits & 0x0020 != 0) == (edx & 0x0001_0000 != 0),
        (flags.bits & 0x0040 != 0) == (edx & 0x0200_0000 != 0),
        (flags.bits & 0x0080 != 0) == (edx & 0x0400_0000 != 0),
        (flags.bits & 0x0100 != 0) == (ecx & 0x0000_0001 != 0),
        (flags.bits & 0x0200 != 0) == (ecx & 0x0008_0000 != 0),
        (flags.bits & 0x0400 != 0) == (ecx & 0x0010_0000 != 0),
        (flags.bits & 0x0800 != 0) == (ecx & 0x1000_0000 != 0),
        (flags.bits & 0x1000 != 0) == (ecx & 0x0200_0000 != 0),
        (flags.bits & 0x2000 != 0) == (ecx & 0x4000_0000 != 0),
        (flags.bits & 0x4000 != 0) == (ecx & 0x8000_0000 != 0),
        flags.bits & !0x7fffu32 == 0,
{
    let b = flags.bits;
    assert(bit_set(b, 0) == feature_reported(ecx, edx, 0));
    assert(bit_set(b, 1) == feature_reported(ecx, edx, 1));
    assert(bit_set(b, 2) == feature_reported(ecx, edx, 2));
    assert(bit_set(b, 3) == feature_reported(ecx, edx, 3));
    assert(bit_set(b, 4) == feature_reported(ecx, edx, 4));
    assert(bit_set(b, 5) == feature_reported(ecx, edx, 5));
    assert(bit_set(b, 6) == feature_reported(ecx, edx, 6));
    assert(bit_set(b, 7) == feature_reported(ecx, edx, 7));
    assert(bit_set(b, 8) == feature_reported(ecx, edx, 8));
    assert(bit_set(b, 9) == feature_reported(ecx, edx, 9));
    assert(bit_set(b, 10) == feature_reported(ecx, edx, 10));
    assert(bit_set(b, 11) == feature_reported(ecx, edx, 11));
    assert(bit_set(b, 12) == feature_reported(ecx, edx, 12));
    assert(bit_set(b, 13) == feature_reported(ecx, edx, 13));
    assert(bit_set(b, 14) == feature_reported(ecx, edx, 14));
    assert(1u32 << 0u32 == 0x1u32 && 1u32 << 1u32 == 0x2u32 && 1u32 << 2u32 == 0x4u32 && 1u32 << 3u32 == 0x8u32
        && 1u32 << 4u32 == 0x10u32 && 1u32 << 5u32 == 0x20u32 && 1u32 << 6u32 == 0x40u32 && 1u32 << 7u32
        == 0x80u32 && 1u32 << 8u32 == 0x100u32 && 1u32 << 9u32 == 0x200u32 && 1u32 << 10u32 == 0x400u32
        && 1u32 << 11u32 == 0x800u32 && 1u32 << 12u32 == 0x1000u32 && 1u32 << 13u32 == 0x2000u32 && 1u32
        << 14u32 == 0x4000u32 && 1u32 << 16u32 == 0x1_0000u32 && 1u32 << 19u32 == 0x8_0000u32 && 1u32 << 20u32 == 0x10_0000u32
        && 1u32 << 21u32 == 0x20_0000u32 && 1u32 << 24u32 == 0x100_0000u32 && 1u32 << 25u32 == 0x200_0000u32
        && 1u32 << 26u32 == 0x400_0000u32 && 1u32 << 28u32 == 0x1000_0000u32 && 1u32 << 30u32
        == 0x4000_0000u32 && 1u32 << 31u32 == 0x8000_0000u32 && (b <= 0x7fff ==> b & !0x7fffu32 == 0)) by (bit_vector);
}

/// Where CPUID leaf 1 reports the feature of index `index`.
fn feature_source_of(index: u32) -> (r: (bool, u32))
    requires
        index < FEATURE_COUNT,
    ensures
        r == feature_source(index),
        r.1 < 32,
{
    if index == APIC {
        (false, 9)
    } else if index == X2APIC {
        (true, 21)
    } else if index == TSC {
        (false, 4)
    } else if index == TSC_DEADLINE {
        (true, 24)
    } else if index == PGE {
        (false, 13)
    } else if index == PAT {
        (false, 16)
    } else if index == SSE {
        (false, 25)
    } else if index == SSE2 {
        (false, 26)
    } else if index == SSE3 {
        (true, 0)
    } else if index == SSE4_1 {
        (true, 19)
    } else if index == SSE4_2 {
        (true, 20)
    } else if index == AVX {
        (true, 28)
    } else if index == AES {
        (true, 25)
    } else if index == RDRAND {
        (true, 30)
    } else {
        (true, 31)
    }
}

proof fn lemma_bit_of_or(b: u32, i: u32, j: u32)
    requires
        i < 32,
        j < 32,
    ensures
        bit_set(b | (1u32 << i), j) == (bit_set(b, j) || i == j),
{
    assert(bit_set(b | (1u32 << i), j) == (bit_set(b, j) || i == j)) by (bit_vector)
        requires
            i < 32,
            j < 32,
    ;
}

proof fn lemma_below_power(b: u32, i: u32)
    requires
        i < 31,
        b < (1u32 << i),
    ensures
        !bit_set(b, i),
        b | (1u32 << i) < (1u32 << ((i + 1) as u32)),
        b < (1u32 << ((i + 1) as u32)),
{
    assert(!bit_set(b, i)) by (bit_vector)
        requires
            i < 31,
            b < (1u32 << i),
    ;
    assert(b | (1u32 << i) < (1u32 << ((i + 1) as u32)) && b < (1u32 << ((i + 1) as u32)))
        by (bit_vector)
        requires
            i < 31,
            b < (1u32 << i),
    ;
}

/// The feature flags that CPUID leaf 1 reports in its ECX and EDX registers.
pub fn decode_features(ecx: u32, edx: u32) -> (r: CpuFeatureFlags)
    ensures
        features_match_cpuid(r, ecx, edx),
{
    let mut bits: u32 = 0;
    let mut i: u32 = 0;
    assert(0u32 < (1u32 << 0u32)) by (bit_vector);
    while i < FEATURE_COUNT
        invariant
            i <= FEATURE_COUNT,
            bits < (1u32 << i),
            forall|j: u32| j < i ==> #[trigger] bit_set(bits, j) == feature_reported(ecx, edx, j),
        decreases FEATURE_COUNT - i,
    {
        let (in_ecx, bit) = feature_source_of(i);
        let reg = if in_ecx { ecx } else { edx };
        let old_bits = bits;
        proof {
            lemma_below_power(old_bits, i);
        }
        if reg & (1u32 << bit) != 0 {
            bits = bits | (1u32 << i);
        }
        proof {
            assert forall|j: u32| j < i + 1 implies #[trigger] bit_set(bits, j) == feature_reported(ecx, edx, j) by {
                lemma_bit_of_or(old_bits, i, j);
            }
        }
        i = i + 1;
    }
    assert((1u32 << 15u32) == 0x8000u32) by (bit_vector);
    CpuFeatureFlags { bits }
}

/// The CPU vendors that the kernel tells apart.
#[derive(Clone, Copy, PartialEq, Eq, Structural)]
pub enum CpuVendor {
    Unknown,
    Intel,
    Amd,
}

/// The twelve bytes of the vendor string of CPUID leaf 0: EBX, then EDX, then
/// ECX, each little-endian.
pub open spec fn vendor_signature(ebx: u32, ecx: u32, edx: u32) -> Seq<u8> {
    seq![
        ebx as u8, (ebx >> 8) as u8, (ebx >> 16) as u8, (ebx >> 24) as u8,
        edx as u8, (edx >> 8) as u8, (edx >> 16) as u8, (edx >> 24) as u8,
        ecx as u8, (ecx >> 8) as u8, (ecx >> 16) as u8, (ecx >> 24) as u8,
    ]
}

/// The bytes of "GenuineIntel".
pub open spec fn genuine_intel() -> Seq<u8> {
    seq![0x47u8, 0x65, 0x6e, 0x75, 0x69, 0x6e, 0x65, 0x49, 0x6e, 0x74, 0x65, 0x6c]
}

/// The bytes of "AuthenticAMD".
pub open spec fn authentic_amd() -> Seq<u8> {
    seq![0x41u8, 0x75, 0x74, 0x68, 0x65, 0x6e, 0x74, 0x69, 0x63, 0x41, 0x4d, 0x44]
}

/// The vendor that a vendor string names.
pub open spec fn vendor_of(signature: Seq<u8>) -> CpuVendor {
    if signature == genuine_intel() {
        CpuVendor::Intel
    } else if signature == authentic_amd() {
        CpuVendor::Amd
    } else {
        CpuVendor::Unknown
    }
}

fn bytes_equal(a: &Vec<u8>, b: &Vec<u8>) -> (r: bool)
    ensures
        r == (a@ == b@),
{
    if a.len() != b.len() {
        return false;
    }
    let mut i: usize = 0;
    while i < a.len()
        invariant
            a.len() == b.len(),
            i <= a.len(),
            forall|k: int| 0 <= k < i ==> a@[k] == b@[k],
        decreases a.len() - i,
    {
        if a[i] != b[i] {
            return false;
        }
        i = i + 1;
    }
    assert(a@ =~= b@);
    true
}

/// The vendor named by the registers EBX, ECX, EDX of CPUID leaf 0.
pub fn get_vendor(ebx: u32, ecx: u32, edx: u32) -> (v: CpuVendor)
    ensures
        v == vendor_of(vendor_signature(ebx, ecx, edx)),
{
    let signature: Vec<u8> = vec![
        ebx as u8, (ebx >> 8) as u8, (ebx >> 16) as u8, (ebx >> 24) as u8,
        edx as u8, (edx >> 8) as u8, (edx >> 16) as u8, (edx >> 24) as u8,
        ecx as u8, (ecx >> 8) as u8, (ecx >> 16) as u8, (ecx >> 24) as u8,
    ];
    let intel: Vec<u8> = vec![0x47u8, 0x65, 0x6e, 0x75, 0x69, 0x6e, 0x65, 0x49, 0x6e, 0x74, 0x65, 0x6c];
    let amd: Vec<u8> = vec![0x41u8, 0x75, 0x74, 0x68, 0x65, 0x6e, 0x74, 0x69, 0x63, 0x41, 0x4d, 0x44];
    assert(signature@ =~= vendor_signature(ebx, ecx, edx));
    assert(intel@ =~= genuine_intel());
    assert(amd@ =~= authentic_amd());
    if bytes_equal(&signature, &intel) {
        CpuVendor::Intel
    } else if bytes_equal(&signature, &amd) {
        CpuVendor::Amd
    } else {
        CpuVendor::Unknown
    }
}


/// The four registers that one CPUID leaf returns.
#[derive(Clone, Copy, PartialEq, Eq, Structural)]
pub struct CpuidRegs {
    pub eax: u32,
    pub ebx: u32,
    pub ecx: u32,
    pub edx: u32,
}

/// What the kernel knows of one core.
#[derive(Clone, Copy, PartialEq, Eq, Structural)]
pub struct CpuInfo {
    pub features: CpuFeatureFlags,
    pub cache_line_size: u8,
    pub apic_id: u8,
    pub model: u8,
    pub stepping: u8,
    pub family: u16,
    pub vendor: CpuVendor,
}

/// The base family field (bits 8..12) of CPUID leaf 1's EAX.
pub open spec fn base_family(eax: u32) -> u32 {
    (eax >> 8) & 0xF
}

/// The base model field (bits 4..8) of CPUID leaf 1's EAX.
pub open spec fn base_model(eax: u32) -> u32 {
    (eax >> 4) & 0xF
}

/// The display family: the base family, plus the extended family (bits
/// 20..28) where the base family is 0xF.
pub open spec fn display_family(eax: u32) -> u16 {
    if base_family(eax) == 0xF {
        (base_family(eax) + ((eax >> 20) & 0xFF)) as u16
    } else {
        base_family(eax) as u16
    }
}

/// The display model: the base model, with the extended model (bits 16..20)
/// as its high nibble where the base family is 6 or 0xF.
pub open spec fn display_model(eax: u32) -> u8 {
    if base_family(eax) == 0x6 || base_family(eax) == 0xF {
        ((((eax >> 16) & 0xF) << 4) | base_model(eax)) as u8
    } else {
        base_model(eax) as u8
    }
}

/// The CLFLUSH line size field (bits 8..16) of CPUID leaf 1's EBX, in units of 8 bytes.
pub open spec fn clflush_units(ebx: u32) -> u32 {
    (ebx >> 8) & 0xFF
}

/// The CLFLUSH line size field of CPUID leaf 1's EBX, in units of 8 bytes.
pub fn clflush_units_of(ebx: u32) -> (r: u32)
    ensures
        r == clflush_units(ebx),
        r <= 0xFF,
{
    assert((ebx >> 8) & 0xFF <= 0xFF) by (bit_vector);
    (ebx >> 8) & 0xFF
}

/// `info` is what the kernel records for a core whose CPUID leaf 0 and leaf 1
/// registers are `leaf0` and `leaf1`.
pub open spec fn cpu_info_decodes(info: CpuInfo, leaf0: CpuidRegs, leaf1: CpuidRegs) -> bool {
    &&& features_match_cpuid(info.features, leaf1.ecx, leaf1.edx)
    &&& info.cache_line_size == clflush_units(leaf1.ebx) * 8
    &&& info.apic_id == (leaf1.ebx >> 24) & 0xFF
    &&& info.model == display_model(leaf1.eax)
    &&& info.stepping == leaf1.edx & 0xF
    &&& info.family == display_family(leaf1.eax)
    &&& info.vendor == vendor_of(vendor_signature(leaf0.ebx, leaf0.ecx, leaf0.edx))
}

/// Decodes CPUID leaf 0 (highest leaf and vendor) and leaf 1 (version and
/// features) into the information kept for a core.
///
/// Leaf 0 must report leaf 1 as available, and the CLFLUSH line size must fit
/// a byte once multiplied by 8.
pub fn decode_cpu_info(leaf0: CpuidRegs, leaf1: CpuidRegs) -> (info: CpuInfo)
    requires
        leaf0.eax >= 1,
        clflush_units(leaf1.ebx) * 8 <= 255,
    ensures
        cpu_info_decodes(info, leaf0, leaf1),
{
    let feat_eax = leaf1.eax;
    let feat_ebx = leaf1.ebx;
    let base_family: u8 = ((feat_eax >> 8) & 0xF) as u8;
    let base_model: u8 = ((feat_eax >> 4) & 0xF) as u8;
    assert((feat_eax >> 8) & 0xF <= 0xF) by (bit_vector);
    assert((feat_eax >> 4) & 0xF <= 0xF) by (bit_vector);
    assert((feat_eax >> 20) & 0xFF <= 0xFF) by (bit_vector);
    let display_family: u16 = if base_family == 0xF {
        base_family as u16 + (((feat_eax >> 20) & 0xFF) as u16)
    } else {
        base_family as u16
    };
    let display_model: u8 = (if base_family == 0x6 || base_family == 0xF {
        (((feat_eax >> 16) & 0xF) << 4) | (base_model as u32)
    } else {
        base_model as u32
    }) as u8;
    let features = decode_features(leaf1.ecx, leaf1.edx);
    assert((feat_ebx >> 8) & 0xFF <= 0xFF) by (bit_vector);
    let cache_line_size: u8 = ((feat_ebx >> 8) & 0xFF) as u8 * 8;
    assert((feat_ebx >> 24) & 0xFF <= 0xFF) by (bit_vector);
    let apic_id: u8 = ((feat_ebx >> 24) & 0xFF) as u8;
    let feat_edx = leaf1.edx;
    assert(feat_edx & 0xF <= 0xF) by (bit_vector);
    let stepping: u8 = (feat_edx & 0xF) as u8;
    let vendor = get_vendor(leaf0.ebx, leaf0.ecx, leaf0.edx);
    CpuInfo {
        features,
        cache_line_size,
        apic_id,
        model: display_model,
        stepping,
        family: display_family,
        vendor,
    }
}


/// What is known of a core before its CPUID has been read.
pub open spec fn unknown_cpu_info() -> CpuInfo {
    CpuInfo {
        features: CpuFeatureFlags { bits: 0 },
        cache_line_size: 0,
        apic_id: 0,
        model: 0,
        stepping: 0,
        family: 0,
        vendor: CpuVendor::Unknown,
    }
}

/// The information of every supported core, indexed by core id.
pub struct CpuInfoTable {
    infos: Vec<CpuInfo>,
}

impl View for CpuInfoTable {
    type V = Seq<CpuInfo>;

    closed spec fn view(&self) -> Seq<CpuInfo> {
        self.infos@
    }
}

impl CpuInfoTable {
    #[verifier::type_invariant]
    spec fn holds_every_core(&self) -> bool {
        self.infos@.len() == MAX_CORES as nat
    }

    /// A table in which no core has been initialised yet.
    pub fn new() -> (t: Self)
        ensures
            t@.len() == MAX_CORES as nat,
            forall|i: int| 0 <= i < t@.len() ==> #[trigger] t@[i] == unknown_cpu_info(),
    {
        let mut infos: Vec<CpuInfo> = Vec::new();
        let mut i: u8 = 0;
        while i < MAX_CORES
            invariant
                i <= MAX_CORES,
                infos@.len() == i as nat,
                forall|k: int| 0 <= k < infos@.len() ==> #[trigger] infos@[k] == unknown_cpu_info(),
            decreases MAX_CORES - i,
        {
            infos.push(CpuInfo {
                features: CpuFeatureFlags::empty(),
                cache_line_size: 0,
                apic_id: 0,
                model: 0,
                stepping: 0,
                family: 0,
                vendor: CpuVendor::Unknown,
            });
            i = i + 1;
        }
        CpuInfoTable { infos }
    }

    /// Records for core `core_id` what its CPUID leaves 0 and 1 report.
    pub fn init_cpu_info_for_core(&mut self, core_id: u8, leaf0: CpuidRegs, leaf1: CpuidRegs)
        requires
            core_id < MAX_CORES,
            leaf0.eax >= 1,
            clflush_units(leaf1.ebx) * 8 <= 255,
        ensures
            old(self)@.len() == MAX_CORES as nat,
            final(self)@.len() == MAX_CORES as nat,
            cpu_info_decodes(final(self)@[core_id as int], leaf0, leaf1),
            forall|i: int| 0 <= i < old(self)@.len() && i != core_id ==> #[trigger] final(self)@[i] == old(self)@[i],
    {
        proof {
            use_type_invariant(&*self);
        }
        let info = decode_cpu_info(leaf0, leaf1);
        let mut infos: Vec<CpuInfo> = Vec::new();
        let mut i: usize = 0;
        while i < self.infos.len()
            invariant
                self.infos@.len() == MAX_CORES as nat,
                core_id < MAX_CORES,
                i <= self.infos@.len(),
                infos@.len() == i,
                forall|k: int| 0 <= k < i ==> #[trigger] infos@[k] == (if k == core_id as int { info } else { self.infos@[k] }),
            decreases self.infos.len() - i,
        {
            if i == core_id as usize {
                infos.push(info);
            } else {
                infos.push(self.infos[i]);
            }
            i = i + 1;
        }
        self.infos = infos;
    }

    /// The information recorded for core `core_id`.
    pub fn get_cpu_info_for_core(&self, core_id: u8) -> (r: &CpuInfo)
        requires
            core_id < MAX_CORES,
        ensures
            self@.len() == MAX_CORES as nat,
            *r == self@[core_id as int],
    {
        proof {
            use_type_invariant(self);
        }
        &self.infos[core_id as usize]
    }
}


/// The name under which the feature of index `index` is listed.
pub open spec fn feature_name(index: u32) -> Seq<char> {
    if index == APIC {
        "APIC"@
    } else if index == X2APIC {
        "X2APIC"@
    } else if index == TSC {
        "TSC"@
    } else if index == TSC_DEADLINE {
        "TSC Deadline"@
    } else if index == PGE {
        "PGE"@
    } else if index == PAT {
        "PAT"@
    } else if index == SSE {
        "SSE"@
    } else if index == SSE2 {
        "SSE2"@
    } else if index == SSE3 {
        "SSE3"@
    } else if index == SSE4_1 {
        "SSE4.1"@
    } else if index == SSE4_2 {
        "SSE4.2"@
    } else if index == AVX {
        "AVX"@
    } else if index == AES {
        "AES"@
    } else if index == RDRAND {
        "RDRAND"@
    } else {
        "Hypervisor"@
    }
}

/// The names of the features of `bits` among the first `n`, in increasing order of index.
pub open spec fn feature_names_below(bits: u32, n: u32) -> Seq<Seq<char>>
    decreases n,
{
    if n == 0 {
        Seq::empty()
    } else {
        let prev = feature_names_below(bits, (n - 1) as u32);
        if bit_set(bits, (n - 1) as u32) {
            prev.push(feature_name((n - 1) as u32))
        } else {
            prev
        }
    }
}

/// The names of the features of `flags`, in increasing order of index.
pub open spec fn feature_names(flags: CpuFeatureFlags) -> Seq<Seq<char>> {
    feature_names_below(flags.bits, FEATURE_COUNT)
}

/// The number of features among the first `n` that `bits` sets.
pub open spec fn set_feature_count(bits: u32, n: u32) -> nat
    decreases n,
{
    if n == 0 {
        0
    } else {
        set_feature_count(bits, (n - 1) as u32) + if bit_set(bits, (n - 1) as u32) { 1nat } else { 0nat }
    }
}

proof fn lemma_feature_names_distinct_at(i: u32, j: u32)
    requires
        i < j < FEATURE_COUNT,
    ensures
        feature_name(i) != feature_name(j),
{
    reveal_strlit("APIC");
    reveal_strlit("X2APIC");
    reveal_strlit("TSC");
    reveal_strlit("TSC Deadline");
    reveal_strlit("PGE");
    reveal_strlit("PAT");
    reveal_strlit("SSE");
    reveal_strlit("SSE2");
    reveal_strlit("SSE3");
    reveal_strlit("SSE4.1");
    reveal_strlit("SSE4.2");
    reveal_strlit("AVX");
    reveal_strlit("AES");
    reveal_strlit("RDRAND");
    reveal_strlit("Hypervisor");
    let a = feature_name(i);
    let b = feature_name(j);
    if a.len() == b.len() {
        assert(a[0] != b[0] || a[1] != b[1] || a[2] != b[2] || a[a.len() - 1] != b[b.len() - 1]);
    }
}

proof fn lemma_feature_name_indices(bits: u32, n: u32) -> (ix: Seq<int>)
    requires
        n <= FEATURE_COUNT,
    ensures
        ix.len() == feature_names_below(bits, n).len(),
        feature_names_below(bits, n).len() == set_feature_count(bits, n),
        forall|k: int| 0 <= k < ix.len() ==> 0 <= #[trigger] ix[k] < n && feature_names_below(bits, n)[k]
            == feature_name(ix[k] as u32) && bit_set(bits, ix[k] as u32),
        forall|k: int, l: int| 0 <= k < l < ix.len() ==> #[trigger] ix[k] < #[trigger] ix[l],
    decreases n,
{
    if n == 0 {
        Seq::empty()
    } else {
        let m = (n - 1) as u32;
        let prev = lemma_feature_name_indices(bits, m);
        if bit_set(bits, m) {
            let ix = prev.push(m as int);
            assert forall|k: int| 0 <= k < ix.len() implies 0 <= #[trigger] ix[k] < n && feature_names_below(bits, n)[k]
                == feature_name(ix[k] as u32) && bit_set(bits, ix[k] as u32) by {
                if k < prev.len() {
                    assert(ix[k] == prev[k]);
                }
            }
            assert forall|k: int, l: int| 0 <= k < l < ix.len() implies #[trigger] ix[k] < #[trigger] ix[l] by {
                assert(ix[k] == prev[k]);
                if l < prev.len() {
                    assert(ix[l] == prev[l]);
                }
            }
            ix
        } else {
            prev
        }
    }
}

/// The names of a feature set name each set feature once: there is one name
/// per feature that is set, and no name comes twice.
pub proof fn lemma_feature_names_unique(flags: CpuFeatureFlags)
    ensures
        feature_names(flags).len() == set_feature_count(flags.bits, FEATURE_COUNT),
        forall|k: int, l: int|
            0 <= k < l < feature_names(flags).len() ==> #[trigger] feature_names(flags)[k] != #[trigger] feature_names(
                flags,
            )[l],
{
    let ix = lemma_feature_name_indices(flags.bits, FEATURE_COUNT);
    assert forall|k: int, l: int|
        0 <= k < l < feature_names(flags).len() implies #[trigger] feature_names(flags)[k]
            != #[trigger] feature_names(flags)[l] by {
        assert(ix[k] < ix[l]);
        lemma_feature_names_distinct_at(ix[k] as u32, ix[l] as u32);
    }
}

proof fn lemma_bit_of_subset(a: u32, b: u32, i: u32)
    requires
        a & b == b,
        i < 32,
        bit_set(b, i),
    ensures
        bit_set(a, i),
{
    assert(a & b == b && b & (1u32 << i) != 0 && i < 32 ==> a & (1u32 << i) != 0) by (bit_vector);
}

proof fn lemma_subset_names_below(a: u32, b: u32, n: u32) -> (idx: Seq<int>)
    requires
        a & b == b,
        n <= FEATURE_COUNT,
    ensures
        picks(feature_names_below(b, n), feature_names_below(a, n), idx),
    decreases n,
{
    if n == 0 {
        Seq::empty()
    } else {
        let m = (n - 1) as u32;
        let prev = lemma_subset_names_below(a, b, m);
        let pa = feature_names_below(a, m);
        let pb = feature_names_below(b, m);
        if bit_set(b, m) {
            lemma_bit_of_subset(a, b, m);
            let idx = prev.push(pa.len() as int);
            let ra = feature_names_below(a, n);
            let rb = feature_names_below(b, n);
            assert forall|k: int| 0 <= k < idx.len() implies 0 <= #[trigger] idx[k] < ra.len() && ra[idx[k]] == rb[k] by {
                if k < prev.len() {
                    assert(idx[k] == prev[k]);
                    assert(ra[prev[k]] == pa[prev[k]]);
                }
            }
            assert forall|k: int, l: int| 0 <= k < l < idx.len() implies #[trigger] idx[k] < #[trigger] idx[l] by {
                assert(idx[k] == prev[k]);
                if l < prev.len() {
                    assert(idx[l] == prev[l]);
                }
            }
            idx
        } else {
            if bit_set(a, m) {
                let ra = feature_names_below(a, n);
                assert forall|k: int| 0 <= k < prev.len() implies 0 <= #[trigger] prev[k] < ra.len() && ra[prev[k]]
                    == pb[k] by {
                    assert(ra[prev[k]] == pa[prev[k]]);
                }
            }
            prev
        }
    }
}

/// The names of a feature set that another contains are a subsequence of the
/// other's names: the same names, in the same order, with some left out.
pub proof fn lemma_subset_names_subsequence(a: CpuFeatureFlags, b: CpuFeatureFlags)
    requires
        a.bits & b.bits == b.bits,
    ensures
        is_subsequence(feature_names(b), feature_names(a)),
{
    let idx = lemma_subset_names_below(a.bits, b.bits, FEATURE_COUNT);
    assert(picks(feature_names(b), feature_names(a), idx));
}

/// The name of the feature of index `index`.
pub fn feature_name_str(index: u32) -> (r: &'static str)
    requires
        index < FEATURE_COUNT,
    ensures
        r@ == feature_name(index),
{
    if index == APIC {
        "APIC"
    } else if index == X2APIC {
        "X2APIC"
    } else if index == TSC {
        "TSC"
    } else if index == TSC_DEADLINE {
        "TSC Deadline"
    } else if index == PGE {
        "PGE"
    } else if index == PAT {
        "PAT"
    } else if index == SSE {
        "SSE"
    } else if index == SSE2 {
        "SSE2"
    } else if index == SSE3 {
        "SSE3"
    } else if index == SSE4_1 {
        "SSE4.1"
    } else if index == SSE4_2 {
        "SSE4.2"
    } else if index == AVX {
        "AVX"
    } else if index == AES {
        "AES"
    } else if index == RDRAND {
        "RDRAND"
    } else {
        "Hypervisor"
    }
}

/// The text views of a list of names.
pub open spec fn name_views(names: Seq<&'static str>) -> Seq<Seq<char>> {
    names.map_values(|n: &'static str| n@)
}

impl CpuFeatureFlags {
    /// The names of the features that are set, in increasing order of index.
    pub fn to_feature_names(&self) -> (r: Vec<&'static str>)
        ensures
            name_views(r@) == feature_names(*self),
    {
        let mut names: Vec<&'static str> = Vec::new();
        let mut i: u32 = 0;
        while i < FEATURE_COUNT
            invariant
                i <= FEATURE_COUNT,
                name_views(names@) == feature_names_below(self.bits, i),
            decreases FEATURE_COUNT - i,
        {
            if self.has(i) {
                let name = feature_name_str(i);
                names.push(name);
            }
            assert(name_views(names@) =~= feature_names_below(self.bits, (i + 1) as u32));
            i = i + 1;
        }
        names
    }
}

/// The name under which a vendor is printed.
pub open spec fn vendor_name(v: CpuVendor) -> Seq<char> {
    match v {
        CpuVendor::Intel => "Intel"@,
        CpuVendor::Amd => "AMD"@,
        CpuVendor::Unknown => "Unknown"@,
    }
}

impl CpuVendor {
    /// The name under which the vendor is printed.
    pub fn name(&self) -> (r: &'static str)
        ensures
            r@ == vendor_name(*self),
    {
        match self {
            CpuVendor::Intel => "Intel",
            CpuVendor::Amd => "AMD",
            CpuVendor::Unknown => "Unknown",
        }
    }
}

/// `name` left-aligned in a field of 12 characters (longer names are kept whole).
pub open spec fn padded_name(name: Seq<char>) -> Seq<char> {
    if name.len() < 12 {
        name + Seq::new((12 - name.len()) as nat, |i: int| ' ')
    } else {
        name
    }
}

/// The text that the feature list shows for the name of position `k`: rows of
/// four names, each row indented by four spaces, names separated by ", ".
pub open spec fn feature_item(names: Seq<Seq<char>>, k: int) -> Seq<char> {
    (if k % 4 == 0 { "    "@ } else { ", "@ }) + padded_name(names[k]) + (if k % 4 == 3 || k
        == names.len() - 1 {
        "\n"@
    } else {
        Seq::empty()
    })
}

/// The text of the first `k` names of the feature list.
pub open spec fn feature_rows_upto(names: Seq<Seq<char>>, k: int) -> Seq<char>
    decreases k,
{
    if k <= 0 {
        Seq::empty()
    } else {
        feature_rows_upto(names, k - 1) + feature_item(names, k - 1)
    }
}

/// The feature list of the long form: the names in rows of four, or a note that none was detected.
pub open spec fn feature_list(names: Seq<Seq<char>>) -> Seq<char> {
    if names.len() == 0 {
        "    <none detected>\n"@
    } else {
        feature_rows_upto(names, names.len() as int)
    }
}

/// The long, several-line description of a core.
pub open spec fn cpu_info_text(info: CpuInfo) -> Seq<char> {
    "CPU Information:\n"@ + "  Vendor: "@ + vendor_name(info.vendor) + "\n"@ + "  Family: "@
        + decimal(info.family as nat) + ", Model: "@ + decimal(info.model as nat) + ", Stepping: "@
        + decimal(info.stepping as nat) + "\n"@ + "  APIC ID: "@ + decimal(info.apic_id as nat)
        + "\n"@ + "  Cache Line Size: "@ + decimal(info.cache_line_size as nat) + " bytes\n"@
        + "  Features:\n"@ + feature_list(feature_names(info.features))
}

/// The one-line description of a core.
pub open spec fn cpu_info_compact_text(info: CpuInfo) -> Seq<char> {
    let names = feature_names(info.features);
    "CPU: "@ + vendor_name(info.vendor) + " (Family "@ + decimal(info.family as nat) + ", Model "@
        + decimal(info.model as nat) + "), APIC ID: "@ + decimal(info.apic_id as nat)
        + ", Cache: "@ + decimal(info.cache_line_size as nat) + "B, Features: ["@ + (if names.len()
        == 0 {
        "none"@
    } else {
        names.flatten()
    }) + "]"@
}

/// Appends `name`, padded with spaces to 12 characters.
fn push_padded(s: &mut String, name: &str)
    ensures
        final(s)@ == old(s)@ + padded_name(name@),
{
    s.append(name);
    let mut len: usize = name.unicode_len();
    let ghost start = s@;
    while len < 12
        invariant
            name@.len() <= len <= 12 || (len == name@.len() && len >= 12),
            s@ == start + Seq::new((len - name@.len()) as nat, |i: int| ' '),
        decreases 12 - len,
    {
        push_char(s, ' ');
        assert(s@ =~= start + Seq::new((len + 1 - name@.len()) as nat, |i: int| ' '));
        len = len + 1;
    }
    assert(s@ =~= old(s)@ + padded_name(name@));
}

/// Appends the feature list of the long form.
fn push_feature_list(s: &mut String, names: &Vec<&'static str>)
    ensures
        final(s)@ == old(s)@ + feature_list(name_views(names@)),
{
    let ghost views = name_views(names@);
    if names.len() == 0 {
        s.append("    <none detected>\n");
        return;
    }
    let mut k: usize = 0;
    while k < names.len()
        invariant
            k <= names@.len(),
            views == name_views(names@),
            s@ == old(s)@ + feature_rows_upto(views, k as int),
        decreases names.len() - k,
    {
        if k % 4 == 0 {
            s.append("    ");
        } else {
            s.append(", ");
        }
        push_padded(s, names[k]);
        if k % 4 == 3 || k == names.len() - 1 {
            s.append("\n");
        }
        assert(s@ =~= old(s)@ + feature_rows_upto(views, k as int + 1));
        k = k + 1;
    }
}

/// Appends the concatenation of `names`.
fn push_joined(s: &mut String, names: &Vec<&'static str>)
    ensures
        final(s)@ == old(s)@ + name_views(names@).flatten(),
{
    let mut k: usize = 0;
    while k < names.len()
        invariant
            k <= names@.len(),
            s@ == old(s)@ + name_views(names@).take(k as int).flatten_alt(),
        decreases names.len() - k,
    {
        s.append(names[k]);
        assert(name_views(names@).take(k as int + 1).drop_last() =~= name_views(names@).take(k as int));
        assert(s@ =~= old(s)@ + name_views(names@).take(k as int + 1).flatten_alt());
        k = k + 1;
    }
    proof {
        assert(name_views(names@).take(names@.len() as int) =~= name_views(names@));
        name_views(names@).lemma_flatten_and_flatten_alt_are_equivalent();
    }
}

impl CpuInfo {
    fn push_text(&self, s: &mut String)
        ensures
            final(s)@ == old(s)@ + cpu_info_text(*self),
    {
        s.append("CPU Information:\n");
        s.append("  Vendor: ");
        s.append(self.vendor.name());
        s.append("\n");
        s.append("  Family: ");
        push_decimal(s, self.family as u64);
        s.append(", Model: ");
        push_decimal(s, self.model as u64);
        s.append(", Stepping: ");
        push_decimal(s, self.stepping as u64);
        s.append("\n");
        s.append("  APIC ID: ");
        push_decimal(s, self.apic_id as u64);
        s.append("\n");
        s.append("  Cache Line Size: ");
        push_decimal(s, self.cache_line_size as u64);
        s.append(" bytes\n");
        s.append("  Features:\n");
        let names = self.features.to_feature_names();
        push_feature_list(s, &names);
        assert(s@ =~= old(s)@ + cpu_info_text(*self));
    }

    /// The long description of the core, indented by two spaces.
    pub fn to_pretty_string(&self) -> (r: String)
        ensures
            r@ == "  "@ + cpu_info_text(*self),
    {
        let mut s = String::new();
        s.append("  ");
        self.push_text(&mut s);
        s
    }

    /// The one-line description of the core.
    pub fn to_compact_string(&self) -> (r: String)
        ensures
            r@ == cpu_info_compact_text(*self),
    {
        let mut s = String::new();
        let names = self.features.to_feature_names();
        s.append("CPU: ");
        s.append(self.vendor.name());
        s.append(" (Family ");
        push_decimal(&mut s, self.family as u64);
        s.append(", Model ");
        push_decimal(&mut s, self.model as u64);
        s.append("), APIC ID: ");
        push_decimal(&mut s, self.apic_id as u64);
        s.append(", Cache: ");
        push_decimal(&mut s, self.cache_line_size as u64);
        s.append("B, Features: [");
        if names.len() == 0 {
            s.append("none");
        } else {
            push_joined(&mut s, &names);
        }
        s.append("]");
        assert(s@ =~= cpu_info_compact_text(*self));
        s
    }
}

} // verus!
