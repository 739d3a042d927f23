//! Device classifier: parses raw hardware-enumeration text into device
//! records and maps them to a sorted, deduplicated list of kernel-module
//! recommendations. A pure function of its input from end to end.

use vstd::prelude::*;

use crate::text::{
    contains_lower, contains_seq, find_char, find_space, index_of_char, index_of_space,
    is_space, lemma_find_char_bounds, lemma_find_char_unique, lemma_find_space_unique,
    lemma_trim_back_at, lemma_trim_front_at, lower, rskip_spaces, skip_spaces, substring,
    trim, trim_front,
};

verus! {

/// One parsed line of enumeration text: bus slot, device type, device name.
#[derive(Clone, Debug)]
pub struct DeviceRecord {
    pub slot: String,
    pub device_type: String,
    pub device_name: String,
}

/// Mathematical image of a `DeviceRecord`.
pub ghost struct DeviceRecordView {
    pub slot: Seq<char>,
    pub device_type: Seq<char>,
    pub device_name: Seq<char>,
}

impl View for DeviceRecord {
    type V = DeviceRecordView;

    open spec fn view(&self) -> DeviceRecordView {
        DeviceRecordView {
            slot: self.slot@,
            device_type: self.device_type@,
            device_name: self.device_name@,
        }
    }
}

impl DeepView for DeviceRecord {
    type V = DeviceRecordView;

    open spec fn deep_view(&self) -> DeviceRecordView {
        self.view()
    }
}

/// A kernel-module recommendation. `enabled == false` marks a module that is
/// relevant but deliberately excluded, such as a conflicting driver.
#[derive(Clone, Debug)]
pub struct ModuleRecommendation {
    pub module: String,
    pub reason: String,
    pub enabled: bool,
}

/// Mathematical image of a `ModuleRecommendation`.
pub ghost struct ModuleRecView {
    pub module: Seq<char>,
    pub reason: Seq<char>,
    pub enabled: bool,
}

impl View for ModuleRecommendation {
    type V = ModuleRecView;

    open spec fn view(&self) -> ModuleRecView {
        ModuleRecView { module: self.module@, reason: self.reason@, enabled: self.enabled }
    }
}

impl DeepView for ModuleRecommendation {
    type V = ModuleRecView;

    open spec fn deep_view(&self) -> ModuleRecView {
        self.view()
    }
}

/// The closed set of kernel modules the keyword rules can recommend.
#[derive(Clone, Copy, Debug, PartialEq, Eq, Structural)]
pub enum KernelModule {
    Ahci,
    Amdgpu,
    Ath11k,
    BnxtEn,
    E1000e,
    I915,
    Iwlwifi,
    Nouveau,
    Nvidia,
    Nvme,
    R8169,
    SndHdaIntel,
    XhciHcd,
}

/// Position of a module in the lexicographic order of the module names.
pub open spec fn module_rank(m: KernelModule) -> int {
    match m {
        KernelModule::Ahci => 0,
        KernelModule::Amdgpu => 1,
        KernelModule::Ath11k => 2,
        KernelModule::BnxtEn => 3,
        KernelModule::E1000e => 4,
        KernelModule::I915 => 5,
        KernelModule::Iwlwifi => 6,
        KernelModule::Nouveau => 7,
        KernelModule::Nvidia => 8,
        KernelModule::Nvme => 9,
        KernelModule::R8169 => 10,
        KernelModule::SndHdaIntel => 11,
        KernelModule::XhciHcd => 12,
    }
}

/// Name of a module, as the recommendation lists it.
pub open spec fn module_name(m: KernelModule) -> Seq<char> {
    match m {
        KernelModule::Ahci => "ahci"@,
        KernelModule::Amdgpu => "amdgpu"@,
        KernelModule::Ath11k => "ath11k"@,
        KernelModule::BnxtEn => "bnxt_en"@,
        KernelModule::E1000e => "e1000e"@,
        KernelModule::I915 => "i915"@,
        KernelModule::Iwlwifi => "iwlwifi"@,
        KernelModule::Nouveau => "nouveau"@,
        KernelModule::Nvidia => "nvidia"@,
        KernelModule::Nvme => "nvme"@,
        KernelModule::R8169 => "r8169"@,
        KernelModule::SndHdaIntel => "snd_hda_intel"@,
        KernelModule::XhciHcd => "xhci_hcd"@,
    }
}

/// Runtime counterpart of `module_rank`.
pub fn rank_of(m: KernelModule) -> (r: u8)
    ensures
        r as int == module_rank(m),
{
    match m {
        KernelModule::Ahci => 0,
        KernelModule::Amdgpu => 1,
        KernelModule::Ath11k => 2,
        KernelModule::BnxtEn => 3,
        KernelModule::E1000e => 4,
        KernelModule::I915 => 5,
        KernelModule::Iwlwifi => 6,
        KernelModule::Nouveau => 7,
        KernelModule::Nvidia => 8,
        KernelModule::Nvme => 9,
        KernelModule::R8169 => 10,
        KernelModule::SndHdaIntel => 11,
        KernelModule::XhciHcd => 12,
    }
}

/// Runtime counterpart of `module_name`.
pub fn name_of(m: KernelModule) -> (r: &'static str)
    ensures
        r@ == module_name(m),
{
    match m {
        KernelModule::Ahci => "ahci",
        KernelModule::Amdgpu => "amdgpu",
        KernelModule::Ath11k => "ath11k",
        KernelModule::BnxtEn => "bnxt_en",
        KernelModule::E1000e => "e1000e",
        KernelModule::I915 => "i915",
        KernelModule::Iwlwifi => "iwlwifi",
        KernelModule::Nouveau => "nouveau",
        KernelModule::Nvidia => "nvidia",
        KernelModule::Nvme => "nvme",
        KernelModule::R8169 => "r8169",
        KernelModule::SndHdaIntel => "snd_hda_intel",
        KernelModule::XhciHcd => "xhci_hcd",
    }
}

/// A candidate recommendation before sorting and deduplication.
pub ghost struct Cand {
    pub module: KernelModule,
    pub reason: Seq<char>,
    pub enabled: bool,
}

/// The ordered keyword rules, applied to one device. The sequence order is
/// the order the rules emit candidates in, which decides whose reason
/// survives deduplication.
pub open spec fn device_candidates(d: DeviceRecordView) -> Seq<Cand> {
    let t = lower(d.device_type);
    let n = lower(d.device_name);
    if contains_seq(t, "vga"@) || contains_seq(t, "display"@) || contains_seq(t, "3d"@) {
        if contains_seq(n, "nvidia"@) {
            seq![
                Cand {
                    module: KernelModule::Nvidia,
                    reason: "GPU: "@ + d.device_name,
                    enabled: true,
                },
                Cand {
                    module: KernelModule::Nouveau,
                    reason: "Open-source NVIDIA (conflicts with proprietary)"@,
                    enabled: false,
                },
            ]
        } else if contains_seq(n, "amd"@) || contains_seq(n, "radeon"@) {
            seq![
                Cand {
                    module: KernelModule::Amdgpu,
                    reason: "GPU: "@ + d.device_name,
                    enabled: true,
                },
            ]
        } else if contains_seq(n, "intel"@) {
            seq![
                Cand { module: KernelModule::I915, reason: "GPU: "@ + d.device_name, enabled: true },
            ]
        } else {
            Seq::empty()
        }
    } else if contains_seq(t, "network"@) || contains_seq(t, "ethernet"@) || contains_seq(
        t,
        "wifi"@,
    ) || contains_seq(t, "wireless"@) {
        if contains_seq(n, "intel"@) {
            if contains_seq(n, "wi-fi"@) || contains_seq(n, "wireless"@) || contains_seq(
                n,
                "wifi"@,
            ) {
                seq![
                    Cand {
                        module: KernelModule::Iwlwifi,
                        reason: "WiFi: "@ + d.device_name,
                        enabled: true,
                    },
                ]
            } else {
                seq![
                    Cand {
                        module: KernelModule::E1000e,
                        reason: "Ethernet: "@ + d.device_name,
                        enabled: true,
                    },
                ]
            }
        } else if contains_seq(n, "realtek"@) {
            seq![
                Cand {
                    module: KernelModule::R8169,
                    reason: "Ethernet: "@ + d.device_name,
                    enabled: true,
                },
            ]
        } else if contains_seq(n, "broadcom"@) {
            seq![
                Cand {
                    module: KernelModule::BnxtEn,
                    reason: "NIC: "@ + d.device_name,
                    enabled: true,
                },
            ]
        } else if contains_seq(n, "qualcomm"@) || contains_seq(n, "atheros"@) {
            seq![
                Cand {
                    module: KernelModule::Ath11k,
                    reason: "WiFi: "@ + d.device_name,
                    enabled: true,
                },
            ]
        } else {
            Seq::empty()
        }
    } else if contains_seq(t, "audio"@) || contains_seq(t, "multimedia"@) {
        seq![
            Cand {
                module: KernelModule::SndHdaIntel,
                reason: "Audio: "@ + d.device_name,
                enabled: true,
            },
        ]
    } else if contains_seq(t, "usb"@) {
        seq![
            Cand {
                module: KernelModule::XhciHcd,
                reason: "USB: "@ + d.device_name,
                enabled: true,
            },
        ]
    } else if contains_seq(t, "sata"@) || contains_seq(t, "ahci"@) || contains_seq(t, "nvme"@)
        || contains_seq(t, "storage"@) {
        if contains_seq(n, "nvme"@) || contains_seq(t, "nvme"@) {
            seq![
                Cand {
                    module: KernelModule::Nvme,
                    reason: "Storage: "@ + d.device_name,
                    enabled: true,
                },
            ]
        } else {
            seq![
                Cand {
                    module: KernelModule::Ahci,
                    reason: "Storage: "@ + d.device_name,
                    enabled: true,
                },
            ]
        }
    } else {
        Seq::empty()
    }
}

/// All candidates of a device list, in device order.
pub open spec fn all_candidates(ds: Seq<DeviceRecordView>) -> Seq<Cand>
    decreases ds.len(),
{
    if ds.len() == 0 {
        Seq::empty()
    } else {
        device_candidates(ds.first()) + all_candidates(ds.drop_first())
    }
}

/// Strictly increasing module ranks: sorted by module name with no
/// duplicate names.
pub open spec fn sorted_unique(cs: Seq<Cand>) -> bool {
    forall|i: int, j: int|
        0 <= i < j < cs.len() ==> module_rank((#[trigger] cs[i]).module) < module_rank(
            (#[trigger] cs[j]).module,
        )
}

/// Insert one candidate into a rank-sorted accumulator; an already-present
/// module keeps its earlier entry.
pub open spec fn insert_cand(acc: Seq<Cand>, c: Cand) -> Seq<Cand>
    decreases acc.len(),
{
    if acc.len() == 0 {
        seq![c]
    } else if module_rank(acc.first().module) < module_rank(c.module) {
        seq![acc.first()] + insert_cand(acc.drop_first(), c)
    } else if module_rank(acc.first().module) == module_rank(c.module) {
        acc
    } else {
        seq![c] + acc
    }
}

/// Fold `insert_cand` over a candidate list.
pub open spec fn insert_all(acc: Seq<Cand>, cs: Seq<Cand>) -> Seq<Cand>
    decreases cs.len(),
{
    if cs.len() == 0 {
        acc
    } else {
        insert_all(insert_cand(acc, cs.first()), cs.drop_first())
    }
}

/// The classification of a device list: its candidates, sorted by module
/// name, first occurrence winning on duplicates.
pub open spec fn spec_classify(ds: Seq<DeviceRecordView>) -> Seq<Cand> {
    insert_all(Seq::empty(), all_candidates(ds))
}

/// The classification with module names spelled out, as the public
/// function returns it.
pub open spec fn spec_detect(ds: Seq<DeviceRecordView>) -> Seq<ModuleRecView> {
    spec_classify(ds).map(
        |i: int, c: Cand|
            ModuleRecView { module: module_name(c.module), reason: c.reason, enabled: c.enabled },
    )
}

/// `insert_cand` at the position `p` that the runtime scan found.
proof fn lemma_insert_cand_at(acc: Seq<Cand>, c: Cand, p: int)
    requires
        sorted_unique(acc),
        0 <= p <= acc.len(),
        forall|k: int| 0 <= k < p ==> module_rank((#[trigger] acc[k]).module) < module_rank(
            c.module,
        ),
        p < acc.len() ==> module_rank(acc[p].module) >= module_rank(c.module),
    ensures
        insert_cand(acc, c) == if p < acc.len() && module_rank(acc[p].module) == module_rank(
            c.module,
        ) {
            acc
        } else {
            acc.subrange(0, p) + seq![c] + acc.subrange(p, acc.len() as int)
        },
    decreases acc.len(),
{
    if p == 0 {
        if acc.len() == 0 {
            assert(insert_cand(acc, c) =~= acc.subrange(0, 0) + seq![c] + acc.subrange(
                0,
                acc.len() as int,
            ));
        } else if module_rank(acc[0].module) == module_rank(c.module) {
        } else {
            assert(module_rank(acc.first().module) > module_rank(c.module));
            assert(insert_cand(acc, c) =~= acc.subrange(0, 0) + seq![c] + acc.subrange(
                0,
                acc.len() as int,
            ));
        }
    } else {
        assert(module_rank(acc.first().module) < module_rank(c.module));
        let rest = acc.drop_first();
        assert(forall|k: int|
            0 <= k < p - 1 ==> module_rank((#[trigger] rest[k]).module) < module_rank(c.module));
        lemma_insert_cand_at(rest, c, p - 1);
        if p < acc.len() && module_rank(acc[p].module) == module_rank(c.module) {
            assert(rest[p - 1] == acc[p]);
            assert(insert_cand(acc, c) =~= acc);
        } else {
            assert(insert_cand(acc, c) =~= acc.subrange(0, p) + seq![c] + acc.subrange(
                p,
                acc.len() as int,
            ));
        }
    }
}

/// Inserting at the found position keeps the accumulator rank-sorted.
proof fn lemma_insert_cand_sorted(acc: Seq<Cand>, c: Cand, p: int)
    requires
        sorted_unique(acc),
        0 <= p <= acc.len(),
        forall|k: int| 0 <= k < p ==> module_rank((#[trigger] acc[k]).module) < module_rank(
            c.module,
        ),
        p < acc.len() ==> module_rank(acc[p].module) >= module_rank(c.module),
    ensures
        sorted_unique(insert_cand(acc, c)),
{
    lemma_insert_cand_at(acc, c, p);
    if p < acc.len() && module_rank(acc[p].module) == module_rank(c.module) {
    } else {
        let r = acc.subrange(0, p) + seq![c] + acc.subrange(p, acc.len() as int);
        assert forall|i: int, j: int| 0 <= i < j < r.len() implies module_rank(
            (#[trigger] r[i]).module,
        ) < module_rank((#[trigger] r[j]).module) by {
            if i < p {
                assert(r[i] == acc[i]);
            } else if i == p {
                assert(r[i] == c);
            } else {
                assert(r[i] == acc[i - 1]);
            }
            if j < p {
                assert(r[j] == acc[j]);
            } else if j == p {
                assert(r[j] == c);
            } else {
                assert(r[j] == acc[j - 1]);
            }
        }
    }
}

/// View of the internal accumulator entries.
pub open spec fn cands_view(s: Seq<(KernelModule, String, bool)>) -> Seq<Cand> {
    s.map(|i: int, t: (KernelModule, String, bool)| Cand {
        module: t.0,
        reason: t.1@,
        enabled: t.2,
    })
}

/// Insert one recommendation into the rank-sorted accumulator.
fn insert_mod(acc: &mut Vec<(KernelModule, String, bool)>, m: KernelModule, reason: String,
    enabled: bool)
    requires
        sorted_unique(cands_view(old(acc)@)),
    ensures
        cands_view(final(acc)@) == insert_cand(
            cands_view(old(acc)@),
            Cand { module: m, reason: reason@, enabled },
        ),
        sorted_unique(cands_view(final(acc)@)),
{
    let c_rank = rank_of(m);
    let ghost c = Cand { module: m, reason: reason@, enabled };
    let mut p: usize = 0;
    while p < acc.len() && rank_of(acc[p].0) < c_rank
        invariant
            p <= acc.len(),
            c_rank as int == module_rank(m),
            forall|k: int|
                0 <= k < p ==> module_rank((#[trigger] cands_view(acc@)[k]).module) < module_rank(
                    m,
                ),
        decreases acc.len() - p,
    {
        proof {
            assert(cands_view(acc@)[p as int].module == acc@[p as int].0);
        }
        p += 1;
    }
    proof {
        assert(p < acc@.len() ==> module_rank(cands_view(acc@)[p as int].module) >= module_rank(
            c.module,
        ));
        lemma_insert_cand_at(cands_view(acc@), c, p as int);
        lemma_insert_cand_sorted(cands_view(acc@), c, p as int);
    }
    if p < acc.len() && rank_of(acc[p].0) == c_rank {
        proof {
            assert(cands_view(acc@) =~= insert_cand(cands_view(acc@), c));
        }
        return ;
    }
    acc.insert(p, (m, reason, enabled));
    proof {
        let prior = cands_view(old(acc)@);
        assert(cands_view(acc@) =~= prior.subrange(0, p as int) + seq![c] + prior.subrange(
            p as int,
            prior.len() as int,
        ));
    }
}

proof fn lemma_insert_all_zero(acc: Seq<Cand>)
    ensures
        insert_all(acc, Seq::empty()) == acc,
{
    reveal_with_fuel(insert_all, 2);
}

proof fn lemma_insert_all_one(acc: Seq<Cand>, c1: Cand)
    ensures
        insert_all(acc, seq![c1]) == insert_cand(acc, c1),
{
    reveal_with_fuel(insert_all, 3);
    assert(seq![c1].drop_first() =~= Seq::<Cand>::empty());
    assert(insert_all(acc, seq![c1]) == insert_all(insert_cand(acc, c1), seq![c1].drop_first()));
}

proof fn lemma_insert_all_two(acc: Seq<Cand>, c1: Cand, c2: Cand)
    ensures
        insert_all(acc, seq![c1, c2]) == insert_cand(insert_cand(acc, c1), c2),
{
    reveal_with_fuel(insert_all, 3);
    assert(seq![c1, c2].drop_first() =~= seq![c2]);
    assert(insert_all(acc, seq![c1, c2]) == insert_all(insert_cand(acc, c1), seq![c2]));
    lemma_insert_all_one(insert_cand(acc, c1), c2);
}

proof fn lemma_all_candidates_push(ds: Seq<DeviceRecordView>, d: DeviceRecordView)
    ensures
        all_candidates(ds.push(d)) == all_candidates(ds) + device_candidates(d),
    decreases ds.len(),
{
    reveal_with_fuel(all_candidates, 3);
    if ds.len() == 0 {
        assert(ds.push(d).first() == d);
        assert(ds.push(d).drop_first() =~= Seq::<DeviceRecordView>::empty());
        assert(all_candidates(ds.push(d)) =~= all_candidates(ds) + device_candidates(d));
    } else {
        assert(ds.push(d).first() == ds.first());
        assert(ds.push(d).drop_first() =~= ds.drop_first().push(d));
        lemma_all_candidates_push(ds.drop_first(), d);
        assert(all_candidates(ds.push(d)) =~= all_candidates(ds) + device_candidates(d));
    }
}

proof fn lemma_insert_all_append(acc: Seq<Cand>, xs: Seq<Cand>, ys: Seq<Cand>)
    ensures
        insert_all(acc, xs + ys) == insert_all(insert_all(acc, xs), ys),
    decreases xs.len(),
{
    if xs.len() == 0 {
        assert(xs + ys =~= ys);
    } else {
        assert((xs + ys).first() == xs.first());
        assert((xs + ys).drop_first() =~= xs.drop_first() + ys);
        lemma_insert_all_append(insert_cand(acc, xs.first()), xs.drop_first(), ys);
    }
}

/// Map raw device records to kernel-module recommendations with the
/// ordered keyword rules, sorted lexicographically by module name and
/// deduplicated on module name, first occurrence winning. The result is
/// `spec_detect` of the input: a pure function of the device list.
pub fn detect_kernel_modules(devices: &Vec<DeviceRecord>) -> (mods: Vec<ModuleRecommendation>)
    ensures
        mods.deep_view() == spec_detect(devices.deep_view()),
{
    let ghost dsv = devices.deep_view();
    let mut acc: Vec<(KernelModule, String, bool)> = Vec::new();
    proof {
        assert(cands_view(acc@) =~= Seq::<Cand>::empty());
        assert(all_candidates(dsv.subrange(0, 0)) =~= Seq::<Cand>::empty());
        assert(cands_view(acc@) == spec_classify(dsv.subrange(0, 0)));
    }
    let mut di: usize = 0;
    while di < devices.len()
        invariant
            di <= devices.len(),
            dsv == devices.deep_view(),
            dsv.len() == devices@.len(),
            sorted_unique(cands_view(acc@)),
            cands_view(acc@) == spec_classify(dsv.subrange(0, di as int)),
        decreases devices@.len() - di,
    {
        let d = &devices[di];
        let ghost dv = dsv[di as int];
        let ghost before = cands_view(acc@);
        proof {
            assert(dv == d.deep_view());
        }
        if contains_lower(d.device_type.as_str(), "vga") || contains_lower(
            d.device_type.as_str(),
            "display",
        ) || contains_lower(d.device_type.as_str(), "3d") {
            if contains_lower(d.device_name.as_str(), "nvidia") {
                let r1 = String::from_str("GPU: ").concat(d.device_name.as_str());
                let ghost c1 = Cand { module: KernelModule::Nvidia, reason: r1@, enabled: true };
                insert_mod(&mut acc, KernelModule::Nvidia, r1, true);
                let r2 = String::from_str("Open-source NVIDIA (conflicts with proprietary)");
                let ghost c2 = Cand { module: KernelModule::Nouveau, reason: r2@, enabled: false };
                insert_mod(&mut acc, KernelModule::Nouveau, r2, false);
                proof {
                    assert(device_candidates(dv) =~= seq![c1, c2]);
                    lemma_insert_all_two(before, c1, c2);
                    assert(cands_view(acc@) == insert_all(before, device_candidates(dv)));
                }
            } else if contains_lower(d.device_name.as_str(), "amd") || contains_lower(
                d.device_name.as_str(),
                "radeon",
            ) {
                let r1 = String::from_str("GPU: ").concat(d.device_name.as_str());
                let ghost c1 = Cand { module: KernelModule::Amdgpu, reason: r1@, enabled: true };
                insert_mod(&mut acc, KernelModule::Amdgpu, r1, true);
                proof {
                    assert(device_candidates(dv) =~= seq![c1]);
                    lemma_insert_all_one(before, c1);
                    assert(cands_view(acc@) == insert_all(before, device_candidates(dv)));
                }
            } else if contains_lower(d.device_name.as_str(), "intel") {
                let r1 = String::from_str("GPU: ").concat(d.device_name.as_str());
                let ghost c1 = Cand { module: KernelModule::I915, reason: r1@, enabled: true };
                insert_mod(&mut acc, KernelModule::I915, r1, true);
                proof {
                    assert(device_candidates(dv) =~= seq![c1]);
                    lemma_insert_all_one(before, c1);
                    assert(cands_view(acc@) == insert_all(before, device_candidates(dv)));
                }
            } else {
                proof {
                    assert(device_candidates(dv) =~= Seq::<Cand>::empty());
                    lemma_insert_all_zero(before);
                    assert(cands_view(acc@) == insert_all(before, device_candidates(dv)));
                }
            }
        } else if contains_lower(d.device_type.as_str(), "network") || contains_lower(
            d.device_type.as_str(),
            "ethernet",
        ) || contains_lower(d.device_type.as_str(), "wifi") || contains_lower(
            d.device_type.as_str(),
            "wireless",
        ) {
            if contains_lower(d.device_name.as_str(), "intel") {
                if contains_lower(d.device_name.as_str(), "wi-fi") || contains_lower(
                    d.device_name.as_str(),
                    "wireless",
                ) || contains_lower(d.device_name.as_str(), "wifi") {
                    let r1 = String::from_str("WiFi: ").concat(d.device_name.as_str());
                    let ghost c1 = Cand {
                        module: KernelModule::Iwlwifi,
                        reason: r1@,
                        enabled: true,
                    };
                    insert_mod(&mut acc, KernelModule::Iwlwifi, r1, true);
                    proof {
                        assert(device_candidates(dv) =~= seq![c1]);
                        lemma_insert_all_one(before, c1);
                        assert(cands_view(acc@) == insert_all(before, device_candidates(dv)));
                    }
                } else {
                    let r1 = String::from_str("Ethernet: ").concat(d.device_name.as_str());
                    let ghost c1 = Cand {
                        module: KernelModule::E1000e,
                        reason: r1@,
                        enabled: true,
                    };
                    insert_mod(&mut acc, KernelModule::E1000e, r1, true);
                    proof {
                        assert(device_candidates(dv) =~= seq![c1]);
                        lemma_insert_all_one(before, c1);
                        assert(cands_view(acc@) == insert_all(before, device_candidates(dv)));
                    }
                }
            } else if contains_lower(d.device_name.as_str(), "realtek") {
                let r1 = String::from_str("Ethernet: ").concat(d.device_name.as_str());
                let ghost c1 = Cand { module: KernelModule::R8169, reason: r1@, enabled: true };
                insert_mod(&mut acc, KernelModule::R8169, r1, true);
                proof {
                    assert(device_candidates(dv) =~= seq![c1]);
                    lemma_insert_all_one(before, c1);
                    assert(cands_view(acc@) == insert_all(before, device_candidates(dv)));
                }
            } else if contains_lower(d.device_name.as_str(), "broadcom") {
                let r1 = String::from_str("NIC: ").concat(d.device_name.as_str());
                let ghost c1 = Cand { module: KernelModule::BnxtEn, reason: r1@, enabled: true };
                insert_mod(&mut acc, KernelModule::BnxtEn, r1, true);
                proof {
                    assert(device_candidates(dv) =~= seq![c1]);
                    lemma_insert_all_one(before, c1);
                    assert(cands_view(acc@) == insert_all(before, device_candidates(dv)));
                }
            } else if contains_lower(d.device_name.as_str(), "qualcomm") || contains_lower(
                d.device_name.as_str(),
                "atheros",
            ) {
                let r1 = String::from_str("WiFi: ").concat(d.device_name.as_str());
                let ghost c1 = Cand { module: KernelModule::Ath11k, reason: r1@, enabled: true };
                insert_mod(&mut acc, KernelModule::Ath11k, r1, true);
                proof {
                    assert(device_candidates(dv) =~= seq![c1]);
                    lemma_insert_all_one(before, c1);
                    assert(cands_view(acc@) == insert_all(before, device_candidates(dv)));
                }
            } else {
                proof {
                    assert(device_candidates(dv) =~= Seq::<Cand>::empty());
                    lemma_insert_all_zero(before);
                    assert(cands_view(acc@) == insert_all(before, device_candidates(dv)));
                }
            }
        } else if contains_lower(d.device_type.as_str(), "audio") || contains_lower(
            d.device_type.as_str(),
            "multimedia",
        ) {
            let r1 = String::from_str("Audio: ").concat(d.device_name.as_str());
            let ghost c1 = Cand { module: KernelModule::SndHdaIntel, reason: r1@, enabled: true };
            insert_mod(&mut acc, KernelModule::SndHdaIntel, r1, true);
            proof {
                assert(device_candidates(dv) =~= seq![c1]);
                lemma_insert_all_one(before, c1);
                assert(cands_view(acc@) == insert_all(before, device_candidates(dv)));
            }
        } else if contains_lower(d.device_type.as_str(), "usb") {
            let r1 = String::from_str("USB: ").concat(d.device_name.as_str());
            let ghost c1 = Cand { module: KernelModule::XhciHcd, reason: r1@, enabled: true };
            insert_mod(&mut acc, KernelModule::XhciHcd, r1, true);
            proof {
                assert(device_candidates(dv) =~= seq![c1]);
                lemma_insert_all_one(before, c1);
                assert(cands_view(acc@) == insert_all(before, device_candidates(dv)));
            }
        } else if contains_lower(d.device_type.as_str(), "sata") || contains_lower(
            d.device_type.as_str(),
            "ahci",
        ) || contains_lower(d.device_type.as_str(), "nvme") || contains_lower(
            d.device_type.as_str(),
            "storage",
        ) {
            if contains_lower(d.device_name.as_str(), "nvme") || contains_lower(
                d.device_type.as_str(),
                "nvme",
            ) {
                let r1 = String::from_str("Storage: ").concat(d.device_name.as_str());
                let ghost c1 = Cand { module: KernelModule::Nvme, reason: r1@, enabled: true };
                insert_mod(&mut acc, KernelModule::Nvme, r1, true);
                proof {
                    assert(device_candidates(dv) =~= seq![c1]);
                    lemma_insert_all_one(before, c1);
                    assert(cands_view(acc@) == insert_all(before, device_candidates(dv)));
                }
            } else {
                let r1 = String::from_str("Storage: ").concat(d.device_name.as_str());
                let ghost c1 = Cand { module: KernelModule::Ahci, reason: r1@, enabled: true };
                insert_mod(&mut acc, KernelModule::Ahci, r1, true);
                proof {
                    assert(device_candidates(dv) =~= seq![c1]);
                    lemma_insert_all_one(before, c1);
                    assert(cands_view(acc@) == insert_all(before, device_candidates(dv)));
                }
            }
        } else {
            proof {
                assert(device_candidates(dv) =~= Seq::<Cand>::empty());
                lemma_insert_all_zero(before);
                assert(cands_view(acc@) == insert_all(before, device_candidates(dv)));
            }
        }
        proof {
            assert(dsv.subrange(0, di as int).push(dsv[di as int]) =~= dsv.subrange(
                0,
                di + 1,
            ));
            lemma_all_candidates_push(dsv.subrange(0, di as int), dv);
            lemma_insert_all_append(
                Seq::empty(),
                all_candidates(dsv.subrange(0, di as int)),
                device_candidates(dv),
            );
            assert(cands_view(acc@) == spec_classify(dsv.subrange(0, di + 1)));
        }
        di += 1;
    }
    proof {
        assert(dsv.subrange(0, devices@.len() as int) =~= dsv);
    }
    let mut mods: Vec<ModuleRecommendation> = Vec::new();
    let mut k: usize = 0;
    while k < acc.len()
        invariant
            k <= acc.len(),
            cands_view(acc@) == spec_classify(dsv),
            mods@.len() == k,
            forall|t: int|
                0 <= t < k ==> (#[trigger] mods@[t]).view() == spec_detect(dsv)[t],
        decreases acc@.len() - k,
    {
        let entry = &acc[k];
        let m = entry.0;
        let reason = entry.1.clone();
        let enabled = entry.2;
        mods.push(ModuleRecommendation { module: name_of(m).to_owned(), reason, enabled });
        proof {
            assert(spec_classify(dsv)[k as int] == cands_view(acc@)[k as int]);
        }
        k += 1;
    }
    proof {
        assert(spec_detect(dsv).len() == acc@.len());
        assert forall|t: int| 0 <= t < mods@.len() implies mods.deep_view()[t] == spec_detect(
            dsv,
        )[t] by {
            assert(mods@[t].view() == spec_detect(dsv)[t]);
        }
        assert(mods.deep_view() =~= spec_detect(dsv));
    }
    mods
}

/// The record one line of enumeration text yields, if any. A blank line
/// yields none; a line without whitespace or colon degrades to an
/// `"Unknown"`-typed record rather than failing.
pub open spec fn record_of_line(line: Seq<char>) -> Option<DeviceRecordView> {
    let t = trim(line);
    if t.len() == 0 {
        None
    } else {
        let p = find_space(t);
        let slot = t.subrange(0, p);
        let rest = trim_front(t.subrange(p, t.len() as int));
        let q = find_char(rest, ':');
        if 0 <= q < rest.len() {
            Some(
                DeviceRecordView {
                    slot,
                    device_type: trim(rest.subrange(0, q)),
                    device_name: trim(rest.subrange(q + 1, rest.len() as int)),
                },
            )
        } else {
            Some(DeviceRecordView { slot, device_type: "Unknown"@, device_name: rest })
        }
    }
}

/// Zero or one records of a line, as a sequence.
pub open spec fn line_records(line: Seq<char>) -> Seq<DeviceRecordView> {
    match record_of_line(line) {
        Some(r) => seq![r],
        None => Seq::empty(),
    }
}

/// All records of a whole text, line by line.
pub open spec fn spec_parse(s: Seq<char>) -> Seq<DeviceRecordView>
    decreases s.len(),
{
    let e = find_char(s, '\n');
    if 0 <= e < s.len() {
        line_records(s.subrange(0, e)) + spec_parse(s.subrange(e + 1, s.len() as int))
    } else {
        line_records(s)
    }
}

/// How many lines of the text are non-blank after trimming.
pub open spec fn nonblank_line_count(s: Seq<char>) -> int
    decreases s.len(),
{
    let e = find_char(s, '\n');
    if 0 <= e < s.len() {
        (if trim(s.subrange(0, e)).len() > 0 {
            1int
        } else {
            0int
        }) + nonblank_line_count(s.subrange(e + 1, s.len() as int))
    } else {
        if trim(s).len() > 0 {
            1int
        } else {
            0int
        }
    }
}

/// Parsing yields one record per non-blank line.
pub proof fn lemma_parse_counts_nonblank(s: Seq<char>)
    ensures
        spec_parse(s).len() == nonblank_line_count(s),
    decreases s.len(),
{
    lemma_find_char_bounds(s, '\n');
    let e = find_char(s, '\n');
    if 0 <= e < s.len() {
        lemma_parse_counts_nonblank(s.subrange(e + 1, s.len() as int));
    }
}

/// Parse the line `s[ls..le]` into a device record, or nothing if blank.
#[verifier::rlimit(100)]
fn parse_line(s: &str, ls: usize, le: usize) -> (rec: Option<DeviceRecord>)
    requires
        ls <= le <= s@.len(),
    ensures
        ({
            let line = s@.subrange(ls as int, le as int);
            match rec {
                Some(d) => record_of_line(line) == Some(d.deep_view()),
                None => record_of_line(line) is None,
            }
        }),
{
    let ghost line = s@.subrange(ls as int, le as int);
    let a = skip_spaces(s, ls, le);
    let b = rskip_spaces(s, a, le);
    proof {
        assert forall|k: int| 0 <= k < a - ls implies is_space(line[k]) by {
            assert(is_space(s@[ls + k]));
        }
        if a < le {
            assert(!is_space(line[a - ls]));
        }
        lemma_trim_front_at(line, a - ls);
        assert(trim_front(line) =~= s@.subrange(a as int, le as int));
        let tf = s@.subrange(a as int, le as int);
        assert forall|k: int| b - a <= k < tf.len() implies is_space(tf[k]) by {
            assert(is_space(s@[a + k]));
        }
        if b > a {
            assert(!is_space(tf[b - a - 1]));
        }
        lemma_trim_back_at(tf, b - a);
        assert(trim(line) =~= s@.subrange(a as int, b as int));
    }
    let ghost t = trim(line);
    if a == b {
        proof {
            assert(t.len() == 0);
        }
        return None;
    }
    let p = index_of_space(s, a, b);
    proof {
        assert forall|k: int| 0 <= k < p - a implies !is_space(t[k]) by {
            assert(!is_space(s@[a + k]));
        }
        if p < b {
            assert(is_space(t[p - a]));
        }
        lemma_find_space_unique(t, p - a);
    }
    let slot = substring(s, a, p);
    proof {
        assert(slot@ =~= t.subrange(0, p - a));
    }
    let r0 = skip_spaces(s, p, b);
    proof {
        assert(t.subrange(p - a, t.len() as int) =~= s@.subrange(p as int, b as int));
        let seg = s@.subrange(p as int, b as int);
        assert forall|k: int| 0 <= k < r0 - p implies is_space(seg[k]) by {
            assert(is_space(s@[p + k]));
        }
        if r0 < b {
            assert(!is_space(seg[r0 - p]));
        }
        lemma_trim_front_at(seg, r0 - p);
        assert(trim_front(t.subrange(p - a, t.len() as int)) =~= s@.subrange(
            r0 as int,
            b as int,
        ));
    }
    let ghost rest = trim_front(t.subrange(p - a, t.len() as int));
    let q = index_of_char(s, r0, b, ':');
    proof {
        assert forall|k: int| 0 <= k < q - r0 implies rest[k] != ':' by {
            assert(s@[r0 + k] != ':');
        }
        if q < b {
            assert(rest[q - r0] == ':');
        }
        lemma_find_char_unique(rest, ':', q - r0);
    }
    if q < b {
        let db = rskip_spaces(s, r0, q);
        proof {
            let seg = rest.subrange(0, q - r0);
            assert(seg =~= s@.subrange(r0 as int, q as int));
            if r0 < q {
                assert(!is_space(seg[0]));
            }
            lemma_trim_front_at(seg, 0);
            assert(trim_front(seg) == seg);
            assert forall|k: int| db - r0 <= k < seg.len() implies is_space(seg[k]) by {
                assert(is_space(s@[r0 + k]));
            }
            if db > r0 {
                assert(!is_space(seg[db - r0 - 1]));
            }
            lemma_trim_back_at(seg, db - r0);
            assert(trim(seg) =~= s@.subrange(r0 as int, db as int));
        }
        let device_type = substring(s, r0, db);
        let na = skip_spaces(s, q + 1, b);
        proof {
            let seg = rest.subrange(q - r0 + 1, rest.len() as int);
            assert(seg =~= s@.subrange(q + 1, b as int));
            assert forall|k: int| 0 <= k < na - q - 1 implies is_space(seg[k]) by {
                assert(is_space(s@[q + 1 + k]));
            }
            if na < b {
                assert(!is_space(seg[na - q - 1]));
            }
            lemma_trim_front_at(seg, na - q - 1);
            assert(trim_front(seg) =~= s@.subrange(na as int, b as int));
            let tf = s@.subrange(na as int, b as int);
            if na < b {
                assert(!is_space(tf[tf.len() - 1]));
            }
            lemma_trim_back_at(tf, tf.len() as int);
            assert(trim(seg) =~= s@.subrange(na as int, b as int));
        }
        let device_name = substring(s, na, b);
        let d = DeviceRecord { slot, device_type, device_name };
        proof {
            assert(record_of_line(line) == Some(d.deep_view()));
        }
        Some(d)
    } else {
        let device_name = substring(s, r0, b);
        let d = DeviceRecord {
            slot,
            device_type: String::from_str("Unknown"),
            device_name,
        };
        proof {
            assert(find_char(rest, ':') == rest.len());
            assert(record_of_line(line) == Some(d.deep_view()));
        }
        Some(d)
    }
}

/// Parse raw hardware-enumeration text: one record per non-blank line.
/// Never fails; malformed lines degrade to `"Unknown"`-typed records.
pub fn parse_lspci(raw: &str) -> (devices: Vec<DeviceRecord>)
    ensures
        devices.deep_view() == spec_parse(raw@),
        devices@.len() == nonblank_line_count(raw@),
{
    let n = raw.unicode_len();
    let mut devices: Vec<DeviceRecord> = Vec::new();
    let mut done = false;
    let mut i: usize = 0;
    proof {
        assert(raw@.subrange(0, n as int) =~= raw@);
        assert(devices.deep_view() =~= Seq::<DeviceRecordView>::empty());
    }
    while !done
        invariant
            i <= n,
            n == raw@.len(),
            done ==> devices.deep_view() == spec_parse(raw@),
            !done ==> devices.deep_view() + spec_parse(raw@.subrange(i as int, n as int))
                == spec_parse(raw@),
        decreases n - i + (if done { 0int } else { 1int }),
    {
        let e = index_of_char(raw, i, n, '\n');
        let ghost rem = raw@.subrange(i as int, n as int);
        proof {
            assert forall|k: int| 0 <= k < e - i implies rem[k] != '\n' by {
                assert(raw@[i + k] != '\n');
            }
            if e < n {
                assert(rem[e - i] == '\n');
            }
            lemma_find_char_unique(rem, '\n', e - i);
        }
        let rec = parse_line(raw, i, e);
        let ghost before = devices.deep_view();
        match rec {
            Some(d) => {
                let ghost dv = d.deep_view();
                devices.push(d);
                proof {
                    assert(devices.deep_view() =~= before + seq![dv]);
                }
            },
            None => {},
        }
        proof {
            assert(rem.subrange(0, e - i) =~= raw@.subrange(i as int, e as int));
            if e < n {
                assert(rem.subrange(e - i + 1, rem.len() as int) =~= raw@.subrange(
                    e + 1,
                    n as int,
                ));
                assert(spec_parse(rem) == line_records(raw@.subrange(i as int, e as int))
                    + spec_parse(raw@.subrange(e + 1, n as int)));
            } else {
                assert(rem =~= raw@.subrange(i as int, e as int));
                assert(spec_parse(rem) == line_records(rem));
            }
            assert(devices.deep_view() == before + line_records(
                raw@.subrange(i as int, e as int),
            ));
        }
        if e < n {
            i = e + 1;
        } else {
            done = true;
        }
    }
    proof {
        lemma_parse_counts_nonblank(raw@);
    }
    devices
}

/// The whole classification of raw enumeration text: its parsed device
/// list, classified. A job's recommendation set is this function of its
/// hardware text alone, hence deterministic.
pub open spec fn spec_recommend(raw: Seq<char>) -> Seq<ModuleRecView> {
    spec_detect(spec_parse(raw))
}

/// Parse raw hardware-enumeration text and classify the devices in one
/// step.
pub fn recommend_modules(raw: &str) -> (mods: Vec<ModuleRecommendation>)
    ensures
        mods.deep_view() == spec_recommend(raw@),
{
    let devices = parse_lspci(raw);
    detect_kernel_modules(&devices)
}

proof fn lemma_insert_cand_keeps_sorted(acc: Seq<Cand>, c: Cand)
    requires
        sorted_unique(acc),
    ensures
        sorted_unique(insert_cand(acc, c)),
        forall|k: int|
            0 <= k < insert_cand(acc, c).len() ==> module_rank(
                (#[trigger] insert_cand(acc, c)[k]).module,
            ) >= module_rank(c.module) || (acc.len() > 0 && module_rank(
                insert_cand(acc, c)[k].module,
            ) >= module_rank(acc.first().module)),
    decreases acc.len(),
{
    if acc.len() == 0 {
    } else if module_rank(acc.first().module) < module_rank(c.module) {
        let rest = acc.drop_first();
        assert(sorted_unique(rest)) by {
            assert(forall|i: int, j: int|
                0 <= i < j < rest.len() ==> module_rank((#[trigger] rest[i]).module)
                    < module_rank((#[trigger] rest[j]).module)) by {
                assert(forall|i: int| 0 <= i < rest.len() ==> rest[i] == acc[i + 1]);
            }
        }
        lemma_insert_cand_keeps_sorted(rest, c);
        let inner = insert_cand(rest, c);
        let r = insert_cand(acc, c);
        assert(r == seq![acc.first()] + inner);
        assert forall|i: int, j: int| 0 <= i < j < r.len() implies module_rank(
            (#[trigger] r[i]).module,
        ) < module_rank((#[trigger] r[j]).module) by {
            if i == 0 {
                assert(r[j] == inner[j - 1]);
                if rest.len() > 0 {
                    assert(rest.first() == acc[1]);
                }
            } else {
                assert(r[i] == inner[i - 1]);
                assert(r[j] == inner[j - 1]);
            }
        }
    } else if module_rank(acc.first().module) == module_rank(c.module) {
    } else {
        let r = insert_cand(acc, c);
        assert(r == seq![c] + acc);
        assert forall|i: int, j: int| 0 <= i < j < r.len() implies module_rank(
            (#[trigger] r[i]).module,
        ) < module_rank((#[trigger] r[j]).module) by {
            if i > 0 {
                assert(r[i] == acc[i - 1]);
            }
            assert(r[j] == acc[j - 1]);
        }
    }
}

proof fn lemma_insert_all_keeps_sorted(acc: Seq<Cand>, cs: Seq<Cand>)
    requires
        sorted_unique(acc),
    ensures
        sorted_unique(insert_all(acc, cs)),
    decreases cs.len(),
{
    if cs.len() > 0 {
        lemma_insert_cand_keeps_sorted(acc, cs.first());
        lemma_insert_all_keeps_sorted(insert_cand(acc, cs.first()), cs.drop_first());
    }
}

/// Law: for any device list the classification carries strictly increasing
/// module ranks, so it is sorted and free of duplicate module names.
pub proof fn lemma_classify_sorted(ds: Seq<DeviceRecordView>)
    ensures
        sorted_unique(spec_classify(ds)),
{
    assert(sorted_unique(Seq::<Cand>::empty()));
    lemma_insert_all_keeps_sorted(Seq::empty(), all_candidates(ds));
}

/// Strict lexicographic order on character sequences, by scalar value.
pub open spec fn lex_lt(a: Seq<char>, b: Seq<char>) -> bool
    decreases a.len(),
{
    if b.len() == 0 {
        false
    } else if a.len() == 0 {
        true
    } else if (a.first() as u32) < (b.first() as u32) {
        true
    } else if a.first() == b.first() {
        lex_lt(a.drop_first(), b.drop_first())
    } else {
        false
    }
}

proof fn lemma_lex_trans(a: Seq<char>, b: Seq<char>, c: Seq<char>)
    requires
        lex_lt(a, b),
        lex_lt(b, c),
    ensures
        lex_lt(a, c),
    decreases a.len(),
{
    if a.len() > 0 && b.len() > 0 && c.len() > 0 {
        if a.first() == b.first() && b.first() == c.first() {
            lemma_lex_trans(a.drop_first(), b.drop_first(), c.drop_first());
        }
    }
}

/// The module holding a given rank.
pub open spec fn module_of_rank(r: int) -> KernelModule {
    if r == 0 {
        KernelModule::Ahci
    } else if r == 1 {
        KernelModule::Amdgpu
    } else if r == 2 {
        KernelModule::Ath11k
    } else if r == 3 {
        KernelModule::BnxtEn
    } else if r == 4 {
        KernelModule::E1000e
    } else if r == 5 {
        KernelModule::I915
    } else if r == 6 {
        KernelModule::Iwlwifi
    } else if r == 7 {
        KernelModule::Nouveau
    } else if r == 8 {
        KernelModule::Nvidia
    } else if r == 9 {
        KernelModule::Nvme
    } else if r == 10 {
        KernelModule::R8169
    } else if r == 11 {
        KernelModule::SndHdaIntel
    } else {
        KernelModule::XhciHcd
    }
}

proof fn lemma_adjacent_names_ordered(r: int)
    requires
        0 <= r < 12,
    ensures
        lex_lt(module_name(module_of_rank(r)), module_name(module_of_rank(r + 1))),
{
    reveal_strlit("ahci");
    reveal_strlit("amdgpu");
    reveal_strlit("ath11k");
    reveal_strlit("bnxt_en");
    reveal_strlit("e1000e");
    reveal_strlit("i915");
    reveal_strlit("iwlwifi");
    reveal_strlit("nouveau");
    reveal_strlit("nvidia");
    reveal_strlit("nvme");
    reveal_strlit("r8169");
    reveal_strlit("snd_hda_intel");
    reveal_strlit("xhci_hcd");
    reveal_with_fuel(lex_lt, 5);
    if r == 0 {
        assert(lex_lt("ahci"@, "amdgpu"@));
    } else if r == 1 {
        assert(lex_lt("amdgpu"@, "ath11k"@));
    } else if r == 2 {
        assert(lex_lt("ath11k"@, "bnxt_en"@));
    } else if r == 3 {
        assert(lex_lt("bnxt_en"@, "e1000e"@));
    } else if r == 4 {
        assert(lex_lt("e1000e"@, "i915"@));
    } else if r == 5 {
        assert(lex_lt("i915"@, "iwlwifi"@));
    } else if r == 6 {
        assert(lex_lt("iwlwifi"@, "nouveau"@));
    } else if r == 7 {
        assert(lex_lt("nouveau"@, "nvidia"@));
    } else if r == 8 {
        assert(lex_lt("nvidia"@, "nvme"@));
    } else if r == 9 {
        assert(lex_lt("nvme"@, "r8169"@));
    } else if r == 10 {
        assert(lex_lt("r8169"@, "snd_hda_intel"@));
    } else {
        assert(lex_lt("snd_hda_intel"@, "xhci_hcd"@));
    }
}

/// Law: the rank order of two modules agrees with the lexicographic order
/// of their names.
pub proof fn lemma_rank_orders_names(m1: KernelModule, m2: KernelModule)
    requires
        module_rank(m1) < module_rank(m2),
    ensures
        lex_lt(module_name(m1), module_name(m2)),
    decreases module_rank(m2) - module_rank(m1),
{
    let r1 = module_rank(m1);
    assert(module_of_rank(r1) == m1);
    let mid = module_of_rank(r1 + 1);
    lemma_adjacent_names_ordered(r1);
    if module_rank(mid) == module_rank(m2) {
        assert(mid == m2);
    } else {
        lemma_rank_orders_names(mid, m2);
        lemma_lex_trans(module_name(m1), module_name(mid), module_name(m2));
    }
}

/// Law: for any raw device list, the recommendations come out sorted
/// strictly lexicographically by module name — sorted and deduplicated.
pub proof fn lemma_detect_sorted_dedup(ds: Seq<DeviceRecordView>)
    ensures
        forall|i: int, j: int|
            0 <= i < j < spec_detect(ds).len() ==> lex_lt(
                (#[trigger] spec_detect(ds)[i]).module,
                (#[trigger] spec_detect(ds)[j]).module,
            ),
{
    lemma_classify_sorted(ds);
    assert forall|i: int, j: int| 0 <= i < j < spec_detect(ds).len() implies lex_lt(
        (#[trigger] spec_detect(ds)[i]).module,
        (#[trigger] spec_detect(ds)[j]).module,
    ) by {
        let cs = spec_classify(ds);
        lemma_rank_orders_names(cs[i].module, cs[j].module);
    }
}

/// Law: a display device whose name mentions nvidia classifies to exactly
/// two entries, `nouveau` (disabled) ordered before `nvidia` (enabled).
pub proof fn lemma_nvidia_yields_pair(d: DeviceRecordView)
    requires
        contains_seq(lower(d.device_type), "vga"@) || contains_seq(
            lower(d.device_type),
            "display"@,
        ) || contains_seq(lower(d.device_type), "3d"@),
        contains_seq(lower(d.device_name), "nvidia"@),
    ensures
        spec_detect(seq![d]) == seq![
            ModuleRecView {
                module: "nouveau"@,
                reason: "Open-source NVIDIA (conflicts with proprietary)"@,
                enabled: false,
            },
            ModuleRecView {
                module: "nvidia"@,
                reason: "GPU: "@ + d.device_name,
                enabled: true,
            },
        ],
{
    let c1 = Cand { module: KernelModule::Nvidia, reason: "GPU: "@ + d.device_name, enabled: true };
    let c2 = Cand {
        module: KernelModule::Nouveau,
        reason: "Open-source NVIDIA (conflicts with proprietary)"@,
        enabled: false,
    };
    assert(device_candidates(d) == seq![c1, c2]);
    reveal_with_fuel(all_candidates, 3);
    assert(seq![d].drop_first() =~= Seq::<DeviceRecordView>::empty());
    assert(all_candidates(seq![d]) == seq![c1, c2] + Seq::<Cand>::empty());
    assert(all_candidates(seq![d]) =~= seq![c1, c2]);
    lemma_insert_all_two(Seq::empty(), c1, c2);
    assert(insert_cand(Seq::empty(), c1) == seq![c1]);
    assert(insert_cand(seq![c1], c2) =~= seq![c2, c1]);
    assert(spec_classify(seq![d]) == seq![c2, c1]);
    assert(spec_detect(seq![d]) =~= seq![
        ModuleRecView {
            module: "nouveau"@,
            reason: "Open-source NVIDIA (conflicts with proprietary)"@,
            enabled: false,
        },
        ModuleRecView { module: "nvidia"@, reason: "GPU: "@ + d.device_name, enabled: true },
    ]);
}

} // verus!
