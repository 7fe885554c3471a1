//! Fact, rule and finding records, each with the mathematical model that the
//! contracts of this crate speak of.

use vstd::prelude::*;

verus! {

/// Host facts gathered once per run.
#[derive(Debug, Clone)]
pub struct SystemInfo {
    pub os_name: String,
    pub os_version: String,
    pub architecture: String,
    pub cpu_model: String,
    pub ram_total_mb: i64,
    pub hostname: String,
}

/// Model of [`SystemInfo`].
pub struct SystemModel {
    pub os_name: Seq<char>,
    pub os_version: Seq<char>,
    pub architecture: Seq<char>,
    pub cpu_model: Seq<char>,
    pub ram_total_mb: int,
    pub hostname: Seq<char>,
}

impl View for SystemInfo {
    type V = SystemModel;

    open spec fn view(&self) -> SystemModel {
        SystemModel {
            os_name: self.os_name@,
            os_version: self.os_version@,
            architecture: self.architecture@,
            cpu_model: self.cpu_model@,
            ram_total_mb: self.ram_total_mb as int,
            hostname: self.hostname@,
        }
    }
}

impl DeepView for SystemInfo {
    type V = SystemModel;

    open spec fn deep_view(&self) -> SystemModel {
        self@
    }
}

/// One graphics adapter. A memory size or a temperature of zero means that
/// the value is unknown.
#[derive(Debug, Clone)]
pub struct GPUInfo {
    pub index: usize,
    pub name: String,
    pub vendor: String,
    pub driver_version: String,
    pub vram_total_mb: i64,
    pub temperature_c: i32,
    pub is_nvidia: bool,
}

/// Model of [`GPUInfo`].
pub struct GpuModel {
    pub index: nat,
    pub name: Seq<char>,
    pub vendor: Seq<char>,
    pub driver_version: Seq<char>,
    pub vram_total_mb: int,
    pub temperature_c: int,
    pub is_nvidia: bool,
}

impl View for GPUInfo {
    type V = GpuModel;

    open spec fn view(&self) -> GpuModel {
        GpuModel {
            index: self.index as nat,
            name: self.name@,
            vendor: self.vendor@,
            driver_version: self.driver_version@,
            vram_total_mb: self.vram_total_mb as int,
            temperature_c: self.temperature_c as int,
            is_nvidia: self.is_nvidia,
        }
    }
}

impl DeepView for GPUInfo {
    type V = GpuModel;

    open spec fn deep_view(&self) -> GpuModel {
        self@
    }
}

/// Driver facts. An empty string means that the value was not detected.
#[derive(Debug, Clone)]
pub struct DriverInfo {
    pub version: String,
    pub cuda_version: String,
}

/// Model of [`DriverInfo`].
pub struct DriverModel {
    pub version: Seq<char>,
    pub cuda_version: Seq<char>,
}

impl View for DriverInfo {
    type V = DriverModel;

    open spec fn view(&self) -> DriverModel {
        DriverModel { version: self.version@, cuda_version: self.cuda_version@ }
    }
}

impl DeepView for DriverInfo {
    type V = DriverModel;

    open spec fn deep_view(&self) -> DriverModel {
        self@
    }
}

/// One reported diagnostic result.
#[derive(Debug, Clone)]
pub struct Finding {
    pub severity: String,
    pub title: String,
    pub evidence: String,
    pub why_it_matters: String,
    pub next_steps: Vec<String>,
    pub confidence: u32,
    pub category: String,
}

/// Model of [`Finding`].
pub struct FindingModel {
    pub severity: Seq<char>,
    pub title: Seq<char>,
    pub evidence: Seq<char>,
    pub why_it_matters: Seq<char>,
    pub next_steps: Seq<Seq<char>>,
    pub confidence: nat,
    pub category: Seq<char>,
}

impl View for Finding {
    type V = FindingModel;

    open spec fn view(&self) -> FindingModel {
        FindingModel {
            severity: self.severity@,
            title: self.title@,
            evidence: self.evidence@,
            why_it_matters: self.why_it_matters@,
            next_steps: self.next_steps.deep_view(),
            confidence: self.confidence as nat,
            category: self.category@,
        }
    }
}

impl DeepView for Finding {
    type V = FindingModel;

    open spec fn deep_view(&self) -> FindingModel {
        self@
    }
}

/// Metadata and applicability of one diagnostic check. The `id` selects
/// the check; a rule without a platform applies on every platform.
#[derive(Debug, Clone)]
pub struct Rule {
    pub id: String,
    pub title: String,
    pub category: String,
    pub severity: String,
    pub base_confidence: u32,
    pub modes: Vec<String>,
    pub platform: Option<String>,
    pub description: String,
}

/// Model of [`Rule`].
pub struct RuleModel {
    pub id: Seq<char>,
    pub title: Seq<char>,
    pub category: Seq<char>,
    pub severity: Seq<char>,
    pub base_confidence: nat,
    pub modes: Seq<Seq<char>>,
    pub platform: Option<Seq<char>>,
    pub description: Seq<char>,
}

impl RuleModel {
    /// What a catalog is expected to hold of a rule: a confidence of at most
    /// one hundred, and at least one mode. The engine takes any rule; one
    /// without modes never applies.
    pub open spec fn well_formed(self) -> bool {
        self.base_confidence <= 100 && self.modes.len() > 0
    }
}

impl View for Rule {
    type V = RuleModel;

    open spec fn view(&self) -> RuleModel {
        RuleModel {
            id: self.id@,
            title: self.title@,
            category: self.category@,
            severity: self.severity@,
            base_confidence: self.base_confidence as nat,
            modes: self.modes.deep_view(),
            platform: self.platform.deep_view(),
            description: self.description@,
        }
    }
}

impl DeepView for Rule {
    type V = RuleModel;

    open spec fn deep_view(&self) -> RuleModel {
        self@
    }
}

/// A rule catalog as it is stored: a header and the rules in catalog order.
#[derive(Debug, Clone)]
pub struct RulesFile {
    pub description: String,
    pub version: String,
    pub rules: Vec<Rule>,
}

/// Model of [`RulesFile`].
pub struct RulesFileModel {
    pub description: Seq<char>,
    pub version: Seq<char>,
    pub rules: Seq<RuleModel>,
}

impl View for RulesFile {
    type V = RulesFileModel;

    open spec fn view(&self) -> RulesFileModel {
        RulesFileModel {
            description: self.description@,
            version: self.version@,
            rules: self.rules.deep_view(),
        }
    }
}

impl DeepView for RulesFile {
    type V = RulesFileModel;

    open spec fn deep_view(&self) -> RulesFileModel {
        self@
    }
}

} // verus!
