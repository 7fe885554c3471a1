use nvcheckup::cli::{exit_code, is_known_mode, parse_command, parse_run_args, Command};
use nvcheckup::report::text::generate;
use nvcheckup::types::{DriverInfo, Finding, GPUInfo, SystemInfo};

const NOTICE: &str = "NVCheckup is an unofficial community tool, not affiliated with or endorsed by NVIDIA Corporation.";

fn system() -> SystemInfo {
    SystemInfo {
        os_name: "linux".to_string(),
        os_version: "6.1.0".to_string(),
        architecture: "x86_64".to_string(),
        cpu_model: "Test CPU".to_string(),
        ram_total_mb: 0,
        hostname: "box".to_string(),
    }
}

fn finding(severity: &str, title: &str, confidence: u32) -> Finding {
    Finding {
        severity: severity.to_string(),
        title: title.to_string(),
        evidence: format!("evidence of {}", title),
        why_it_matters: format!("why {}", title),
        next_steps: vec!["ignored".to_string()],
        confidence,
        category: "cat".to_string(),
    }
}

fn args(words: &[&str]) -> Vec<String> {
    words.iter().map(|w| w.to_string()).collect()
}

#[test]
fn empty_run_is_reported_in_full() {
    let driver = DriverInfo { version: String::new(), cuda_version: String::new() };
    let report = generate(&system(), &[], &driver, &[], "full", "0.3");
    let line = "─".repeat(72);
    let expected = format!(
        "{line}\n  NVCheckup v0.2.0 — NVIDIA Diagnostic Report (Rust)\n  {NOTICE}\n{line}\n  \
         Mode:      full\n  Platform:  linux\n  Runtime:   0.3s\n{line}\n\n== SYSTEM INFO \
         ==\n\n  OS:           linux 6.1.0\n  Architecture: x86_64\n  CPU:          Test \
         CPU\n{line}\n\n== GPU INVENTORY ==\n\n  No GPUs detected.\n  NVIDIA Driver: N/A\n  \
         CUDA (driver): N/A\n{line}\n\n== FINDINGS ==\n\n  No issues \
         detected.\n{line}\n\n== PRIVACY & DATA ==\n\n  This report was generated locally. No \
         data was sent anywhere.\n  NVCheckup does not modify your system, drivers, or \
         settings.\n\n{line}\n  {NOTICE}\n{line}\n"
    );
    assert_eq!(report, expected);
}

#[test]
fn adapters_and_findings_are_listed_with_their_numbers() {
    let gpus = vec![
        GPUInfo {
            index: 0,
            name: "RTX 3080".to_string(),
            vendor: "NVIDIA".to_string(),
            driver_version: "535.104.05".to_string(),
            vram_total_mb: 10240,
            temperature_c: 45,
            is_nvidia: true,
        },
        GPUInfo {
            index: 12,
            name: "UHD 770".to_string(),
            vendor: "Intel".to_string(),
            driver_version: String::new(),
            vram_total_mb: 0,
            temperature_c: -3,
            is_nvidia: false,
        },
    ];
    let driver = DriverInfo { version: "535.104.05".to_string(), cuda_version: "12.2".to_string() };
    let findings = vec![
        finding("CRIT", "first", 90),
        finding("CRIT", "second", 100),
        finding("WARN", "third", 0),
        finding("NOTE", "fourth", 7),
    ];
    let report = generate(&system(), &gpus, &driver, &findings, "gaming", "12.0");
    let line = "─".repeat(72);
    let inventory = format!(
        "\n== GPU INVENTORY ==\n\n  [GPU 0] RTX 3080\n    Driver:  535.104.05\n    VRAM:    \
         10240 MB\n    Temp:    45°C\n\n  [GPU 12] UHD 770\n    Driver:  \n\n  NVIDIA Driver: \
         535.104.05\n  CUDA (driver): 12.2\n{line}\n"
    );
    assert!(report.contains(&inventory), "{}", report);
    let listed = format!(
        "\n== FINDINGS ==\n\n  Total: 2 CRITICAL, 1 WARNING, 0 INFO\n\n  [CRIT] #1: first \
         (confidence: 90%)\n    Evidence:     evidence of first\n    Why:          why \
         first\n\n  [CRIT] #2: second (confidence: 100%)\n    Evidence:     evidence of \
         second\n    Why:          why second\n\n  [WARN] #3: third (confidence: 0%)\n    \
         Evidence:     evidence of third\n    Why:          why third\n\n  [NOTE] #4: fourth \
         (confidence: 7%)\n    Evidence:     evidence of fourth\n    Why:          why \
         fourth\n\n{line}\n"
    );
    assert!(report.contains(&listed), "{}", report);
    assert!(report.contains("  Mode:      gaming\n  Platform:  linux\n  Runtime:   12.0s\n"));
    assert!(!report.contains("ignored"));
    assert!(!report.contains("No issues detected."));
    assert!(!report.contains("No GPUs detected."));
}

#[test]
fn commands_are_told_apart() {
    assert_eq!(parse_command("run"), Command::Run);
    assert_eq!(parse_command("version"), Command::Version);
    assert_eq!(parse_command("--version"), Command::Version);
    assert_eq!(parse_command("-v"), Command::Version);
    assert_eq!(parse_command("help"), Command::Help);
    assert_eq!(parse_command("--help"), Command::Help);
    assert_eq!(parse_command("-h"), Command::Help);
    assert_eq!(parse_command("Run"), Command::Unknown);
    assert_eq!(parse_command(""), Command::Unknown);
    assert_eq!(parse_command("runs"), Command::Unknown);
}

#[test]
fn five_modes_are_known() {
    for mode in ["gaming", "ai", "creator", "streaming", "full"] {
        assert!(is_known_mode(mode));
    }
    for mode in ["", "Gaming", "all", "full ", "a"] {
        assert!(!is_known_mode(mode));
    }
}

#[test]
fn run_arguments_are_read_from_left_to_right() {
    let options = parse_run_args(&[]);
    assert_eq!(options.mode, "full");
    assert!(!options.verbose);
    let options = parse_run_args(&args(&["--mode", "gaming"]));
    assert_eq!(options.mode, "gaming");
    assert!(!options.verbose);
    let options = parse_run_args(&args(&["--verbose", "--mode", "ai", "--mode", "creator"]));
    assert_eq!(options.mode, "creator");
    assert!(options.verbose);
    let options = parse_run_args(&args(&["--mode"]));
    assert_eq!(options.mode, "full");
    let options = parse_run_args(&args(&["--mode", "--verbose"]));
    assert_eq!(options.mode, "--verbose");
    assert!(!options.verbose);
    let options = parse_run_args(&args(&["--mode", "--mode", "--verbose", "x", "--mode"]));
    assert_eq!(options.mode, "--mode");
    assert!(options.verbose);
    let options = parse_run_args(&args(&["gaming", "-v", "--Verbose"]));
    assert_eq!(options.mode, "full");
    assert!(!options.verbose);
}

#[test]
fn exit_code_follows_the_worst_finding() {
    assert_eq!(exit_code(&[]), 0);
    assert_eq!(exit_code(&[finding("INFO", "a", 1), finding("NOTE", "b", 1)]), 0);
    assert_eq!(exit_code(&[finding("INFO", "a", 1), finding("WARN", "b", 1)]), 1);
    assert_eq!(exit_code(&[finding("WARN", "a", 1), finding("CRIT", "b", 1)]), 2);
    assert_eq!(exit_code(&[finding("CRIT", "a", 1), finding("WARN", "b", 1)]), 2);
    assert_eq!(exit_code(&[finding("crit", "a", 1)]), 0);
}
