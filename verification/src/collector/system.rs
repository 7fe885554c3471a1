//! Host facts, read from what the system's tools print.

use crate::scan::{trim, trimmed};
use crate::types::SystemInfo;
use vstd::prelude::*;
use vstd::string::StringExecFns;

verus! {

/// What stands in a report where a tool gave nothing.
pub open spec fn unknown() -> Seq<char> {
    "unknown"@
}

/// What a tool printed, or `unknown` where it gave nothing.
pub open spec fn or_unknown(output: Option<Seq<char>>) -> Seq<char> {
    match output {
        Some(text) => text,
        None => unknown(),
    }
}

/// What a finished command contributes: its standard output without the
/// whitespace around it where the command succeeded, nothing where it
/// failed.
pub fn run_command(succeeded: bool, stdout: &str) -> (output: Option<String>)
    ensures
        output.deep_view() == if succeeded {
            Some(trimmed(stdout@))
        } else {
            None
        },
{
    if succeeded {
        Some(trim(stdout))
    } else {
        None
    }
}

/// The version of the operating system, from the output of the version
/// query.
pub fn get_os_version(output: Option<String>) -> (version: String)
    ensures
        version@ == or_unknown(output.deep_view()),
{
    match output {
        Some(text) => text,
        None => String::from_str("unknown"),
    }
}

/// The processor's name, from the output of the processor query, without
/// the whitespace around it.
pub fn get_cpu_model(output: Option<String>) -> (model: String)
    ensures
        model@ == match output.deep_view() {
            Some(text) => trimmed(text),
            None => unknown(),
        },
{
    match output {
        Some(text) => trim(text.as_str()),
        None => String::from_str("unknown"),
    }
}

/// The machine's name, from the output of the host name query.
pub fn get_hostname(output: Option<String>) -> (name: String)
    ensures
        name@ == or_unknown(output.deep_view()),
{
    match output {
        Some(text) => text,
        None => String::from_str("unknown"),
    }
}

/// The host facts of a run. The operating system's name and the
/// architecture are the platform's own identifiers; the rest comes from the
/// output of three queries. The memory size is not collected and stays
/// zero.
pub fn collect_system_info(
    os_name: &str,
    architecture: &str,
    os_version: Option<String>,
    cpu_model: Option<String>,
    hostname: Option<String>,
) -> (system: SystemInfo)
    ensures
        system@.os_name == os_name@,
        system@.architecture == architecture@,
        system@.os_version == or_unknown(os_version.deep_view()),
        system@.cpu_model == match cpu_model.deep_view() {
            Some(text) => trimmed(text),
            None => unknown(),
        },
        system@.hostname == or_unknown(hostname.deep_view()),
        system@.ram_total_mb == 0,
{
    SystemInfo {
        os_name: String::from_str(os_name),
        os_version: get_os_version(os_version),
        architecture: String::from_str(architecture),
        cpu_model: get_cpu_model(cpu_model),
        ram_total_mb: 0,
        hostname: get_hostname(hostname),
    }
}

} // verus!
