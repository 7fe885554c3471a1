use nvcheckup::collector::gpu::{
    collect_gpu_info, driver_version_of, parse_cuda_version, parse_gpus,
};
use nvcheckup::collector::system::{
    collect_system_info, get_cpu_model, get_hostname, get_os_version, run_command,
};

const SUMMARY: &str = "Wed Oct 28 10:00:00 2026\n\
+-----------------------------------------------------------------------------------------+\n\
| NVIDIA-SMI 535.104.05             Driver Version: 535.104.05     CUDA Version: 12.2     |\n\
|-----------------------------------------+------------------------+----------------------+\n\
| GPU  Name                 Persistence-M | Bus-Id          Disp.A | Volatile Uncorr. ECC |\n\
+-----------------------------------------------------------------------------------------+";

#[test]
fn adapter_query_is_read_line_by_line() {
    let output = "0, NVIDIA GeForce RTX 3080, 535.104.05, 10240, 45\n\
                  1, NVIDIA GeForce GT 1030, 535.104.05, 2048, 90";
    let (gpus, driver) = collect_gpu_info(Some(output), Some(SUMMARY));
    assert_eq!(gpus.len(), 2);
    assert_eq!(gpus[0].index, 0);
    assert_eq!(gpus[0].name, "NVIDIA GeForce RTX 3080");
    assert_eq!(gpus[0].vendor, "NVIDIA");
    assert_eq!(gpus[0].driver_version, "535.104.05");
    assert_eq!(gpus[0].vram_total_mb, 10240);
    assert_eq!(gpus[0].temperature_c, 45);
    assert!(gpus[0].is_nvidia);
    assert_eq!(gpus[1].index, 1);
    assert_eq!(gpus[1].name, "NVIDIA GeForce GT 1030");
    assert_eq!(gpus[1].vram_total_mb, 2048);
    assert_eq!(gpus[1].temperature_c, 90);
    assert_eq!(driver.version, "535.104.05");
    assert_eq!(driver.cuda_version, "12.2");
}

#[test]
fn missing_tool_leaves_everything_empty() {
    let (gpus, driver) = collect_gpu_info(None, None);
    assert!(gpus.is_empty());
    assert_eq!(driver.version, "");
    assert_eq!(driver.cuda_version, "");
    let (gpus, driver) = collect_gpu_info(Some(""), Some(""));
    assert!(gpus.is_empty());
    assert_eq!(driver.version, "");
    assert_eq!(driver.cuda_version, "");
    let (gpus, driver) = collect_gpu_info(None, Some(SUMMARY));
    assert!(gpus.is_empty());
    assert_eq!(driver.version, "");
    assert_eq!(driver.cuda_version, "12.2");
}

#[test]
fn short_lines_are_passed_over_and_bad_numbers_count_as_zero() {
    let output = "No devices were found\n\
                  x, Tesla T4, , [N/A], hot\r\n\
                  a, b, c, d\n\
                  \n\
                  +3,  Quadro ,530.30.02 , -12,\t77 , extra, fields\n\
                  99999999999999999999, big, 1, 99999999999999999999, 2147483648";
    let gpus = parse_gpus(output);
    assert_eq!(gpus.len(), 3);
    assert_eq!(gpus[0].index, 0);
    assert_eq!(gpus[0].name, "Tesla T4");
    assert_eq!(gpus[0].driver_version, "");
    assert_eq!(gpus[0].vram_total_mb, 0);
    assert_eq!(gpus[0].temperature_c, 0);
    assert_eq!(gpus[1].index, 3);
    assert_eq!(gpus[1].name, "Quadro ,530.30.02");
    assert_eq!(gpus[1].driver_version, "-12,\t77");
    assert_eq!(gpus[1].vram_total_mb, 0);
    assert_eq!(gpus[1].temperature_c, 0);
    assert_eq!(gpus[2].index, 0);
    assert_eq!(gpus[2].name, "big");
    assert_eq!(gpus[2].vram_total_mb, 0);
    assert_eq!(gpus[2].temperature_c, 0);
    assert_eq!(driver_version_of(&gpus), "-12,\t77");
}

#[test]
fn numbers_of_a_line_are_read_with_their_signs() {
    let gpus = parse_gpus(" 7 , name, 1.2, -300 , +81 ");
    assert_eq!(gpus.len(), 1);
    assert_eq!(gpus[0].index, 7);
    assert_eq!(gpus[0].vram_total_mb, -300);
    assert_eq!(gpus[0].temperature_c, 81);
    let gpus = parse_gpus("-1, name, 1.2, 9223372036854775807, -2147483648");
    assert_eq!(gpus[0].index, 0);
    assert_eq!(gpus[0].vram_total_mb, i64::MAX);
    assert_eq!(gpus[0].temperature_c, i32::MIN);
}

#[test]
fn driver_version_is_that_of_the_first_adapter_that_reports_one() {
    let gpus = parse_gpus("0, a, , 1, 1\n1, b, 470.1, 1, 1\n2, c, 535.2, 1, 1");
    assert_eq!(gpus.len(), 3);
    assert_eq!(driver_version_of(&gpus), "470.1");
    assert_eq!(driver_version_of(&gpus[..1]), "");
    assert_eq!(driver_version_of(&gpus[2..]), "535.2");
    assert_eq!(driver_version_of(&[]), "");
    let (_, driver) = collect_gpu_info(Some("0, a, , 1, 1\n1, b, 470.1, 1, 1"), None);
    assert_eq!(driver.version, "470.1");
}

#[test]
fn cuda_version_follows_the_label() {
    assert_eq!(parse_cuda_version(SUMMARY), "12.2");
    assert_eq!(parse_cuda_version("CUDA Version: 11.8"), "11.8");
    assert_eq!(parse_cuda_version("CUDA Version: 11.8.1-rc"), "11.8.1");
    assert_eq!(parse_cuda_version("CUDA Version:x12.4 "), "12.4");
    assert_eq!(parse_cuda_version("CUDA Version: N/A"), "");
    assert_eq!(parse_cuda_version("CUDA Version:  12.4"), "");
    assert_eq!(parse_cuda_version("CUDA Version 12.4"), "");
    assert_eq!(parse_cuda_version("cuda version: 12.4"), "");
    assert_eq!(parse_cuda_version("CUDA Version:"), "");
    assert_eq!(parse_cuda_version("CUDA Version: "), "");
    assert_eq!(parse_cuda_version(""), "");
    assert_eq!(parse_cuda_version("CUDA Version: ..."), "...");
    assert_eq!(parse_cuda_version("CUDA Version: 1 CUDA Version: 2"), "1");
}

#[test]
fn last_line_with_a_cuda_version_wins() {
    assert_eq!(parse_cuda_version("CUDA Version: 11.0\nCUDA Version: 12.0\n"), "12.0");
    assert_eq!(parse_cuda_version("CUDA Version: 11.0\r\nCUDA Version: N/A\nx"), "11.0");
    assert_eq!(parse_cuda_version("CUDA\nVersion: 11.0"), "");
}

#[test]
fn run_command_trims_the_output_of_a_successful_command() {
    assert_eq!(run_command(true, "  6.1.0-13-amd64\n"), Some("6.1.0-13-amd64".to_string()));
    assert_eq!(run_command(true, ""), Some(String::new()));
    assert_eq!(run_command(true, " \n "), Some(String::new()));
    assert_eq!(run_command(false, "6.1.0"), None);
    assert_eq!(run_command(false, ""), None);
}

#[test]
fn missing_answers_become_unknown() {
    assert_eq!(get_os_version(None), "unknown");
    assert_eq!(get_os_version(Some("6.1.0".to_string())), "6.1.0");
    assert_eq!(get_os_version(Some(String::new())), "");
    assert_eq!(get_hostname(None), "unknown");
    assert_eq!(get_hostname(Some(" box ".to_string())), " box ");
    assert_eq!(get_cpu_model(None), "unknown");
    assert_eq!(get_cpu_model(Some("  AMD Ryzen 9 \n".to_string())), "AMD Ryzen 9");
    assert_eq!(get_cpu_model(Some("   ".to_string())), "");
}

#[test]
fn system_info_is_put_together_from_the_answers() {
    let system = collect_system_info(
        "linux",
        "x86_64",
        Some("6.1.0".to_string()),
        Some(" AMD Ryzen 9".to_string()),
        None,
    );
    assert_eq!(system.os_name, "linux");
    assert_eq!(system.architecture, "x86_64");
    assert_eq!(system.os_version, "6.1.0");
    assert_eq!(system.cpu_model, "AMD Ryzen 9");
    assert_eq!(system.hostname, "unknown");
    assert_eq!(system.ram_total_mb, 0);
}
