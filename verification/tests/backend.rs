use system_tuner::backend::command::command_outcome;
use system_tuner::backend::performance::{
    get_cpu_info, get_power_profiles, governor_command, power_profile_commands, PowerProfile, PowerSetting,
};
use system_tuner::backend::storage::{
    get_disks, get_swap_info, get_zram_info, io_scheduler_path, set_io_scheduler_command, swappiness_assignment,
};
use system_tuner::backend::sysctl::{
    common_params_catalog, get_all_params, get_common_params, read_sysctl, sysctl_assignment,
};
use system_tuner::backend::systemd::{
    filter_accepts, is_service_active, is_service_enabled, list_services, matches_filter, service_catalog,
    service_status,
};

#[test]
fn command_outcome_reports_error_stream() {
    assert_eq!(command_outcome(true, "ignored"), Ok(()));
    assert_eq!(command_outcome(false, "permission denied\n"), Err("permission denied\n".to_string()));
}

#[test]
fn common_params_catalog_lists_ten_parameters() {
    let cat = common_params_catalog();
    assert_eq!(cat.len(), 10);
    assert_eq!(cat[0].key, "vm.swappiness");
    assert_eq!(cat[0].category, "Memory");
    assert_eq!(cat[0].default, "60");
    assert_eq!(cat[0].value, "");
    assert_eq!(cat[4].key, "net.core.rmem_max");
    assert_eq!(cat[4].default, "212992");
    assert_eq!(cat[9].key, "kernel.nmi_watchdog");
    assert_eq!(cat[9].category, "Scheduler");
}

#[test]
fn common_params_take_read_values_or_defaults() {
    let mut readings: Vec<Result<String, String>> = (0..10).map(|_| Err("no sysctl".to_string())).collect();
    readings[0] = Ok("30".to_string());
    readings[3] = Ok("50".to_string());
    let params = get_common_params(&readings);
    assert_eq!(params.len(), 10);
    assert_eq!(params[0].value, "30");
    assert_eq!(params[1].value, "20");
    assert_eq!(params[3].value, "50");
    assert_eq!(params[5].value, "212992");
    assert_eq!(params[8].key, "kernel.sched_autogroup_enabled");
    assert_eq!(params[8].value, "1");
}

#[test]
fn read_sysctl_trims_output_or_reports_error() {
    assert_eq!(read_sysctl(true, "60\n", ""), Ok("60".to_string()));
    assert_eq!(read_sysctl(false, "", "sysctl: cannot stat /proc/sys/x: No such file\n"),
        Err("sysctl: cannot stat /proc/sys/x: No such file\n".to_string()));
}

#[test]
fn sysctl_assignment_joins_key_and_value() {
    assert_eq!(sysctl_assignment("vm.swappiness", "10"), "vm.swappiness=10");
    assert_eq!(swappiness_assignment(200), "vm.swappiness=200");
}

#[test]
fn all_params_keep_last_value_of_each_key() {
    let out = "vm.swappiness = 60\nkernel.hostname = box\nnoise line\nvm.swappiness = 10\n  net.x  =  a = b \n";
    let mut params = get_all_params(true, out);
    params.sort();
    assert_eq!(params, vec![
        ("kernel.hostname".to_string(), "box".to_string()),
        ("net.x".to_string(), "a = b".to_string()),
        ("vm.swappiness".to_string(), "10".to_string()),
    ]);
    assert!(get_all_params(false, out).is_empty());
    assert!(get_all_params(true, "").is_empty());
}

#[test]
fn service_catalog_has_seventeen_services() {
    let cat = service_catalog();
    assert_eq!(cat.len(), 17);
    assert_eq!(cat[0], ("NetworkManager".to_string(), "Менеджер сети".to_string()));
    assert_eq!(cat[16].0, "ModemManager");
}

#[test]
fn filter_is_case_insensitive_substring() {
    assert!(matches_filter("NetworkManager", ""));
    assert!(matches_filter("NetworkManager", "NETWORK"));
    assert!(matches_filter("ModemManager", "manager"));
    assert!(!matches_filter("cups", "ssh"));
    assert!(filter_accepts("", "x", "zzz"));
    assert!(!filter_accepts("Z", "x", "z"));
    assert!(filter_accepts("Z", "xz", "z"));
}

#[test]
fn list_services_filters_and_states() {
    let states: Vec<(bool, bool)> = (0..17).map(|i| (i % 2 == 0, i % 3 == 0)).collect();
    let all = list_services("", &states);
    assert_eq!(all.len(), 17);
    assert_eq!(all[0].name, "NetworkManager");
    assert_eq!(all[0].status, "active");
    assert_eq!(all[1].status, "inactive");
    assert_eq!(all[2].status, "enabled");
    let pipes = list_services("PIPE", &states);
    let names: Vec<&str> = pipes.iter().map(|s| s.name.as_str()).collect();
    assert_eq!(names, vec!["pipewire", "pipewire-pulse"]);
    assert_eq!(pipes[0].description, "Аудио сервер");
    assert_eq!(pipes[0].enabled, states[5].0);
    assert_eq!(pipes[0].active, states[5].1);
    assert!(list_services("no such service", &states).is_empty());
}

#[test]
fn service_status_words() {
    assert_eq!(service_status(true, true), "active");
    assert_eq!(service_status(false, true), "active");
    assert_eq!(service_status(true, false), "enabled");
    assert_eq!(service_status(false, false), "inactive");
}

#[test]
fn systemctl_replies() {
    assert!(is_service_enabled("enabled\n"));
    assert!(!is_service_enabled("disabled\n"));
    assert!(!is_service_enabled("enabled-runtime\n"));
    assert!(is_service_active(" active\n"));
    assert!(!is_service_active("inactive\n"));
    assert!(!is_service_active(""));
}

#[test]
fn swap_info_from_meminfo() {
    let meminfo = "MemTotal:       16000000 kB\nSwapCached:            0 kB\nSwapTotal:       8388604 kB\nSwapFree:        8126460 kB\n";
    let info = get_swap_info(meminfo, "60\n");
    assert_eq!(info.total, "8191 MB");
    assert_eq!(info.free, "7935 MB");
    assert_eq!(info.used, "256 MB");
    assert_eq!(info.swappiness, "60");
}

#[test]
fn swap_info_edge_cases() {
    let info = get_swap_info("", "");
    assert_eq!(info.total, "0 MB");
    assert_eq!(info.used, "0 MB");
    assert_eq!(info.free, "0 MB");
    assert_eq!(info.swappiness, "");
    let info = get_swap_info("SwapTotal: 1024 kB\nSwapFree: 4096 kB\nSwapTotal:\n", "");
    assert_eq!(info.total, "0 MB");
    assert_eq!(info.free, "4 MB");
    assert_eq!(info.used, "0 MB");
}

#[test]
fn zram_from_zramctl() {
    let out = "NAME       ALGORITHM DISKSIZE DATA COMPR TOTAL STREAMS MOUNTPOINT\n/dev/zram0 zstd          7.7G   4K   59B   20K       8 [SWAP]\n";
    let z = get_zram_info(true, out);
    assert!(z.available);
    assert_eq!(z.size, "7.7G");
    assert_eq!(z.algorithm, "4K");
    let none = get_zram_info(true, "NAME ALGORITHM\n");
    assert!(!none.available);
    assert_eq!(none.size, "N/A");
    assert_eq!(none.algorithm, "N/A");
    assert!(!get_zram_info(false, out).available);
    assert!(!get_zram_info(true, "h\na b c\n").available);
}

#[test]
fn disks_from_lsblk() {
    let out = "NAME MOUNTPOINT FSTYPE SIZE ROTA SCHED\nnvme0n1p2 / ext4 476G 0 none\nsda /data xfs 1.8T 1\nloop0\n";
    let disks = get_disks(true, out);
    assert_eq!(disks.len(), 2);
    assert_eq!(disks[0].device, "/dev/nvme0n1p2");
    assert_eq!(disks[0].mount, "/");
    assert_eq!(disks[0].fs_type, "ext4");
    assert_eq!(disks[0].size, "476G");
    assert!(disks[0].is_ssd);
    assert_eq!(disks[0].scheduler, "none");
    assert_eq!(disks[1].device, "/dev/sda");
    assert!(!disks[1].is_ssd);
    assert_eq!(disks[1].scheduler, "");
    assert!(get_disks(false, out).is_empty());
    assert!(get_disks(true, "").is_empty());
}

#[test]
fn scheduler_paths_and_commands() {
    assert_eq!(io_scheduler_path("/dev/sda"), "/sys/block/sda/queue/scheduler");
    assert_eq!(io_scheduler_path("nvme0n1"), "/sys/block/nvme0n1/queue/scheduler");
    assert_eq!(set_io_scheduler_command("/dev/sda", "bfq"), "echo bfq > /sys/block/sda/queue/scheduler");
}

#[test]
fn cpu_info_from_proc_and_cpufreq() {
    let cpuinfo = "processor\t: 0\nmodel name\t: AMD Ryzen 7 5800X 8-Core Processor\n\nprocessor\t: 1\nmodel name\t: AMD Ryzen 7 5800X 8-Core Processor\n";
    let cpu = get_cpu_info(cpuinfo, "schedutil\n", "performance schedutil powersave\n", "3600000\n");
    assert_eq!(cpu.model, "AMD Ryzen 7 5800X 8-Core Processor");
    assert_eq!(cpu.cores, 2);
    assert_eq!(cpu.governor, "schedutil");
    assert_eq!(cpu.available_governors, vec!["performance", "schedutil", "powersave"]);
    assert_eq!(cpu.frequency, "3600 MHz");
}

#[test]
fn cpu_info_when_nothing_could_be_read() {
    let cpu = get_cpu_info("", "", "", "");
    assert_eq!(cpu.model, "");
    assert_eq!(cpu.cores, 0);
    assert_eq!(cpu.governor, "");
    assert!(cpu.available_governors.is_empty());
    assert_eq!(cpu.frequency, "N/A");
    let cpu = get_cpu_info("model name : a : b\n", "", "", "x");
    assert_eq!(cpu.model, "a");
    assert_eq!(cpu.frequency, "N/A");
}

#[test]
fn power_profiles_are_fixed() {
    let p = get_power_profiles();
    let names: Vec<&str> = p.iter().map(|p| p.name.as_str()).collect();
    assert_eq!(names, vec!["Performance", "Balanced", "Powersave"]);
    assert_eq!(p[0].settings[0].key, "CPU Governor");
    assert_eq!(p[0].settings[0].value, "performance");
    assert_eq!(p[1].settings[1].value, "60");
    assert_eq!(p[2].settings[2].value, "disabled");
    assert_eq!(p[2].description, "Максимальное время батареи");
}

#[test]
fn governor_command_text() {
    assert_eq!(
        governor_command("powersave"),
        "for cpu in /sys/devices/system/cpu/cpu*/cpufreq/scaling_governor; do echo powersave > $cpu; done"
    );
}

#[test]
fn profile_commands_in_order() {
    let p = get_power_profiles();
    let cmds = power_profile_commands(&p[0]);
    assert_eq!(cmds, vec![
        vec!["sh".to_string(), "-c".to_string(), governor_command("performance")],
        vec!["sysctl".to_string(), "-w".to_string(), "vm.swappiness=10".to_string()],
        vec!["sh".to_string(), "-c".to_string(), "echo 1 > /sys/devices/system/cpu/cpboost".to_string()],
    ]);
    let cmds = power_profile_commands(&p[2]);
    assert_eq!(cmds[2][2], "echo 0 > /sys/devices/system/cpu/cpboost");
    for profile in &p {
        assert_eq!(power_profile_commands(profile).len(), profile.settings.len());
    }
    let custom = PowerProfile {
        name: "x".to_string(),
        description: String::new(),
        settings: vec![
            PowerSetting { key: "Unknown".to_string(), value: "1".to_string(), description: String::new() },
            PowerSetting { key: "CPU Boost".to_string(), value: "ENABLED".to_string(), description: String::new() },
        ],
    };
    let cmds = power_profile_commands(&custom);
    assert_eq!(cmds.len(), 1);
    assert_eq!(cmds[0][2], "echo 0 > /sys/devices/system/cpu/cpboost");
}
