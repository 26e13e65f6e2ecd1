use system_tuner::app::{App, Page};
use system_tuner::backend::performance::get_cpu_info;
use system_tuner::backend::storage::{get_disks, get_swap_info, get_zram_info};
use system_tuner::pages::kernel::{search_accepts, KernelPage};
use system_tuner::pages::performance::PerformancePage;
use system_tuner::pages::services::{
    offered_action, status_label, toggle_action, toggle_label, ServiceAction, ServiceCommand, ServicesPage,
};
use system_tuner::pages::status::error_status;
use system_tuner::pages::storage::{disk_kind, trim_label, StoragePage};

fn failed_readings() -> Vec<Result<String, String>> {
    (0..10).map(|_| Err("fail".to_string())).collect()
}

fn states() -> Vec<(bool, bool)> {
    (0..17).map(|i| (i % 2 == 0, i % 4 == 0)).collect()
}

fn storage_page() -> StoragePage {
    StoragePage::new(
        get_swap_info("SwapTotal: 2048 kB\nSwapFree: 1024 kB\n", "60\n"),
        get_zram_info(false, ""),
        get_disks(true, "NAME\nsda / ext4 1T 1\n"),
        false,
    )
}

#[test]
fn error_status_prefix() {
    assert_eq!(error_status("boom"), "Ошибка: boom");
}

#[test]
fn kernel_page_new_and_refresh() {
    let mut page = KernelPage::new(&failed_readings());
    assert_eq!(page.params.len(), 10);
    assert_eq!(page.params[0].value, "60");
    assert_eq!(page.search, "");
    assert_eq!(page.status_msg, "");
    assert!(!page.status_is_error);
    page.search = "dirty".to_string();
    page.status_msg = "kept".to_string();
    let mut readings = failed_readings();
    readings[0] = Ok("5".to_string());
    page.refresh(&readings);
    assert_eq!(page.params[0].value, "5");
    assert_eq!(page.search, "dirty");
    assert_eq!(page.status_msg, "kept");
}

#[test]
fn kernel_page_search_matches_key_or_description() {
    let mut page = KernelPage::new(&failed_readings());
    assert!((0..10).all(|i| page.shows_param(i)));
    page.search = "DIRTY".to_string();
    let shown: Vec<usize> = (0..10).filter(|&i| page.shows_param(i)).collect();
    assert_eq!(shown, vec![1, 2]);
    page.search = "буфера".to_string();
    let shown: Vec<usize> = (0..10).filter(|&i| page.shows_param(i)).collect();
    assert_eq!(shown, vec![4, 5]);
    assert!(search_accepts("", "a", "b", "zz"));
    assert!(search_accepts("x", "a", "bx", "x"));
    assert!(!search_accepts("x", "a", "b", "x"));
}

#[test]
fn kernel_page_records_apply() {
    let mut page = KernelPage::new(&failed_readings());
    page.set_param_value(0, "15".to_string());
    assert_eq!(page.params[0].value, "15");
    assert_eq!(page.params[0].key, "vm.swappiness");
    page.record_apply(0, Ok(()));
    assert_eq!(page.status_msg, "✓ vm.swappiness = 15");
    assert!(!page.status_is_error);
    page.record_apply(0, Err("denied".to_string()));
    assert_eq!(page.status_msg, "Ошибка: denied");
    assert!(page.status_is_error);
}

#[test]
fn services_page_lists_all_then_filters() {
    let mut page = ServicesPage::new(&states());
    assert_eq!(page.services.len(), 17);
    assert_eq!(page.filter, "");
    page.filter = "time".to_string();
    page.refresh(&states());
    let names: Vec<&str> = page.services.iter().map(|s| s.name.as_str()).collect();
    assert_eq!(names, vec!["fstrim.timer", "systemd-timesyncd"]);
    assert!(page.shows_service(0));
    page.filter = "xyz".to_string();
    assert!(!page.shows_service(0));
}

#[test]
fn services_page_actions_and_labels() {
    let page = ServicesPage::new(&states());
    let running = &page.services[0];
    assert!(running.active);
    assert_eq!(status_label(running), "● active");
    assert!(matches!(offered_action(running), Some(ServiceAction::Stop(n)) if n == "NetworkManager"));
    let enabled_only = &page.services[2];
    assert!(enabled_only.enabled && !enabled_only.active);
    assert_eq!(status_label(enabled_only), "● enabled");
    assert!(matches!(offered_action(enabled_only), Some(ServiceAction::Start(n)) if n == "cups"));
    let idle = &page.services[1];
    assert_eq!(status_label(idle), "● inactive");
    assert!(offered_action(idle).is_none());
    assert!(matches!(toggle_action(idle), ServiceAction::ToggleEnable(n, false) if n == "bluetooth"));
    assert_eq!(toggle_label(true), "Выкл");
    assert_eq!(toggle_label(false), "Вкл");
}

#[test]
fn service_action_commands() {
    let a = ServiceAction::ToggleEnable("ssh".to_string(), true);
    let (cmd, name) = a.command();
    assert_eq!(cmd, ServiceCommand::Disable);
    assert_eq!(name, "ssh");
    assert_eq!(ServiceAction::ToggleEnable("ssh".to_string(), false).command().0, ServiceCommand::Enable);
    assert_eq!(ServiceAction::Stop("tlp".to_string()).command().0, ServiceCommand::Stop);
    assert_eq!(ServiceAction::Start("tlp".to_string()).command().0, ServiceCommand::Start);
}

#[test]
fn services_page_records_actions() {
    let mut page = ServicesPage::new(&states());
    page.record_action(&ServiceAction::ToggleEnable("ssh".to_string(), true), Ok(()));
    assert_eq!(page.status_msg, "✓ Отключена ssh");
    assert!(!page.status_is_error);
    page.record_action(&ServiceAction::ToggleEnable("ssh".to_string(), false), Ok(()));
    assert_eq!(page.status_msg, "✓ Включена ssh");
    page.record_action(&ServiceAction::Stop("tlp".to_string()), Ok(()));
    assert_eq!(page.status_msg, "✓ Остановлена tlp");
    page.record_action(&ServiceAction::Start("tlp".to_string()), Ok(()));
    assert_eq!(page.status_msg, "✓ Запущена tlp");
    page.record_action(&ServiceAction::Start("tlp".to_string()), Err("Unit not found".to_string()));
    assert_eq!(page.status_msg, "Ошибка: Unit not found");
    assert!(page.status_is_error);
}

#[test]
fn storage_page_swappiness_roundtrip() {
    let mut page = storage_page();
    assert_eq!(page.slider_value(), 60);
    page.record_swappiness(135, Ok(()));
    assert_eq!(page.swap.swappiness, "135");
    assert_eq!(page.slider_value(), 135);
    assert_eq!(page.status_msg, "✓ Swappiness = 135");
    assert!(!page.status_is_error);
    page.record_swappiness(10, Err("no sudo".to_string()));
    assert_eq!(page.swap.swappiness, "135");
    assert_eq!(page.status_msg, "Ошибка: no sudo");
    assert!(page.status_is_error);
    page.swap.swappiness = "not a number".to_string();
    assert_eq!(page.slider_value(), 60);
}

#[test]
fn storage_page_trim_and_labels() {
    let mut page = storage_page();
    assert_eq!(page.swap.used, "1 MB");
    assert_eq!(page.disks.len(), 1);
    page.record_trim(Err("x".to_string()));
    assert!(!page.trim_enabled);
    assert!(page.status_is_error);
    page.record_trim(Ok(()));
    assert!(page.trim_enabled);
    assert_eq!(page.status_msg, "✓ TRIM включен");
    assert_eq!(trim_label(true), "● Активен");
    assert_eq!(trim_label(false), "● Неактивен");
    assert_eq!(disk_kind(true), "SSD");
    assert_eq!(disk_kind(false), "HDD");
    page.refresh(get_swap_info("", ""), get_zram_info(false, ""), Vec::new(), false);
    assert!(page.disks.is_empty());
    assert_eq!(page.status_msg, "✓ TRIM включен");
}

#[test]
fn performance_page_selection_and_status() {
    let cpu = get_cpu_info("processor : 0\n", "powersave\n", "performance powersave\n", "800000\n");
    let mut page = PerformancePage::new(cpu);
    assert_eq!(page.profiles().len(), 3);
    assert_eq!(page.selected_profile(), 0);
    assert_eq!(page.selected().name, "Performance");
    page.select_profile(2);
    assert_eq!(page.selected().name, "Powersave");
    page.record_profile(Ok(()));
    assert_eq!(page.status_msg(), "✓ Профиль 'Powersave' применён");
    assert!(!page.status_is_error());
    assert!(page.is_current_governor(&"powersave".to_string()));
    page.record_governor("performance", Ok(()));
    assert_eq!(page.cpu().governor, "performance");
    assert_eq!(page.status_msg(), "✓ Governor = performance");
    page.record_governor("powersave", Err("denied".to_string()));
    assert_eq!(page.cpu().governor, "performance");
    assert!(page.status_is_error());
    page.refresh(get_cpu_info("", "", "", ""));
    assert_eq!(page.cpu().frequency, "N/A");
    assert_eq!(page.selected_profile(), 2);
}

#[test]
fn app_switches_pages() {
    let cpu = get_cpu_info("", "", "", "");
    let mut app = App::new(
        KernelPage::new(&failed_readings()),
        ServicesPage::new(&states()),
        storage_page(),
        PerformancePage::new(cpu),
    );
    assert!(app.is_open(Page::Kernel));
    app.select_page(Page::Storage);
    assert!(app.is_open(Page::Storage));
    assert!(!app.is_open(Page::Kernel));
    assert_eq!(app.current_page, Page::Storage);
}
