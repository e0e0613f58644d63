use toe::config::{Config, Stats};
use toe::report::{
    banner, kernel_info, server_info, uptime_info, user_info, Activity, Kernel, LoadAverage,
    Status, UserEntry,
};
use toe::sensors::{cpu_info, has_per_core, kind_of, Sensor, SensorKind};
use toe::time::{Clock, Time};

fn entry(name: &str, has_plan: bool) -> UserEntry {
    UserEntry { name: String::from(name), has_plan }
}

fn sensor(label: &str, temperature: f32, max: f32, critical: Option<f32>) -> Sensor {
    Sensor {
        label: String::from(label),
        temperature: format!("{}", temperature),
        max: format!("{}", max),
        critical: critical.map(|c| format!("{}", c)),
    }
}

fn activity() -> Activity {
    Activity {
        clock: Clock { hour: 1, minute: 2, second: 3 },
        uptime: Time::uptime(90061),
        sessions: 2,
        load: LoadAverage {
            one: format!("{}", 0.5f64),
            five: format!("{}", 0.25f64),
            fifteen: format!("{}", 1f64),
        },
    }
}

fn kernel() -> Kernel {
    Kernel {
        name: Some(String::from("Debian GNU/Linux")),
        kernel_version: Some(String::from("6.1.0")),
        os_version: Some(String::from("12")),
    }
}

fn status() -> Status {
    Status {
        users: vec![entry("alice", true), entry("lost+found", false), entry("bob", true)],
        activity: activity(),
        kernel: kernel(),
        sensors: vec![
            sensor("coretemp Package id 0", 40.0, 80.0, Some(100.0)),
            sensor("coretemp Core 0", 41.5, 80.0, Some(100.0)),
            sensor("coretemp Core 1", 42.0, 81.0, None),
        ],
    }
}

fn config(stats: Stats) -> Config {
    let mut c = Config::default();
    c.stats = stats;
    c
}

const USERS: &str = "Users:  alice bob\n\n";
const UPTIME: &str = "System Status\n-------------\n\n01:02:03 up 1 days 01:01, 2 users, load average 0.5 0.25 1\n\n";
const KERNEL: &str = "Debian GNU/Linux 6.1.0 12 \n\n";
const CPU: &str = "Package id 0: +40°C  (max = +80°C, critical = +100°C)\nCore 0: +41.5°C  (max = +80°C, critical = +100°C)\nCore 1: +42°C  (max = +81°C, critical = +81°C)\n";

#[test]
fn banner_underlines_the_name() {
    assert_eq!(banner("localhost"), "localhost\n=========\n\n");
    assert_eq!(banner("toe"), "toe\n===\n\n");
    assert_eq!(banner(""), "\n\n\n");
}

#[test]
fn banner_underline_is_as_long_as_the_name_has_bytes() {
    assert_eq!(banner("zoë"), "zoë\n====\n\n");
}

#[test]
fn users_line_lists_the_entries_that_hold_a_plan() {
    let entries = vec![entry("alice", true)];
    assert_eq!(user_info(String::new(), &entries), "Users:  alice\n\n");
    let entries = vec![entry("alice", true), entry("tmp", false), entry("bob", true)];
    assert_eq!(user_info(String::new(), &entries), USERS);
}

#[test]
fn users_line_lists_none_without_a_plan() {
    assert_eq!(user_info(String::new(), &Vec::new()), "Users: \n\n");
    let entries = vec![entry("tmp", false), entry("lost+found", false)];
    assert_eq!(user_info(String::new(), &entries), "Users: \n\n");
}

#[test]
fn users_section_follows_what_is_there() {
    let entries = vec![entry("alice", true)];
    assert_eq!(user_info(String::from("head\n"), &entries), "head\nUsers:  alice\n\n");
}

#[test]
fn uptime_section() {
    assert_eq!(uptime_info(String::new(), &activity()), UPTIME);
    assert_eq!(uptime_info(String::from("x"), &activity()), format!("x{}", UPTIME));
}

#[test]
fn uptime_section_pads_to_two_digits() {
    let a = Activity {
        clock: Clock { hour: 23, minute: 0, second: 9 },
        uptime: Time::uptime(12 * 86400 + 10 * 3600 + 5 * 60),
        sessions: 0,
        load: LoadAverage {
            one: String::from("0"),
            five: String::from("0.01"),
            fifteen: String::from("0.05"),
        },
    };
    assert_eq!(
        uptime_info(String::new(), &a),
        "System Status\n-------------\n\n23:00:09 up 12 days 10:05, 0 users, load average 0 0.01 0.05\n\n"
    );
}

#[test]
fn kernel_section() {
    assert_eq!(kernel_info(String::new(), &kernel()), KERNEL);
}

#[test]
fn kernel_section_leaves_out_what_is_unknown() {
    let k = Kernel { name: None, kernel_version: Some(String::from("6.1.0")), os_version: None };
    assert_eq!(kernel_info(String::new(), &k), "6.1.0 \n\n");
    let k = Kernel { name: None, kernel_version: None, os_version: None };
    assert_eq!(kernel_info(String::from("x"), &k), "x\n\n");
    let k = Kernel { name: Some(String::from("Linux")), kernel_version: None, os_version: Some(String::from("12")) };
    assert_eq!(kernel_info(String::new(), &k), "Linux 12 \n\n");
}

#[test]
fn sensor_kinds() {
    for (label, kind) in [
        ("coretemp Core 0", SensorKind::CoretempCore),
        ("coretemp Core 12", SensorKind::CoretempCore),
        ("cpu_thermal temp1", SensorKind::ThermalCore),
        ("Core 3", SensorKind::Core),
        ("coretemp Package id 0", SensorKind::Package),
        ("Package id 1", SensorKind::Package),
        ("k10temp Package", SensorKind::Package),
        ("CPU Package", SensorKind::Package),
        ("CPU", SensorKind::Cpu),
        ("CPU die", SensorKind::Cpu),
        ("Core Package", SensorKind::Core),
        ("nvme Composite", SensorKind::Other),
        ("coretemp", SensorKind::Other),
        ("cpu", SensorKind::Other),
        ("package", SensorKind::Other),
        ("", SensorKind::Other),
    ] {
        assert_eq!(kind_of(&sensor(label, 1.0, 2.0, None)), kind, "{:?}", label);
    }
}

#[test]
fn cpu_section_lists_the_package_and_the_cores_of_coretemp() {
    assert_eq!(cpu_info(String::new(), &status().sensors), CPU);
}

#[test]
fn cpu_section_lists_the_package_beside_one_core() {
    let sensors = vec![
        sensor("coretemp Package id 0", 45.0, 80.0, Some(100.0)),
        sensor("coretemp Core 0", 40.0, 80.0, Some(100.0)),
    ];
    assert_eq!(
        cpu_info(String::new(), &sensors),
        "Package id 0: +45°C  (max = +80°C, critical = +100°C)\n\
         Core 0: +40°C  (max = +80°C, critical = +100°C)\n"
    );
}

#[test]
fn cpu_section_lists_a_package_without_a_critical_value() {
    let sensors = vec![sensor("coretemp Package id 1", 45.5, 80.0, None)];
    assert_eq!(
        cpu_info(String::new(), &sensors),
        "Package id 1: +45.5°C  (max = +80°C, critical = +80°C)\n"
    );
}

#[test]
fn cpu_section_has_no_cpu_line_beside_a_core_of_a_driver() {
    let sensors = vec![
        sensor("coretemp Core 0", 40.0, 80.0, Some(100.0)),
        sensor("CPU", 45.0, 80.0, Some(100.0)),
    ];
    assert_eq!(
        cpu_info(String::new(), &sensors),
        "Core 0: +40°C  (max = +80°C, critical = +100°C)\n"
    );
    let sensors = vec![
        sensor("CPU", 45.0, 80.0, Some(100.0)),
        sensor("cpu_thermal temp1", 50.0, 60.0, None),
    ];
    assert_eq!(
        cpu_info(String::new(), &sensors),
        "Core 1: +50°C  (max = +60°C, critical = +60°C)\n"
    );
}

#[test]
fn cpu_section_has_the_package_and_the_cpu_lines_without_a_core() {
    let sensors = vec![
        sensor("CPU", 45.0, 80.0, Some(100.0)),
        sensor("coretemp Package id 0", 46.0, 81.0, Some(101.0)),
    ];
    assert_eq!(
        cpu_info(String::new(), &sensors),
        "Package id 0: +46°C  (max = +81°C, critical = +101°C)\n\
         CPU:       +45°C  (max = +80°C, critical = +100°C)\n"
    );
}

#[test]
fn cpu_section_lists_the_cores_of_cpu_thermal() {
    let sensors = vec![sensor("cpu_thermal temp1", 50.0, 60.5, None)];
    assert_eq!(
        cpu_info(String::from("x\n"), &sensors),
        "x\nCore 1: +50°C  (max = +60.5°C, critical = +60.5°C)\n"
    );
}

#[test]
fn cpu_section_lists_sensors_labelled_core() {
    let sensors = vec![
        sensor("CPU", 30.0, 31.0, Some(32.0)),
        sensor("Core 0", 40.0, 41.0, Some(42.0)),
        sensor("Core 1", 50.0, 51.0, None),
    ];
    assert_eq!(
        cpu_info(String::new(), &sensors),
        "Core 0:       +40°C  (max = +41°C, critical = +42°C)\n\
         Core 1:       +50°C  (max = +51°C, critical = +51°C)\n"
    );
}

#[test]
fn cpu_section_falls_back_to_sensors_labelled_cpu() {
    let sensors = vec![
        sensor("CPU", 30.0, 31.0, Some(32.0)),
        sensor("GPU", 40.0, 41.0, Some(42.0)),
        sensor("CPU die", 50.0, 51.0, None),
    ];
    assert_eq!(
        cpu_info(String::new(), &sensors),
        "CPU:       +30°C  (max = +31°C, critical = +32°C)\n\
         CPU die:       +50°C  (max = +51°C, critical = +51°C)\n"
    );
}

#[test]
fn cpu_section_puts_the_driver_lines_first() {
    let sensors = vec![
        sensor("Core 7", 1.0, 2.0, Some(3.0)),
        sensor("coretemp Core 0", 4.0, 5.0, Some(6.0)),
        sensor("CPU", 7.0, 8.0, Some(9.0)),
        sensor("coretemp Package id 0", 10.0, 11.0, Some(12.0)),
    ];
    assert_eq!(
        cpu_info(String::new(), &sensors),
        "Core 0: +4°C  (max = +5°C, critical = +6°C)\n\
         Package id 0: +10°C  (max = +11°C, critical = +12°C)\n\
         Core 7:       +1°C  (max = +2°C, critical = +3°C)\n"
    );
}

#[test]
fn cpu_section_gives_each_sensor_one_line_at_most() {
    let sensors = vec![
        sensor("Core Package", 1.0, 2.0, None),
        sensor("CPU Package", 3.0, 4.0, None),
    ];
    assert_eq!(
        cpu_info(String::new(), &sensors),
        "CPU Package: +3°C  (max = +4°C, critical = +4°C)\n\
         Core Package:       +1°C  (max = +2°C, critical = +2°C)\n"
    );
}

#[test]
fn cpu_section_without_a_known_sensor_is_empty() {
    assert_eq!(cpu_info(String::from("x"), &Vec::new()), "x");
    let sensors = vec![sensor("nvme Composite", 30.0, 80.0, None)];
    assert_eq!(cpu_info(String::from("x"), &sensors), "x");
}

#[test]
fn cpu_section_shortens_every_occurrence_in_a_label() {
    let sensors = vec![sensor("coretemp Core coretemp 0", 1.0, 2.0, None)];
    assert_eq!(
        cpu_info(String::new(), &sensors),
        "Core 0: +1°C  (max = +2°C, critical = +2°C)\n"
    );
}

#[test]
fn has_per_core_looks_for_a_sensor_of_one_core() {
    assert!(has_per_core(&status().sensors));
    assert!(has_per_core(&vec![sensor("Core 0", 1.0, 2.0, None)]));
    assert!(has_per_core(&vec![sensor("cpu_thermal temp1", 1.0, 2.0, None)]));
    assert!(!has_per_core(&vec![
        sensor("coretemp Package id 0", 1.0, 2.0, None),
        sensor("CPU", 1.0, 2.0, None),
    ]));
    assert!(!has_per_core(&Vec::new()));
}

#[test]
fn report_with_every_section() {
    let c = config(Stats { users: true, uptime: true, kernel: true, cpu: true });
    let expected = format!("localhost\n=========\n\n{}{}{}{}", USERS, UPTIME, KERNEL, CPU);
    assert_eq!(server_info(&c, &status()), expected);
}

#[test]
fn report_without_a_section_is_the_banner() {
    let c = config(Stats::default());
    assert_eq!(server_info(&c, &status()), "localhost\n=========\n\n");
}

#[test]
fn report_skips_the_sections_that_are_off() {
    let c = config(Stats { users: true, uptime: false, kernel: true, cpu: false });
    assert_eq!(server_info(&c, &status()), format!("localhost\n=========\n\n{}{}", USERS, KERNEL));
    let c = config(Stats { users: false, uptime: true, kernel: false, cpu: true });
    assert_eq!(server_info(&c, &status()), format!("localhost\n=========\n\n{}{}", UPTIME, CPU));
}

#[test]
fn report_users_line_includes_the_directory_with_a_plan() {
    let c = config(Stats { users: true, uptime: false, kernel: false, cpu: false });
    let mut s = status();
    s.users = vec![entry("alice", true)];
    let report = server_info(&c, &s);
    let line = report.lines().find(|l| l.starts_with("Users:")).unwrap();
    assert_eq!(line, "Users:  alice");
    s.users = vec![entry("alice", false)];
    let report = server_info(&c, &s);
    let line = report.lines().find(|l| l.starts_with("Users:")).unwrap();
    assert_eq!(line, "Users: ");
}
