use yard::host::{
    collect, cpu_busy, disk_metric, disk_mounts, disk_usage, docker_df, docker_metric,
    memory_metric, parse_containers, parse_cpu, parse_docker_df, parse_memory, percent_state,
    render, report, size, snapshot_file, summarize, Disk, Level, Memory, Metric, MountUsage,
    Readings, Snapshot, Thresholds,
};
use yard::service_health::{Health, ServiceHealth};

#[test]
fn parses_cpu_counters_and_computes_busy_delta() {
    let first = parse_cpu("cpu  100 20 30 850 10 0 0 0 0 0\ncpu0 1 2 3 4\n").unwrap();
    let second = parse_cpu("cpu  130 20 50 900 10 0 0 0 0 0\n").unwrap();
    let (busy, total) = cpu_busy(first, second).unwrap();
    assert!((100.0 * busy as f64 / total as f64 - 50.0).abs() < 0.01);
    assert!(cpu_busy(second, first).is_none());
    assert!(parse_cpu("not cpu").is_none());
}

#[test]
fn cpu_counters_must_fit_and_advance() {
    assert_eq!(parse_cpu("cpu 1 2 3 4"), Some((4, 10)));
    assert_eq!(parse_cpu("cpu 1 2 3"), None);
    assert_eq!(parse_cpu("cpu 1 2 3 x"), None);
    assert_eq!(parse_cpu(""), None);
    assert_eq!(parse_cpu("cpu 18446744073709551615 1 0 0"), None);
    assert_eq!(cpu_busy((4, 10), (4, 10)), None);
    assert_eq!(cpu_busy((4, 10), (9, 12)), None);
}

#[test]
fn parses_available_memory() {
    assert_eq!(
        parse_memory("MemTotal: 1000 kB\nMemFree: 50 kB\nMemAvailable: 400 kB\n"),
        Some((600 * 1024, 1000 * 1024))
    );
    assert_eq!(parse_memory("MemTotal: 1000 kB\n"), None);
}

#[test]
fn memory_lines_must_be_whole() {
    assert_eq!(parse_memory("MemTotal: 0 kB\nMemAvailable: 0 kB\n"), None);
    assert_eq!(parse_memory("MemTotal: 10 MB\nMemAvailable: 1 kB\n"), None);
    assert_eq!(parse_memory("MemTotal: 10 kB\n\nMemAvailable: 1 kB\n"), None);
    assert_eq!(parse_memory("MemTotal: 10 kB\nMemAvailable: 11 kB\n"), None);
    let limits = Thresholds::from_settings(None, None, None);
    let metric = memory_metric(Some("MemTotal: 100 kB\nMemAvailable: 14 kB\n"), limits);
    assert_eq!(metric.status, Level::Warning);
    let metric = memory_metric(Some("MemTotal: 100 kB\nMemAvailable: 15 kB\n"), limits);
    assert_eq!(metric.status, Level::Normal);
    let metric = memory_metric(None, limits);
    assert_eq!((metric.status, metric.message), (Level::Unknown, Some("Memory unavailable")));
}

#[test]
fn thresholds_are_strict_and_critical_wins() {
    let thresholds =
        Thresholds { disk_warn_percent: 80, disk_crit_percent: 90, mem_pressure_percent: 85 };
    assert_eq!(percent_state(800, 1000, 80, Some(90)), Level::Normal);
    assert_eq!(percent_state(801, 1000, 80, Some(90)), Level::Warning);
    assert_eq!(percent_state(900, 1000, 80, Some(90)), Level::Warning);
    assert_eq!(percent_state(901, 1000, 80, Some(90)), Level::Critical);
    assert_eq!(percent_state(860, 1000, thresholds.mem_pressure_percent, None), Level::Warning);
}

#[test]
fn environment_threshold_overrides_are_validated_without_machine_state() {
    let thresholds = Thresholds::from_settings(Some("65"), Some("75"), Some("120"));
    assert_eq!(thresholds.disk_warn_percent, 65);
    assert_eq!(thresholds.disk_crit_percent, 75);
    assert_eq!(thresholds.mem_pressure_percent, 85);
    assert_eq!(
        percent_state(
            76,
            100,
            thresholds.disk_warn_percent,
            Some(thresholds.disk_crit_percent)
        ),
        Level::Critical
    );
    let thresholds = Thresholds::from_settings(Some("95"), Some("x"), Some(""));
    assert_eq!((thresholds.disk_warn_percent, thresholds.disk_crit_percent), (95, 95));
    assert_eq!(thresholds.mem_pressure_percent, 85);
}

#[test]
fn disk_mounts_exclude_duplicate_bind_mounts_and_pseudo_filesystems() {
    let mounts = "1 0 8:1 / / rw - ext4 /dev/sda1 rw\n2 1 8:1 /var/data /mnt/data rw - ext4 /dev/sda1 rw\n3 1 8:2 / /backup rw - xfs /dev/sdb1 rw\n4 1 0:1 / /proc rw - proc proc rw\n";
    assert_eq!(disk_mounts(mounts), vec!["/", "/backup"]);
}

#[test]
fn mount_points_are_unescaped() {
    let mounts = "1 0 8:1 / /a\\040b\\011c\\134d rw - ext4 x rw\n2 0 8:2 / rw - ext4 x rw\nbroken\n";
    assert_eq!(disk_mounts(mounts), vec!["/a b\tc\\d", "rw"]);
}

#[test]
fn disk_use_counts_what_is_available() {
    assert_eq!(disk_usage(100, 25, 4096), Some((75 * 4096, 100 * 4096)));
    assert_eq!(disk_usage(u64::MAX, 0, 2), None);
    assert_eq!(disk_usage(1, 2, 1), None);
    let limits = Thresholds::from_settings(None, None, None);
    let disk = disk_metric("/".to_owned(), Some((91, 100)), limits);
    assert_eq!(disk.status, Level::Critical);
    let disk = disk_metric("/".to_owned(), Some((0, 0)), limits);
    assert_eq!(disk.status, Level::Unknown);
    let disk = disk_metric("/".to_owned(), None, limits);
    assert_eq!((disk.status, disk.message), (Level::Unknown, Some("Disk unavailable")));
}

#[test]
fn a_snapshot_holds_all_that_was_read() {
    let snapshot = collect(Readings {
        collected_at_unix: 42,
        thresholds: Thresholds::from_settings(None, None, None),
        cpu: Some("45.0%".to_owned()),
        load: Some("1.00 / 2.00 / 3.00".to_owned()),
        memory: Some("MemTotal: 100 kB\nMemAvailable: 10 kB\n".to_owned()),
        disks: vec![
            MountUsage { mount: "/".to_owned(), usage: Some((81, 100)) },
            MountUsage { mount: "/backup".to_owned(), usage: None },
        ],
        docker: Some(
            "{\"Type\":\"Images\",\"Size\":\"2GB\"}\n{\"Type\":\"Containers\",\"Size\":\"1MB\"}\n{\"Type\":\"Local Volumes\",\"Size\":\"4GB\"}"
                .to_owned(),
        ),
        projects: Some(vec![parse_containers(
            "hello",
            "{\"Service\":\"api\",\"State\":\"exited\"}",
        )]),
        services: Vec::new(),
    });
    assert_eq!((snapshot.version, snapshot.collected_at_unix), (1, 42));
    assert_eq!(snapshot.cpu.value.as_deref(), Some("45.0%"));
    assert_eq!(snapshot.load.status, Level::Normal);
    assert_eq!(snapshot.memory.status, Level::Warning);
    assert_eq!(
        snapshot.memory.value,
        Some(Memory { used_bytes: 90 * 1024, total_bytes: 100 * 1024 })
    );
    assert_eq!(snapshot.disks.len(), 2);
    assert_eq!(snapshot.disks[0].status, Level::Warning);
    assert_eq!(snapshot.disks[0].value.as_ref().unwrap().mount, "/");
    assert_eq!(snapshot.disks[1].status, Level::Unknown);
    assert_eq!(snapshot.docker.value.unwrap().images, "2GB");
    assert_eq!(snapshot.containers.len(), 1);
    assert_eq!(
        (snapshot.containers_status, snapshot.containers_message),
        (Level::Critical, None)
    );
}

#[test]
fn what_could_not_be_read_is_unknown() {
    let snapshot = collect(Readings {
        collected_at_unix: 7,
        thresholds: Thresholds::from_settings(None, None, None),
        cpu: None,
        load: None,
        memory: None,
        disks: Vec::new(),
        docker: None,
        projects: None,
        services: Vec::new(),
    });
    assert_eq!(snapshot.cpu.message, Some("CPU unavailable"));
    assert_eq!(snapshot.load.message, Some("Load unavailable"));
    assert_eq!(snapshot.memory.message, Some("Memory unavailable"));
    assert_eq!(snapshot.disks.len(), 1);
    assert_eq!(snapshot.disks[0].message, Some("Disk unavailable"));
    assert_eq!(snapshot.docker.message, Some("Docker unavailable"));
    assert_eq!(
        (snapshot.containers_status, snapshot.containers_message),
        (Level::Unknown, Some("Containers unavailable"))
    );
    let text = render(&snapshot);
    assert!(text.contains("CPU          unavailable [Unknown]"));
    assert!(text.contains("Disk         unavailable [Unknown]"));
}

fn snapshot() -> Snapshot {
    Snapshot {
        version: 1,
        collected_at_unix: 42,
        thresholds: Thresholds {
            disk_warn_percent: 80,
            disk_crit_percent: 90,
            mem_pressure_percent: 85,
        },
        cpu: Metric::known("45.0%".to_owned(), Level::Normal),
        load: Metric::known("1.00 / 2.00 / 3.00".to_owned(), Level::Normal),
        memory: Metric::known(
            Memory { used_bytes: 1_073_741_824, total_bytes: 2_147_483_648 },
            Level::Warning,
        ),
        disks: vec![Metric::known(
            Disk {
                mount: "/".into(),
                used_bytes: 1_073_741_824,
                total_bytes: 2_147_483_648,
            },
            Level::Critical,
        )],
        docker: Metric::unknown("Docker unavailable"),
        containers: vec![],
        containers_status: Level::Unknown,
        containers_message: Some("Containers unavailable"),
        services: vec![],
    }
}

#[test]
fn renders_host_without_reading_the_machine() {
    let text = render(&snapshot());
    assert!(text.starts_with("HOST\n"));
    assert!(text.contains("CPU          45.0% [Normal]"));
    assert!(text.contains("RAM          1.0 GiB / 2.0 GiB [Warning]"));
    assert!(text.contains("Disk         /: 1.0 GiB / 2.0 GiB [Critical]"));
    assert!(text.contains("Docker       unavailable [Unknown]"));
}

#[test]
fn the_host_report_ends_with_the_services() {
    let mut snapshot = snapshot();
    snapshot.services.push(ServiceHealth {
        project: "demo".to_owned(),
        service: "api".to_owned(),
        status: Health::Degraded,
        kind: Some("http"),
        latency_ms: Some(600),
        age_seconds: None,
        heartbeat_at_unix: None,
        max_age_seconds: None,
        crit_multiplier: None,
        message: None,
    });
    let text = report(&snapshot);
    assert!(
        text.ends_with(
            "  Containers   Containers unavailable [Unknown]\nService health\n  demo / api: 600 ms [Degraded]"
        ),
        "{text}"
    );
    assert_eq!(snapshot_file(), "host.json");
}

#[test]
fn parses_docker_system_df_and_stopped_containers() {
    let df = "{\"Type\":\"Images\",\"Size\":\"2.4GB\"}\n{\"Type\":\"Containers\",\"Size\":\"12MB\"}\n{\"Type\":\"Local Volumes\",\"Size\":\"4GB\"}";
    let usage = parse_docker_df(df).unwrap();
    assert_eq!(usage.images, "2.4GB");
    assert_eq!(usage.volumes, "4GB");
    assert_eq!(
        parse_containers("hello", "{\"Service\":\"api\",\"State\":\"exited\"}").unwrap()[0].status,
        Level::Critical
    );
    assert!(parse_docker_df("not JSON").is_none());
}

#[test]
fn docker_rows_must_be_complete() {
    assert_eq!(docker_df(), ["system", "df", "--format", "{{json .}}"]);
    assert!(parse_docker_df("{\"Type\":\"Images\",\"Size\":\"2.4GB\"}").is_none());
    assert!(parse_docker_df("{\"Type\":\"Images\"}").is_none());
    assert_eq!(docker_metric(None).message, Some("Docker unavailable"));
    let rows = parse_containers(
        "demo",
        " [{\"Service\":\"api\",\"State\":\"Running\"},{\"Service\":\"db\",\"State\":\"dead\"}]",
    )
    .unwrap();
    assert_eq!((rows[0].status, rows[1].status), (Level::Normal, Level::Critical));
    assert_eq!(rows[1].project, "demo");
    assert!(parse_containers("demo", "  ").unwrap().is_empty());
    assert!(parse_containers("demo", "{\"Service\":\"api\"}").is_none());
}

#[test]
fn projects_without_containers_are_unknown_and_stopped_ones_critical() {
    let running = || parse_containers("a", "{\"Service\":\"x\",\"State\":\"running\"}");
    let stopped = || parse_containers("b", "{\"Service\":\"y\",\"State\":\"exited\"}");
    let summary = summarize(Some(vec![running(), Some(Vec::new())]));
    assert_eq!(summary.status, Level::Unknown);
    assert_eq!(summary.message, Some("No containers for a configured project"));
    let summary = summarize(Some(vec![stopped(), Some(Vec::new())]));
    assert_eq!(summary.status, Level::Critical);
    let summary = summarize(Some(vec![running(), stopped()]));
    assert_eq!((summary.status, summary.message), (Level::Critical, None));
    assert_eq!(summary.containers.len(), 2);
    let summary = summarize(Some(vec![running(), None]));
    assert_eq!(
        (summary.status, summary.message),
        (Level::Unknown, Some("Containers unavailable"))
    );
    let summary = summarize(None);
    assert_eq!(
        (summary.status, summary.message),
        (Level::Unknown, Some("Containers unavailable"))
    );
}

#[test]
fn sizes_are_rounded_as_floating_point_numbers_are() {
    for bytes in [
        0,
        1,
        53_687_091,
        53_687_092,
        161_061_273,
        161_061_274,
        268_435_456,
        805_306_368,
        1_342_177_280,
        1_073_741_824,
        1_127_428_915,
        1_127_428_916,
        1_234_803_098,
        5_905_580_032,
        123_456_789_012,
        9_007_199_254_740_993,
        u64::MAX - 1,
        u64::MAX,
    ] {
        assert_eq!(size(bytes), format!("{:.1} GiB", bytes as f64 / 1_073_741_824.0));
    }
}

#[test]
fn sizes_agree_with_floating_point_on_many_numbers() {
    let mut state: u64 = 0x9e37_79b9_7f4a_7c15;
    for turn in 0..50_000u32 {
        state = state.wrapping_mul(6_364_136_223_846_793_005).wrapping_add(1_442_695_040_888_963_407);
        let bytes = state >> (turn % 64);
        assert_eq!(size(bytes), format!("{:.1} GiB", bytes as f64 / 1_073_741_824.0));
    }
    for quarters in 0..5_000u64 {
        let bytes = quarters * 268_435_456;
        assert_eq!(size(bytes), format!("{:.1} GiB", bytes as f64 / 1_073_741_824.0));
    }
}
