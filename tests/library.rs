use server_stats::metrics::{
    bytes_to_gb_hundredths, bytes_to_gb_tenths, bytes_to_mb_tenths, cpu_figures,
    decompose_uptime, disk_figures, disk_used, load_per_core, percent_hundredths, percent_tenths,
    swap_figures,
};
use server_stats::owner::{name_or_unknown, owner_uid, parse_u32, resolve_owner, split_fields};
use server_stats::probe::{
    count_listening, failed_logins, listening_ports, parse_failed_logins, parse_sessions,
    text_lines, FailedLogins,
};
use server_stats::rank::{top_by_cpu, top_by_memory, top_positions};
use server_stats::report::{boot_time_line, failed_login_lines, listening_line, session_lines};
use server_stats::snapshot::ProcessEntry;
use server_stats::text::{decimal_text, fixed1, fixed2};

fn proc(pid: u32, cpu: u32, mem: u64) -> ProcessEntry {
    ProcessEntry::new(pid, format!("p{}", pid), cpu, mem)
}

fn pids(v: &[ProcessEntry]) -> Vec<u32> {
    v.iter().map(|p| p.pid).collect()
}

#[test]
fn uptime_of_a_day_an_hour_a_minute_and_a_second() {
    let u = decompose_uptime(90061);
    assert_eq!((u.days, u.hours, u.minutes), (1, 1, 1));
}

#[test]
fn uptime_of_zero() {
    let u = decompose_uptime(0);
    assert_eq!((u.days, u.hours, u.minutes), (0, 0, 0));
}

#[test]
fn uptime_just_under_a_day() {
    let u = decompose_uptime(86399);
    assert_eq!((u.days, u.hours, u.minutes), (0, 23, 59));
}

#[test]
fn one_gigabyte_is_one_point_zero_zero() {
    assert_eq!(fixed2(bytes_to_gb_hundredths(1073741824)), "1.00");
}

#[test]
fn one_megabyte_is_one_point_zero() {
    assert_eq!(fixed1(bytes_to_mb_tenths(1048576)), "1.0");
}

#[test]
fn disk_table_gigabytes_have_one_decimal() {
    assert_eq!(fixed1(bytes_to_gb_tenths(1073741824 * 3 / 2)), "1.5");
    assert_eq!(fixed1(bytes_to_gb_tenths(0)), "0.0");
}

#[test]
fn gigabytes_round_to_nearest_hundredth() {
    // 2.5 GB plus a little less than half a hundredth.
    assert_eq!(fixed2(bytes_to_gb_hundredths(2684354560 + 5000000)), "2.50");
    assert_eq!(bytes_to_gb_hundredths(u64::MAX), 1717986918400);
}

#[test]
fn percent_of_zero_total_is_zero() {
    assert_eq!(percent_hundredths(0, 0), 0);
    assert_eq!(percent_hundredths(12345, 0), 0);
    assert_eq!(percent_tenths(0, 0), 0);
    assert_eq!(percent_tenths(7, 0), 0);
}

#[test]
fn percent_values() {
    assert_eq!(percent_hundredths(1, 4), 2500);
    assert_eq!(fixed2(percent_hundredths(1, 3)), "33.33");
    assert_eq!(fixed2(percent_hundredths(2, 3)), "66.67");
    assert_eq!(fixed1(percent_tenths(1, 3)), "33.3");
    assert_eq!(percent_hundredths(u64::MAX, 1), 184467440737095516150000);
}

#[test]
fn cpu_mean_and_idle() {
    let f = cpu_figures(&vec![5000, 2500]);
    assert_eq!((f.usage_hundredths, f.idle_hundredths, f.cores), (3750, 6250, 2));
    assert_eq!(fixed2(f.usage_hundredths), "37.50");
}

#[test]
fn cpu_with_no_cores() {
    let f = cpu_figures(&vec![]);
    assert_eq!((f.usage_hundredths, f.idle_hundredths, f.cores), (0, 10000, 0));
}

#[test]
fn load_per_core_values() {
    assert_eq!(load_per_core(200, 4), 50);
    assert_eq!(load_per_core(100, 3), 33);
    assert_eq!(load_per_core(100, 0), 0);
}

#[test]
fn disk_used_values() {
    assert_eq!(disk_used(10, 4), 6);
    assert_eq!(disk_used(4, 10), 0);
}

#[test]
fn top_cpu_ranks_descending_and_stable() {
    let ps = vec![proc(1, 1000, 0), proc(2, 5000, 0), proc(3, 5000, 0), proc(4, 3000, 0), proc(5, 500, 0), proc(6, 7000, 0)];
    let top = top_by_cpu(&ps, 5);
    assert_eq!(pids(&top), vec![6, 2, 3, 4, 1]);
    assert_eq!(top[0].name, "p6");
    assert_eq!(top[0].cpu_hundredths, 7000);
}

#[test]
fn top_cpu_keeps_input_order_on_ties() {
    let ps = vec![proc(9, 100, 0), proc(4, 100, 0), proc(7, 100, 0)];
    assert_eq!(pids(&top_by_cpu(&ps, 5)), vec![9, 4, 7]);
    assert_eq!(pids(&top_by_cpu(&ps, 2)), vec![9, 4]);
}

#[test]
fn top_lengths_are_min_of_n_and_count() {
    let ps = vec![proc(1, 1, 10), proc(2, 2, 20), proc(3, 3, 30)];
    assert_eq!(top_by_cpu(&ps, 5).len(), 3);
    assert_eq!(top_by_memory(&ps, 5).len(), 3);
    assert_eq!(top_by_cpu(&ps, 2).len(), 2);
    assert_eq!(top_by_memory(&ps, 0).len(), 0);
    assert_eq!(top_by_cpu(&vec![], 5).len(), 0);
}

#[test]
fn top_memory_ranks_descending() {
    let ps = vec![proc(1, 0, 300), proc(2, 0, 900), proc(3, 0, 300), proc(4, 0, 1000)];
    assert_eq!(pids(&top_by_memory(&ps, 5)), vec![4, 2, 1, 3]);
}

#[test]
fn top_cpu_excluded_entries_are_no_larger() {
    let ps: Vec<ProcessEntry> = (0..20u32).map(|i| proc(i, (i * 37) % 11 * 100, 0)).collect();
    let top = top_by_cpu(&ps, 5);
    let last = top[4].cpu_hundredths;
    for p in &ps {
        if !top.iter().any(|t| t.pid == p.pid) {
            assert!(p.cpu_hundredths <= last);
        }
    }
}

#[test]
fn top_positions_of_keys() {
    assert_eq!(top_positions(&vec![3, 9, 3, 1], 3), vec![1, 0, 2]);
}

#[test]
fn ranking_twice_gives_the_same_order() {
    let ps = vec![proc(1, 10, 5), proc(2, 30, 5), proc(3, 10, 7)];
    assert_eq!(pids(&top_by_cpu(&ps, 5)), pids(&top_by_cpu(&ps, 5)));
    assert_eq!(pids(&top_by_memory(&ps, 5)), pids(&top_by_memory(&ps, 5)));
}

#[test]
fn lines_split_like_str_lines() {
    assert_eq!(text_lines("a\r\nb\n\nc"), vec!["a", "b", "", "c"]);
    assert_eq!(text_lines("a\n"), vec!["a"]);
    assert_eq!(text_lines(""), Vec::<String>::new());
    assert_eq!(text_lines("\n"), vec![""]);
    assert_eq!(text_lines("x\r"), vec!["x\r"]);
}

#[test]
fn listening_lines_are_counted() {
    let out = "Active Internet connections (only servers)\n\
               Proto Recv-Q Send-Q Local Address Foreign Address State\n\
               tcp 0 0 0.0.0.0:22 0.0.0.0:* LISTEN\n\
               tcp6 0 0 :::80 :::* LISTEN\n\
               udp 0 0 0.0.0.0:68 0.0.0.0:*\n";
    assert_eq!(count_listening(out), 2);
    assert_eq!(count_listening(""), 0);
    assert_eq!(listening_ports(&Some(out.to_string())), Some(2));
    assert_eq!(listening_ports(&None), None);
}

#[test]
fn listening_line_text() {
    let out = Some("tcp LISTEN\nLISTENING\n".to_string());
    assert_eq!(listening_line(&out), Some("Listening ports: 2".to_string()));
    assert_eq!(listening_line(&None), None);
}

#[test]
fn sessions_show_ten_and_count_all() {
    let out: String = (0..12).map(|i| format!("user{} pts/{}\n", i, i)).collect();
    let s = parse_sessions(&out);
    assert_eq!(s.total, 12);
    assert_eq!(s.shown.len(), 10);
    assert_eq!(s.shown[9], "user9 pts/9");
}

#[test]
fn session_section_lines() {
    let lines = session_lines(&Some("alice tty1\nbob pts/0\n".to_string()));
    assert_eq!(lines, vec!["  alice tty1", "  bob pts/0", "Total logged in users: 2"]);
    assert_eq!(session_lines(&None), vec!["  Unable to retrieve user information"]);
    assert_eq!(session_lines(&Some(String::new())), vec!["Total logged in users: 0"]);
}

#[test]
fn failed_logins_skip_blank_and_header() {
    let out = "root ssh:notty 10.0.0.1 Mon\n\nbtmp begins Mon Jan 1\n";
    match parse_failed_logins(out) {
        FailedLogins::Entries(e) => assert_eq!(e, vec!["root ssh:notty 10.0.0.1 Mon"]),
        _ => panic!("expected entries"),
    }
    assert!(matches!(parse_failed_logins(" \n\t\n"), FailedLogins::NoneFound));
    assert!(matches!(failed_logins(&None), FailedLogins::Unavailable));
}

#[test]
fn failed_logins_read_only_five_lines() {
    let out = "a\nb\nc\nd\ne\nf\n";
    match parse_failed_logins(out) {
        FailedLogins::Entries(e) => assert_eq!(e, vec!["a", "b", "c", "d", "e"]),
        _ => panic!("expected entries"),
    }
}

#[test]
fn failed_login_section_lines() {
    assert_eq!(
        failed_login_lines(&None),
        vec!["  Unable to retrieve failed login information (may require elevated privileges)"]
    );
    assert_eq!(failed_login_lines(&Some("\n".to_string())), vec!["  No failed login attempts found"]);
    assert_eq!(failed_login_lines(&Some("eve tty1\n".to_string())), vec!["  eve tty1"]);
}

#[test]
fn fields_split_on_whitespace() {
    assert_eq!(split_fields("Uid:\t1000\t1001  1002 "), vec!["Uid:", "1000", "1001", "1002"]);
    assert_eq!(split_fields("   "), Vec::<String>::new());
}

#[test]
fn u32_parsing() {
    assert_eq!(parse_u32("1000"), Some(1000));
    assert_eq!(parse_u32("+42"), Some(42));
    assert_eq!(parse_u32("4294967295"), Some(4294967295));
    assert_eq!(parse_u32("4294967296"), None);
    assert_eq!(parse_u32(""), None);
    assert_eq!(parse_u32("+"), None);
    assert_eq!(parse_u32("12a"), None);
    assert_eq!(parse_u32("-1"), None);
}

#[test]
fn owner_uid_from_status() {
    let status = "Name:\tbash\nState:\tS (sleeping)\nUid:\t1000\t1000\t1000\t1000\nGid:\t100\n";
    assert_eq!(owner_uid(status), Some(1000));
    assert_eq!(owner_uid("Name:\tbash\n"), None);
    assert_eq!(owner_uid("Uid:\n"), None);
    assert_eq!(owner_uid("Uid: x\nUid: 5\n"), None);
}

#[test]
fn unresolvable_owner_is_unknown() {
    assert_eq!(resolve_owner(&None), "unknown");
    assert_eq!(resolve_owner(&Some("Name: x\n".to_string())), "unknown");
    assert_eq!(name_or_unknown(None), "unknown");
    assert_eq!(name_or_unknown(Some("alice".to_string())), "alice");
}

#[test]
fn decimal_and_fixed_text() {
    assert_eq!(decimal_text(0), "0");
    assert_eq!(decimal_text(90061), "90061");
    assert_eq!(fixed2(5), "0.05");
    assert_eq!(fixed2(12345), "123.45");
    assert_eq!(fixed1(7), "0.7");
}

#[test]
fn boot_time_of_the_epoch() {
    assert_eq!(boot_time_line(0), "Boot time: 1970-01-01 00:00:00");
    assert_eq!(boot_time_line(1431648000), "Boot time: 2015-05-15 00:00:00");
}

#[test]
fn swap_not_configured() {
    assert_eq!(swap_figures(0, 0), None);
    assert_eq!(swap_figures(0, 5), None);
}

#[test]
fn swap_figures_values() {
    let s = swap_figures(2147483648, 536870912).unwrap();
    assert_eq!((fixed2(s.total_gb), fixed2(s.used_gb), fixed2(s.used_percent)), (
        "2.00".to_string(),
        "0.50".to_string(),
        "25.00".to_string()
    ));
}

#[test]
fn disk_row_values() {
    let f = disk_figures(10737418240, 2684354560);
    assert_eq!(fixed1(f.size_gb), "10.0");
    assert_eq!(fixed1(f.used_gb), "7.5");
    assert_eq!(fixed1(f.available_gb), "2.5");
    assert_eq!(fixed1(f.used_percent), "75.0");
}

#[test]
fn empty_disk_row_is_zero_percent() {
    let f = disk_figures(0, 0);
    assert_eq!((f.size_gb, f.used_gb, f.available_gb, f.used_percent), (0, 0, 0, 0));
}
