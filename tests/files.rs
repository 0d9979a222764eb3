use roxy::protocol::SubCommand;
use roxy::services::{wait_step, WaitStep};

fn s(x: &str) -> String {
    x.to_string()
}

fn v(xs: &[&str]) -> Vec<String> {
    xs.iter().map(|x| s(x)).collect()
}

#[test]
fn ntp_set_replaces_server_lines() {
    let lines = v(&["driftfile /var/lib/ntp/ntp.drift", "server 0.pool.ntp.org iburst", "restrict -4 default"]);
    let out = roxy::ntp::set(&lines, &v(&["time.example.com", "10.0.0.5"]));
    assert_eq!(
        out,
        v(&[
            "driftfile /var/lib/ntp/ntp.drift",
            "restrict -4 default",
            "server time.example.com iburst",
            "server 10.0.0.5 iburst",
        ])
    );
}

#[test]
fn ntp_get_lists_servers() {
    let lines = v(&["# server commented.example iburst", "server 0.pool.ntp.org iburst", "server   ntp.local    iburst", "server BAD iburst"]);
    assert_eq!(roxy::ntp::get(&lines), Some(v(&["0.pool.ntp.org", "ntp.local"])));
    assert_eq!(roxy::ntp::get(&v(&["driftfile x"])), None);
}

#[test]
fn ntp_status_output() {
    assert!(roxy::ntp::is_active(&Some(s("active\n"))));
    assert!(roxy::ntp::is_active(&Some(s("active"))));
    assert!(!roxy::ntp::is_active(&Some(s("inactive\n"))));
    assert!(!roxy::ntp::is_active(&None));
}

#[test]
fn ufw_status_output() {
    assert!(roxy::ufw::is_active(&Some(s("Status: active\n\nTo Action From\n"))));
    assert!(!roxy::ufw::is_active(&Some(s("Status: inactive\n"))));
    assert!(!roxy::ufw::is_active(&None));
}

#[test]
fn syslog_set_replaces_remote_lines() {
    let lines = v(&["#*.* @@remote:514", "*.* @old.example:514", "auth,authpriv.* /var/log/auth.log", ""]);
    let out = roxy::syslog::set(&lines, &v(&["@@192.168.0.10:514"])).expect("valid address");
    assert_eq!(
        out,
        v(&["#*.* @@remote:514", "auth,authpriv.* /var/log/auth.log", "", "user.* @@192.168.0.10:514"])
    );
    assert_eq!(roxy::syslog::set(&lines, &vec![]).expect("no servers").len(), 3);
}

#[test]
fn syslog_set_rejects_invalid_address() {
    let lines = v(&["*.* @old.example:514"]);
    let err = roxy::syslog::set(&lines, &v(&["@10.0.0.1:514", "@ logs.example:514", "@10.0.0.2"]))
        .expect_err("host names and missing ports are rejected");
    assert_eq!(err, "@ logs.example:514");
    assert!(roxy::syslog::set(&lines, &v(&[" @@[::1]:514 "])).is_ok());
}

#[test]
fn syslog_set_checked_uses_given_verdicts() {
    let lines = v(&["a"]);
    let addrs = v(&["x", "y"]);
    assert_eq!(roxy::syslog::set_checked(&lines, &addrs, &vec![true, false]), Err(s("y")));
    assert_eq!(
        roxy::syslog::set_checked(&lines, &addrs, &vec![true, true]),
        Ok(v(&["a", "user.* x", "user.* y"]))
    );
}

#[test]
fn version_set_replaces_line_case_insensitively() {
    let lines = v(&["os: old", "Product: AICE 1.0", "Build: 7"]);
    let out = roxy::hwinfo::set_version(&lines, SubCommand::SetOsVersion, &s("AICE OS v1.0.23"))
        .expect("os version");
    assert_eq!(out, v(&["Product: AICE 1.0", "Build: 7", "OS: AICE OS v1.0.23"]));
    let out = roxy::hwinfo::set_version(&lines, SubCommand::SetProductVersion, &s("AICE 2.0"))
        .expect("product version");
    assert_eq!(out, v(&["os: old", "Build: 7", "Product: AICE 2.0"]));
    assert_eq!(
        roxy::hwinfo::set_version(&lines, SubCommand::Get, &s("x")),
        Err("invalid command")
    );
}

#[test]
fn version_line_uses_given_lowercase_forms() {
    let lines = v(&["OS: a", "Product: b"]);
    let lowered = v(&["os: a", "product: b"]);
    let out = roxy::hwinfo::replace_version_line(&lines, &lowered, SubCommand::SetProductVersion, &s("c"))
        .expect("product");
    assert_eq!(out, v(&["OS: a", "Product: c"]));
}

#[test]
fn syslog_get_lists_remote_servers() {
    let lines = v(&[
        "#*.* @@remote:514",
        "user.* @@192.168.0.10:514",
        "*.* @10.0.0.1:514",
        "auth,authpriv.* /var/log/auth.log",
        "kern.* @",
    ]);
    assert_eq!(
        roxy::syslog::get(&lines),
        Some(vec![
            (s("user.*"), s("tcp"), s("192.168.0.10:514")),
            (s("*.*"), s("udp"), s("10.0.0.1:514")),
        ])
    );
    assert_eq!(roxy::syslog::get(&v(&["# nothing"])), None);
}

#[test]
fn ufw_get_parses_status_table() {
    let output = "Status: active\n\nTo                         Action      From\n--                         ------      ----\n22/tcp                     ALLOW IN    Anywhere\n25/tcp (v6)                DENY OUT    Anywhere (v6)\nAnywhere on eth0           ALLOW IN    203.0.113.102\n";
    let rules = roxy::ufw::get(&Some(s(output))).expect("rules");
    assert_eq!(
        rules,
        vec![
            (s("ALLOW IN"), s("Any"), s("22"), Some(s("tcp")), None),
            (s("DENY OUT"), s("Any (v6)"), s("25 (v6)"), Some(s("tcp")), None),
            (s("ALLOW IN"), s("203.0.113.102"), s("Any"), None, Some(s("eth0"))),
        ]
    );
    assert_eq!(roxy::ufw::get(&Some(s("Status: inactive\n"))), None);
    assert_eq!(roxy::ufw::get(&None), None);
}

#[test]
fn uptime_joins_both_outputs() {
    let pretty = Some(s("up 7 weeks, 5 days\n"));
    let since = Some(s("2021-12-16 23:43:10\n"));
    assert_eq!(
        roxy::hwinfo::uptime(&pretty, &since),
        Some(s("up 7 weeks, 5 days (boot: 2021-12-16 23:43:10)"))
    );
    assert_eq!(roxy::hwinfo::uptime(&pretty, &None), Some(s("up 7 weeks, 5 days")));
    assert_eq!(roxy::hwinfo::uptime(&None, &None), None);
    assert_eq!(roxy::hwinfo::uptime(&Some(s("\n")), &None), None);
}

#[test]
fn version_reads_identity_lines() {
    let lines = v(&["OS: AICE OS v1.0.23 ", "Product:AICE Security v1.1.99", "Build: 3"]);
    assert_eq!(
        roxy::hwinfo::version(&lines),
        (s("AICE OS v1.0.23"), s("AICE Security v1.1.99"))
    );
    assert_eq!(roxy::hwinfo::version(&vec![]), (s("AICE security"), s("AICE security")));
}

#[test]
fn service_selection() {
    assert_eq!(roxy::services::status_targets(&None).len(), 6);
    assert_eq!(roxy::services::status_targets(&Some(s("hog"))), v(&["hog"]));
    let answers = vec![(s("zeek"), Some(s("active"))), (s("hog"), None), (s("peek"), Some(s("inactive")))];
    let st = roxy::services::status(&answers);
    assert_eq!(st, vec![(s("zeek"), s("active")), (s("peek"), s("inactive"))]);
    assert_eq!(roxy::services::stop_all(&st), v(&["zeek"]));
    let others = vec![(s("review"), s("active")), (s("nginx"), s("active")), (s("hog"), s("failed"))];
    assert_eq!(roxy::services::stop_all(&others), v(&["review", "nginx"]));
}

#[test]
fn wait_step_decisions() {
    assert_eq!(wait_step(true, 100, 1), WaitStep::Done(true));
    assert_eq!(wait_step(false, 0, 1), WaitStep::Retry);
    assert_eq!(wait_step(false, 1, 1), WaitStep::Done(false));
    assert_eq!(wait_step(false, 0, 0), WaitStep::Done(false));
}

#[test]
fn sshd_port_lines() {
    let lines = v(&["#Port 22", "PermitRootLogin no", "Port  2222 ", "Port 22"]);
    assert_eq!(roxy::sshd::port(&lines), Some(s("2222")));
    assert_eq!(roxy::sshd::port(&v(&["#Port 22"])), None);
    assert_eq!(roxy::sshd::set(&lines, &s("2022")), v(&["PermitRootLogin no", "Port 2022"]));
}
