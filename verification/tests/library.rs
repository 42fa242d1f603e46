use chrono::Offset;
use check_in_zw_v3::b2_token_by_headless_chrome::{find_b2_token, B2Token, Cookie};
use check_in_zw_v3::config::{LogConfig, MyConfig, ScheduleConfig, UserinfoConfig};
use check_in_zw_v3::cron::{cron_hour_in_range, cron_to_utc_with_offset, parse_i32_span};
use check_in_zw_v3::local_cron_to_utc;
use check_in_zw_v3::log::{level_from_lowercase, level_from_name, LogLevel, MyLog};
use check_in_zw_v3::sign::{GetUserMission, Mission, Tk, Zw, ZwAction, ZwEvent};
use check_in_zw_v3::text::{chars_of, is_whitespace, split_whitespace_spans, str_contains};

fn userinfo() -> UserinfoConfig {
    UserinfoConfig {
        username: "alice".to_string(),
        password: "secret".to_string(),
        url1: "https://forum/sign".to_string(),
        url2: "https://forum/info".to_string(),
        url3: "https://forum/mission".to_string(),
        login_url: "https://login".to_string(),
        forum_url: "https://forum".to_string(),
        chrome_driver: "http://localhost:9515".to_string(),
    }
}

fn mission_dated(date: &str) -> GetUserMission {
    GetUserMission {
        mission: Mission {
            date: date.to_string(),
            credit: "5".to_string(),
            always: "1".to_string(),
            tk: Tk { days: 3, credit: 2, bs: "x".to_string() },
            my_credit: "120".to_string(),
            current_user: 7,
        },
    }
}

#[test]
fn config_getters_return_copies() {
    let cfg = MyConfig {
        userinfo: userinfo(),
        schedule: ScheduleConfig { cron: "0 30 8 * * *".to_string() },
        log: LogConfig { enable: true, level: "debug".to_string() },
    };
    let u = cfg.get_userinfo();
    assert_eq!(u.username, "alice");
    assert_eq!(u.url3, "https://forum/mission");
    assert_eq!(u.chrome_driver, "http://localhost:9515");
    assert_eq!(cfg.get_schedule().cron, "0 30 8 * * *");
    let l = cfg.get_log();
    assert!(l.enable);
    assert_eq!(l.level, "debug");
}

#[test]
fn my_log_new_is_off_at_info() {
    let log = MyLog::new();
    assert!(!log.log_enable);
    assert_eq!(log.log_level, "info");
}

#[test]
fn my_log_run_enabled_selects_level() {
    let mut log = MyLog::new();
    let r = log.run(LogConfig { enable: true, level: "WARNING".to_string() });
    assert_eq!(r, Some(LogLevel::Warn));
    assert!(log.log_enable);
    assert_eq!(log.log_level, "WARNING");
}

#[test]
fn my_log_run_disabled_selects_nothing() {
    let mut log = MyLog::new();
    let r = log.run(LogConfig { enable: false, level: "trace".to_string() });
    assert_eq!(r, None);
    assert!(!log.log_enable);
    assert_eq!(log.log_level, "trace");
}

#[test]
fn level_names_in_lowercase() {
    assert_eq!(level_from_lowercase("trace"), LogLevel::Trace);
    assert_eq!(level_from_lowercase("debug"), LogLevel::Debug);
    assert_eq!(level_from_lowercase("info"), LogLevel::Info);
    assert_eq!(level_from_lowercase("warn"), LogLevel::Warn);
    assert_eq!(level_from_lowercase("warning"), LogLevel::Warn);
    assert_eq!(level_from_lowercase("error"), LogLevel::Error);
    assert_eq!(level_from_lowercase("verbose"), LogLevel::Info);
    assert_eq!(level_from_lowercase(""), LogLevel::Info);
    assert_eq!(level_from_lowercase("ERROR"), LogLevel::Info);
}

#[test]
fn level_names_in_any_case() {
    assert_eq!(level_from_name("ERROR"), LogLevel::Error);
    assert_eq!(level_from_name("DeBuG"), LogLevel::Debug);
    assert_eq!(level_from_name("Trace"), LogLevel::Trace);
    assert_eq!(level_from_name("WARN"), LogLevel::Warn);
    assert_eq!(level_from_name("nothing"), LogLevel::Info);
}

#[test]
fn cron_hour_moves_back_by_positive_offset() {
    assert_eq!(cron_to_utc_with_offset("0 30 8 * * *", 8 * 3600), "0 30 0 * * *");
    assert_eq!(cron_to_utc_with_offset("0 30 3 * * *", 8 * 3600), "0 30 19 * * *");
}

#[test]
fn cron_hour_moves_forward_by_negative_offset() {
    assert_eq!(cron_to_utc_with_offset("0 0 22 * * Mon", -5 * 3600), "0 0 3 * * Mon");
}

#[test]
fn cron_offset_hours_round_toward_zero() {
    assert_eq!(cron_to_utc_with_offset("0 0 10 * * *", 5 * 3600 + 1800), "0 0 5 * * *");
    assert_eq!(cron_to_utc_with_offset("0 0 10 * * *", -(2 * 3600 + 1800)), "0 0 12 * * *");
    assert_eq!(cron_to_utc_with_offset("0 0 10 * * *", 3599), "0 0 10 * * *");
    assert_eq!(cron_to_utc_with_offset("0 0 10 * * *", -3599), "0 0 10 * * *");
}

#[test]
fn cron_with_wrong_field_count_is_kept() {
    assert_eq!(cron_to_utc_with_offset("30 8 * * *", 3600), "30 8 * * *");
    assert_eq!(cron_to_utc_with_offset("0 0 30 8 * * *", 3600), "0 0 30 8 * * *");
    assert_eq!(cron_to_utc_with_offset("", 3600), "");
}

#[test]
fn cron_with_unparsable_hour_is_kept() {
    assert_eq!(cron_to_utc_with_offset("0 30 * * * *", 3600), "0 30 * * * *");
    assert_eq!(cron_to_utc_with_offset("0 30 8-9 * * *", 3600), "0 30 8-9 * * *");
    assert_eq!(cron_to_utc_with_offset("0 30 99999999999 * * *", 3600), "0 30 99999999999 * * *");
}

#[test]
fn cron_whitespace_is_normalised_and_hour_rewritten() {
    assert_eq!(cron_to_utc_with_offset("  0\t30   08 * *\n* ", 0), "0 30 8 * * *");
    assert_eq!(cron_to_utc_with_offset("0 30 +07 * * *", 3600), "0 30 6 * * *");
    assert_eq!(cron_to_utc_with_offset("0 30 -1 * * *", 0), "0 30 23 * * *");
    assert_eq!(cron_to_utc_with_offset("0 30 48 * * *", 0), "0 30 0 * * *");
    assert_eq!(cron_to_utc_with_offset("0\u{3000}30\u{a0}8 * * *", 0), "0 30 8 * * *");
}

#[test]
fn cron_round_trip_by_opposite_offsets() {
    let c = "0  15 7 1 * *";
    for off in [0, 3600, -3600, 8 * 3600, -5 * 3600 - 1800, 86399, -86399] {
        let there = cron_to_utc_with_offset(c, off);
        let back = cron_to_utc_with_offset(&there, -off);
        assert_eq!(back, cron_to_utc_with_offset(c, 0));
    }
    assert_eq!(cron_to_utc_with_offset("0 15 7 1 * *", 0), "0 15 7 1 * *");
}

#[test]
fn cron_hour_range_check() {
    assert!(cron_hour_in_range("0 30 8 * * *"));
    assert!(cron_hour_in_range("0 30 * * * *"));
    assert!(cron_hour_in_range("30 8 * * *"));
    assert!(cron_hour_in_range("0 30 2147483624 * * *"));
    assert!(!cron_hour_in_range("0 30 2147483625 * * *"));
    assert!(!cron_hour_in_range("0 30 -2147483648 * * *"));
}

#[test]
fn local_cron_uses_the_local_offset() {
    let before = chrono::Local::now().offset().fix().local_minus_utc();
    let got = local_cron_to_utc("0 30 8 * * *".to_string());
    let after = chrono::Local::now().offset().fix().local_minus_utc();
    let expect = |secs: i32| cron_to_utc_with_offset("0 30 8 * * *", secs);
    assert!(got == expect(before) || got == expect(after));
    assert_eq!(local_cron_to_utc("bad cron".to_string()), "bad cron");
}

#[test]
fn parse_i32_like_std() {
    let cases = ["0", "-0", "+5", "-2147483648", "2147483647", "2147483648", "-2147483649", "+", "-", "", "12a", "007", " 1"];
    for c in cases {
        let cs = chars_of(c);
        let got = parse_i32_span(&cs, 0, cs.len());
        assert_eq!(got, c.parse::<i32>().ok(), "input {:?}", c);
    }
}

#[test]
fn whitespace_split_like_std() {
    for s in ["a b", "  lead and trail  ", "\t\n", "", "x\u{2003}y\u{85}z", "one"] {
        let cs = chars_of(s);
        let spans = split_whitespace_spans(&cs);
        let pieces: Vec<String> = spans.iter().map(|&(a, b)| cs[a..b].iter().collect()).collect();
        let expected: Vec<String> = s.split_whitespace().map(|w| w.to_string()).collect();
        assert_eq!(pieces, expected);
    }
    assert!(is_whitespace('\u{3000}'));
    assert!(!is_whitespace('\u{200b}'));
}

#[test]
fn contains_like_std() {
    assert!(str_contains("2024-05-01 12:00", "2024-05-01"));
    assert!(!str_contains("2024-05-01", "2024-05-02"));
    assert!(str_contains("abc", ""));
    assert!(!str_contains("", "a"));
    assert!(str_contains("日期2024", "2024"));
}

#[test]
fn b2_token_takes_credentials() {
    let t = B2Token::new(&userinfo());
    assert_eq!(t.login_url, "https://login");
    assert_eq!(t.forum_url, "https://forum");
    assert_eq!(t.username, "alice");
    assert_eq!(t.password, "secret");
    let t2 = check_in_zw_v3::b2_token::B2Token::new(&userinfo());
    assert_eq!(t2.username, "alice");
}

#[test]
fn b2_token_first_matching_cookie() {
    let cookie = |n: &str, v: &str| Cookie { name: n.to_string(), value: v.to_string() };
    let cookies = vec![cookie("sid", "1"), cookie("b2_token", "tok-a"), cookie("b2_token", "tok-b")];
    assert_eq!(find_b2_token(&cookies), Some("tok-a".to_string()));
    assert_eq!(find_b2_token(&vec![cookie("sid", "1")]), None);
    assert_eq!(find_b2_token(&vec![]), None);
}

#[test]
fn zw_new_knows_nothing_yet() {
    let zw = Zw::new(Some("tok".to_string()), userinfo());
    assert!(!zw.status);
    assert_eq!(zw.credit, "");
    assert_eq!(zw.user_mission.mission.date, "");
    assert_eq!(zw.b2_token.as_deref(), Some("tok"));
}

#[test]
fn zw_start_already_checked_in_finishes() {
    let mut zw = Zw::new(Some("tok".to_string()), userinfo());
    zw.user_mission = mission_dated("2024-05-01 08:00:01");
    let a = zw.step_on(ZwEvent::Start, "2024-05-01");
    assert!(matches!(a, ZwAction::Finished));
    assert!(zw.status);
}

#[test]
fn zw_full_round_signs_in_then_reads_mission() {
    let mut zw = Zw::new(Some("tok".to_string()), userinfo());
    match zw.step_on(ZwEvent::Start, "2024-05-01") {
        ZwAction::PostSignIn { url, token } => {
            assert_eq!(url, "https://forum/sign");
            assert_eq!(token, "tok");
        }
        _ => panic!("expected a check-in request"),
    }
    match zw.step_on(ZwEvent::SignInReply(Some("\"10\"".to_string())), "2024-05-01") {
        ZwAction::PostMission { url, token } => {
            assert_eq!(url, "https://forum/mission");
            assert_eq!(token, "tok");
        }
        _ => panic!("expected a mission request"),
    }
    assert_eq!(zw.credit, "\"10\"");
    let a = zw.step_on(ZwEvent::MissionReply(Some(mission_dated("2024-05-01 08:00:01"))), "2024-05-01");
    assert!(matches!(a, ZwAction::Finished));
    assert!(zw.status);
    assert_eq!(zw.user_mission.mission.my_credit, "120");
}

#[test]
fn zw_failed_sign_in_fetches_new_token() {
    let mut zw = Zw::new(Some("old".to_string()), userinfo());
    let a = zw.step_on(ZwEvent::SignInReply(None), "2024-05-01");
    assert!(matches!(a, ZwAction::FetchToken));
    assert_eq!(zw.b2_token.as_deref(), Some("old"));
    match zw.step_on(ZwEvent::TokenFetched(Some("new".to_string())), "2024-05-01") {
        ZwAction::PostMission { token, .. } => assert_eq!(token, "new"),
        _ => panic!("expected a mission request"),
    }
    assert_eq!(zw.b2_token.as_deref(), Some("new"));
}

#[test]
fn zw_no_token_means_missing_token() {
    let mut zw = Zw::new(None, userinfo());
    assert!(!zw.is_token_ready(&ZwEvent::Start, "2024-05-01"));
    assert!(matches!(zw.step(ZwEvent::Start), ZwAction::MissingToken));
    assert!(!zw.status);
    let mut zw = Zw::new(Some("old".to_string()), userinfo());
    assert!(!zw.is_token_ready(&ZwEvent::TokenFetched(None), "2024-05-01"));
    assert!(matches!(zw.step(ZwEvent::TokenFetched(None)), ZwAction::MissingToken));
    assert_eq!(zw.b2_token.as_deref(), Some("old"));
}

#[test]
fn zw_token_readiness() {
    let none = Zw::new(None, userinfo());
    let mut done = Zw::new(None, userinfo());
    done.user_mission = mission_dated("2024-05-01 08:00:00");
    assert!(done.is_token_ready(&ZwEvent::Start, "2024-05-01"));
    assert!(!none.is_token_ready(&ZwEvent::SignInReply(Some("x".to_string())), "2024-05-01"));
    assert!(none.is_token_ready(&ZwEvent::SignInReply(None), "2024-05-01"));
    assert!(none.is_token_ready(&ZwEvent::TokenFetched(Some("t".to_string())), "2024-05-01"));
    assert!(none.is_token_ready(&ZwEvent::MissionReply(Some(mission_dated("2024-05-01"))), "2024-05-01"));
    assert!(!none.is_token_ready(&ZwEvent::MissionReply(None), "2024-05-01"));
    let with = Zw::new(Some("t".to_string()), userinfo());
    assert!(with.is_token_ready(&ZwEvent::MissionReply(None), "2024-05-01"));
}

#[test]
fn zw_second_round_same_day_changes_nothing() {
    let mut zw = Zw::new(Some("tok".to_string()), userinfo());
    let a = zw.step_on(ZwEvent::MissionReply(Some(mission_dated("2024-05-01 08:00:01"))), "2024-05-01");
    assert!(matches!(a, ZwAction::Finished));
    let before = zw.clone();
    let a = zw.step_on(ZwEvent::Start, "2024-05-01");
    assert!(matches!(a, ZwAction::Finished));
    assert!(zw.status);
    assert_eq!(zw.credit, before.credit);
    assert_eq!(zw.b2_token, before.b2_token);
    assert_eq!(zw.user_mission.mission.date, before.user_mission.mission.date);
}

#[test]
fn cron_canonical_expression_unchanged_at_offset_zero() {
    for c in ["0 0 0 * * *", "5 30 9 1 2 Mon", "0 0 23 * * *"] {
        assert_eq!(cron_to_utc_with_offset(c, 0), c);
    }
}

#[test]
fn zw_unreadable_mission_resets_and_retries() {
    let mut zw = Zw::new(Some("tok".to_string()), userinfo());
    zw.user_mission = mission_dated("2024-04-30");
    match zw.step_on(ZwEvent::MissionReply(None), "2024-05-01") {
        ZwAction::PostSignIn { token, .. } => assert_eq!(token, "tok"),
        _ => panic!("expected another check-in request"),
    }
    assert!(!zw.status);
    assert_eq!(zw.user_mission.mission.date, "");
    assert_eq!(zw.user_mission.mission.tk.days, 0);
}

#[test]
fn zw_mission_of_another_day_retries() {
    let mut zw = Zw::new(Some("tok".to_string()), userinfo());
    let a = zw.step_on(ZwEvent::MissionReply(Some(mission_dated("2024-04-30 23:59:59"))), "2024-05-01");
    assert!(matches!(a, ZwAction::PostSignIn { .. }));
    assert!(!zw.status);
}

#[test]
fn zw_step_with_clock_date() {
    let today = chrono::Local::now().format("%Y-%m-%d").to_string();
    let mut zw = Zw::new(Some("tok".to_string()), userinfo());
    zw.user_mission = mission_dated(&format!("{} 00:00:01", today));
    let a = zw.step(ZwEvent::Start);
    let tomorrow_crossed = chrono::Local::now().format("%Y-%m-%d").to_string() != today;
    assert!(tomorrow_crossed || matches!(a, ZwAction::Finished));
    let mut stale = Zw::new(Some("tok".to_string()), userinfo());
    stale.user_mission = mission_dated("1999-01-01");
    stale.check_status();
    assert!(!stale.status);
}

#[test]
fn zw_clone_keeps_everything() {
    let mut zw = Zw::new(Some("tok".to_string()), userinfo());
    zw.user_mission = mission_dated("2024-05-01");
    zw.credit = "c".to_string();
    let c = zw.clone();
    assert_eq!(c.b2_token.as_deref(), Some("tok"));
    assert_eq!(c.credit, "c");
    assert_eq!(c.user_mission.mission.tk.bs, "x");
    assert_eq!(c.userinfo.password, "secret");
}

#[test]
fn mission_default_is_empty() {
    let m = GetUserMission::default();
    assert_eq!(m.mission.date, "");
    assert_eq!(m.mission.current_user, 0);
    assert_eq!(m.mission.tk.credit, 0);
}

#[test]
fn zw_check_status_reads_the_clock() {
    let today = chrono::Local::now().format("%Y-%m-%d").to_string();
    let mut zw = Zw::new(Some("tok".to_string()), userinfo());
    zw.user_mission = mission_dated(&format!("{} 08:00:00", today));
    zw.check_status();
    let crossed = chrono::Local::now().format("%Y-%m-%d").to_string() != today;
    assert!(crossed || zw.status);
    let mut empty = Zw::new(Some("tok".to_string()), userinfo());
    empty.status = true;
    empty.check_status();
    assert!(!empty.status);
}
