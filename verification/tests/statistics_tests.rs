use dlt_core::dlt::LogLevel;
use dlt_core::statistics_common::{LevelDistribution, StatisticInfo};

fn get_stat_entities() -> Vec<(String, LevelDistribution)> {
    vec![
        (
            String::from("ID_0"),
            LevelDistribution::new(Some(LogLevel::Debug)),
        ),
        (
            String::from("ID_1"),
            LevelDistribution::new(Some(LogLevel::Error)),
        ),
        (
            String::from("ID_2"),
            LevelDistribution::new(Some(LogLevel::Verbose)),
        ),
        (
            String::from("ID_3"),
            LevelDistribution::new(Some(LogLevel::Warn)),
        ),
    ]
}

#[test]
fn test_merging() {
    let mut stat_a = StatisticInfo {
        app_ids: get_stat_entities(),
        context_ids: get_stat_entities(),
        ecu_ids: get_stat_entities(),
        contained_non_verbose: false,
    };
    let stat_b = StatisticInfo {
        app_ids: get_stat_entities(),
        context_ids: get_stat_entities(),
        ecu_ids: get_stat_entities(),
        contained_non_verbose: true,
    };
    assert_eq!(stat_a.app_ids[0].1.log_debug, 1);
    assert_eq!(stat_a.app_ids[1].1.log_error, 1);
    assert_eq!(stat_a.app_ids[2].1.log_verbose, 1);
    assert_eq!(stat_a.app_ids[3].1.log_warning, 1);
    assert_eq!(stat_b.app_ids[0].1.log_debug, 1);
    assert_eq!(stat_b.app_ids[1].1.log_error, 1);
    assert_eq!(stat_b.app_ids[2].1.log_verbose, 1);
    assert_eq!(stat_b.app_ids[3].1.log_warning, 1);
    stat_a.merge(stat_b);
    assert_eq!(stat_a.app_ids[0].0, String::from("ID_0"));
    assert_eq!(stat_a.app_ids[1].0, String::from("ID_1"));
    assert_eq!(stat_a.app_ids[2].0, String::from("ID_2"));
    assert_eq!(stat_a.app_ids[3].0, String::from("ID_3"));
    assert_eq!(stat_a.app_ids[0].1.log_debug, 2);
    assert_eq!(stat_a.app_ids[1].1.log_error, 2);
    assert_eq!(stat_a.app_ids[2].1.log_verbose, 2);
    assert_eq!(stat_a.app_ids[3].1.log_warning, 2);
    assert_eq!(stat_a.context_ids[0].0, String::from("ID_0"));
    assert_eq!(stat_a.context_ids[1].0, String::from("ID_1"));
    assert_eq!(stat_a.context_ids[2].0, String::from("ID_2"));
    assert_eq!(stat_a.context_ids[3].0, String::from("ID_3"));
    assert_eq!(stat_a.context_ids[0].1.log_debug, 2);
    assert_eq!(stat_a.context_ids[1].1.log_error, 2);
    assert_eq!(stat_a.context_ids[2].1.log_verbose, 2);
    assert_eq!(stat_a.context_ids[3].1.log_warning, 2);
    assert_eq!(stat_a.ecu_ids[0].0, String::from("ID_0"));
    assert_eq!(stat_a.ecu_ids[1].0, String::from("ID_1"));
    assert_eq!(stat_a.ecu_ids[2].0, String::from("ID_2"));
    assert_eq!(stat_a.ecu_ids[3].0, String::from("ID_3"));
    assert_eq!(stat_a.ecu_ids[0].1.log_debug, 2);
    assert_eq!(stat_a.ecu_ids[1].1.log_error, 2);
    assert_eq!(stat_a.ecu_ids[2].1.log_verbose, 2);
    assert_eq!(stat_a.ecu_ids[3].1.log_warning, 2);
    assert!(stat_a.contained_non_verbose);
}

fn entry(id: &str, level: Option<LogLevel>) -> (String, LevelDistribution) {
    (String::from(id), LevelDistribution::new(level))
}

fn sorted(mut list: Vec<(String, LevelDistribution)>) -> Vec<(String, LevelDistribution)> {
    list.sort_by(|a, b| a.0.cmp(&b.0));
    list
}

fn info(entries: Vec<(String, LevelDistribution)>, non_verbose: bool) -> StatisticInfo {
    StatisticInfo {
        app_ids: entries,
        context_ids: vec![],
        ecu_ids: vec![],
        contained_non_verbose: non_verbose,
    }
}

#[test]
fn merge_appends_new_ids_in_order() {
    let mut a = info(vec![entry("A", None), entry("B", Some(LogLevel::Fatal))], false);
    let b = info(
        vec![
            entry("Z", Some(LogLevel::Info)),
            entry("B", Some(LogLevel::Fatal)),
            entry("C", Some(LogLevel::Invalid(9))),
            entry("Z", Some(LogLevel::Info)),
        ],
        false,
    );
    a.merge(b);
    let ids: Vec<&str> = a.app_ids.iter().map(|e| e.0.as_str()).collect();
    assert_eq!(vec!["A", "B", "Z", "C"], ids);
    assert_eq!(1, a.app_ids[0].1.non_log);
    assert_eq!(2, a.app_ids[1].1.log_fatal);
    assert_eq!(2, a.app_ids[2].1.log_info);
    assert_eq!(1, a.app_ids[3].1.log_invalid);
    assert!(!a.contained_non_verbose);
}

#[test]
fn merge_is_commutative_and_associative_on_counts() {
    let a = vec![entry("A", None), entry("B", Some(LogLevel::Debug))];
    let b = vec![entry("B", Some(LogLevel::Debug)), entry("C", Some(LogLevel::Warn))];
    let c = vec![entry("C", Some(LogLevel::Warn)), entry("A", Some(LogLevel::Error))];

    let mut ab = info(a.clone(), false);
    ab.merge(info(b.clone(), true));
    let mut ba = info(b.clone(), true);
    ba.merge(info(a.clone(), false));
    assert_eq!(sorted(ab.app_ids.clone()), sorted(ba.app_ids.clone()));
    assert_eq!(ab.contained_non_verbose, ba.contained_non_verbose);
    assert!(ab.contained_non_verbose);

    let mut ab_c = ab;
    ab_c.merge(info(c.clone(), false));
    let mut bc = info(b, true);
    bc.merge(info(c, false));
    let mut a_bc = info(a, false);
    a_bc.merge(bc);
    assert_eq!(sorted(ab_c.app_ids), sorted(a_bc.app_ids));
}

#[test]
fn level_distribution_counts_one_message() {
    let d = LevelDistribution::new(None);
    assert_eq!(
        LevelDistribution {
            non_log: 1,
            ..LevelDistribution::default()
        },
        d
    );
    let d = LevelDistribution::new(Some(LogLevel::Invalid(0)));
    assert_eq!(1, d.log_invalid);
    assert_eq!(0, d.non_log);
}

#[test]
fn level_distribution_merge_adds_field_by_field() {
    let mut a = LevelDistribution {
        non_log: 1,
        log_fatal: 2,
        log_error: 3,
        log_warning: 4,
        log_info: 5,
        log_debug: 6,
        log_verbose: 7,
        log_invalid: 8,
    };
    let b = LevelDistribution {
        non_log: 10,
        log_fatal: 20,
        log_error: 30,
        log_warning: 40,
        log_info: 50,
        log_debug: 60,
        log_verbose: 70,
        log_invalid: 80,
    };
    a.merge(&b);
    assert_eq!(
        LevelDistribution {
            non_log: 11,
            log_fatal: 22,
            log_error: 33,
            log_warning: 44,
            log_info: 55,
            log_debug: 66,
            log_verbose: 77,
            log_invalid: 88,
        },
        a
    );
}

#[test]
fn checked_merge_refuses_overflow() {
    let mut a = LevelDistribution {
        log_info: usize::MAX,
        ..LevelDistribution::default()
    };
    let before = a;
    assert!(!a.checked_merge(&LevelDistribution::new(Some(LogLevel::Info))));
    assert_eq!(before, a);
    assert!(a.checked_merge(&LevelDistribution::new(Some(LogLevel::Warn))));
    assert_eq!(1, a.log_warning);
}
