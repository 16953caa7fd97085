use jvm_ioprio::enforce::class_to_apply;
use jvm_ioprio::level::{parse_byte, parse_prio, PrioClass};
use jvm_ioprio::offsets::DiscoveredOffsets;
use jvm_ioprio::rules::{
    class_for_name, collect_rules, compile_group, compile_rules, select_last_match, NamePattern,
    PriorityRule,
};
use jvm_ioprio::text::split_text;

fn found_offsets() -> DiscoveredOffsets {
    DiscoveredOffsets { osthread: 0x1f8, os_thread_id: 0x50 }
}

fn patterns(rules: &[PriorityRule]) -> Vec<(String, PrioClass)> {
    rules.iter().map(|r| (r.pattern.source().to_string(), r.class)).collect()
}

#[test]
fn split_keeps_empty_pieces() {
    assert_eq!(split_text("a;b", ';'), vec!["a".to_string(), "b".to_string()]);
    assert_eq!(split_text("", ';'), vec!["".to_string()]);
    assert_eq!(split_text(";x;", ';'), vec!["".to_string(), "x".to_string(), "".to_string()]);
    assert_eq!(split_text("é;ü", ';'), vec!["é".to_string(), "ü".to_string()]);
}

#[test]
fn byte_parsing() {
    assert_eq!(parse_byte("4"), Some(4));
    assert_eq!(parse_byte("+7"), Some(7));
    assert_eq!(parse_byte("007"), Some(7));
    assert_eq!(parse_byte("255"), Some(255));
    assert_eq!(parse_byte("256"), None);
    assert_eq!(parse_byte("99999999999"), None);
    assert_eq!(parse_byte(""), None);
    assert_eq!(parse_byte("+"), None);
    assert_eq!(parse_byte("-1"), None);
    assert_eq!(parse_byte("4a"), None);
    assert_eq!(parse_byte(" 4"), None);
}

#[test]
fn priority_texts() {
    assert_eq!(parse_prio("idle"), Some(PrioClass::Idle));
    assert_eq!(parse_prio("best_effort(4)"), Some(PrioClass::BestEffort(4)));
    assert_eq!(parse_prio("best_effort(0)"), Some(PrioClass::BestEffort(0)));
    assert_eq!(parse_prio("best_effort(7)"), Some(PrioClass::BestEffort(7)));
    assert_eq!(parse_prio("best_effort(7)))"), None);
    assert_eq!(parse_prio("best_effort(4))"), None);
    assert_eq!(parse_prio("best_effort(4"), None);
    assert_eq!(parse_prio("best_effort(-1)"), None);
    assert_eq!(parse_prio("best_effort(+3)"), Some(PrioClass::BestEffort(3)));
    assert_eq!(parse_prio("best_effort"), None);
    assert_eq!(parse_prio("best_effort()x"), None);
    assert_eq!(parse_prio("best_effort(8)"), None);
    assert_eq!(parse_prio("best_effort(255)"), None);
    assert_eq!(parse_prio("best_effort()"), None);
    assert_eq!(parse_prio("best_effort(x)"), None);
    assert_eq!(parse_prio("fast"), None);
    assert_eq!(parse_prio("Idle"), None);
    assert_eq!(parse_prio("idle "), None);
    assert_eq!(parse_prio(""), None);
}

#[test]
fn pattern_compilation() {
    assert!(NamePattern::compile("(").is_none());
    let p = NamePattern::compile("Worker-.*").unwrap();
    assert_eq!(p.source(), "Worker-.*");
    assert!(p.is_match("Worker-3"));
    assert!(p.is_match("pool-Worker-3"));
    assert!(!p.is_match("Reader-1"));
    let anchored = NamePattern::compile("^GC$").unwrap();
    assert!(anchored.is_match("GC"));
    assert!(!anchored.is_match("GC Thread"));
}

#[test]
fn group_arguments() {
    let r = compile_group("thread_name=Worker-.*,prio=idle").unwrap();
    assert_eq!(r.pattern.source(), "Worker-.*");
    assert_eq!(r.class, PrioClass::Idle);
    let later = compile_group("prio=idle,thread_name=a,prio=best_effort(2)").unwrap();
    assert_eq!(later.class, PrioClass::BestEffort(2));
    assert_eq!(later.pattern.source(), "a");
    let with_eq = compile_group("thread_name=a=b,prio=idle").unwrap();
    assert_eq!(with_eq.pattern.source(), "a=b");
    assert!(compile_group("thread_name=a").is_none());
    assert!(compile_group("prio=idle").is_none());
    assert!(compile_group("thread_name=(,prio=idle").is_none());
    assert!(compile_group("thread_name,prio=idle").is_some());
    assert!(compile_group("").is_none());
}

#[test]
fn malformed_groups_are_dropped_in_order() {
    let rules = compile_rules(
        "thread_name=A.*,prio=idle;thread_name=(,prio=idle;thread_name=B,prio=fast;\
         thread_name=C,prio=best_effort(3);prio=idle;thread_name=D,prio=best_effort(9)",
    );
    assert_eq!(
        patterns(&rules),
        vec![("A.*".to_string(), PrioClass::Idle), ("C".to_string(), PrioClass::BestEffort(3))]
    );
}

#[test]
fn only_levels_in_range_with_one_parenthesis() {
    let rules = compile_rules(
        "thread_name=a,prio=best_effort(0);thread_name=b,prio=best_effort(7);\
         thread_name=c,prio=best_effort(8);thread_name=d,prio=best_effort(-1);\
         thread_name=e,prio=best_effort(4;thread_name=f,prio=best_effort(4))",
    );
    assert_eq!(
        patterns(&rules),
        vec![("a".to_string(), PrioClass::BestEffort(0)), ("b".to_string(), PrioClass::BestEffort(7))]
    );
}

#[test]
fn collected_rules_keep_order() {
    let a = compile_group("thread_name=a,prio=idle");
    let b = compile_group("thread_name=b,prio=best_effort(1)");
    let rules = collect_rules(vec![None, a, None, b, None]);
    assert_eq!(
        patterns(&rules),
        vec![("a".to_string(), PrioClass::Idle), ("b".to_string(), PrioClass::BestEffort(1))]
    );
    assert!(collect_rules(vec![None, None]).is_empty());
}

#[test]
fn last_matching_rule_decides() {
    let rules = compile_rules(
        "thread_name=Worker-.*,prio=idle;thread_name=Worker-3,prio=best_effort(2);\
         thread_name=Reader,prio=best_effort(6)",
    );
    assert_eq!(rules.len(), 3);
    assert_eq!(class_for_name(&rules, "Worker-3"), Some(PrioClass::BestEffort(2)));
    assert_eq!(class_for_name(&rules, "Worker-1"), Some(PrioClass::Idle));
    assert_eq!(class_for_name(&rules, "Reader"), Some(PrioClass::BestEffort(6)));
    assert_eq!(class_for_name(&rules, "Main"), None);
}

#[test]
fn selection_by_match_flags() {
    let rules = compile_rules("thread_name=a,prio=idle;thread_name=b,prio=best_effort(5)");
    assert_eq!(select_last_match(&rules, &vec![true, true]), Some(PrioClass::BestEffort(5)));
    assert_eq!(select_last_match(&rules, &vec![true, false]), Some(PrioClass::Idle));
    assert_eq!(select_last_match(&rules, &vec![false, false]), None);
    assert_eq!(select_last_match(&Vec::new(), &Vec::new()), None);
}

#[test]
fn scenario_worker_gets_idle() {
    let rules = compile_rules("thread_name=Worker-.*,prio=idle");
    assert_eq!(class_to_apply(&rules, &found_offsets(), "Worker-3"), Some(PrioClass::Idle));
}

#[test]
fn scenario_groups_split_by_semicolon_stand_alone() {
    // Each semicolon-separated group needs both its keys.
    let rules = compile_rules("thread_name=Worker-.*;prio=idle");
    assert!(rules.is_empty());
    assert_eq!(class_to_apply(&rules, &found_offsets(), "Worker-3"), None);
}

#[test]
fn scenario_no_matching_rule_no_call() {
    let rules = compile_rules("thread_name=Worker-.*,prio=best_effort(4)");
    assert_eq!(rules.len(), 1);
    assert_eq!(class_to_apply(&rules, &found_offsets(), "Main"), None);
}

#[test]
fn scenario_failed_discovery_no_call() {
    let rules = compile_rules("thread_name=Worker-.*,prio=idle");
    let unknown = DiscoveredOffsets::unknown();
    assert_eq!(class_to_apply(&rules, &unknown, "Worker-3"), None);
    let half = DiscoveredOffsets { osthread: 8, os_thread_id: -1 };
    assert_eq!(class_to_apply(&rules, &half, "Worker-3"), None);
}

#[test]
fn scenario_malformed_priority_dropped() {
    let rules = compile_rules("thread_name=.*,prio=fast");
    assert!(rules.is_empty());
    assert_eq!(class_to_apply(&rules, &found_offsets(), "Worker-3"), None);
    assert_eq!(class_to_apply(&rules, &found_offsets(), "anything"), None);
}
