use tarah::ops::{parse_raw_args_for_debug_and_commands, plan_pacman_ops, prints_rule_after, PacmanOp};

fn strings(v: &[&str]) -> Vec<String> {
    v.iter().map(|s| s.to_string()).collect()
}

#[test]
fn debug_flags_are_taken_out() {
    let (debug, rest) = parse_raw_args_for_debug_and_commands(&strings(&["-S", "--debug", "foo", "-dbg"]));
    assert!(debug);
    assert_eq!(rest, strings(&["-S", "foo"]));
    let (debug, rest) = parse_raw_args_for_debug_and_commands(&strings(&["-S", "foo", "-d"]));
    assert!(!debug);
    assert_eq!(rest, strings(&["-S", "foo", "-d"]));
    let (debug, rest) = parse_raw_args_for_debug_and_commands(&[]);
    assert!(!debug);
    assert!(rest.is_empty());
}

#[test]
fn operations_are_planned_in_order() {
    let ops = plan_pacman_ops("-S a b ??? -R c ??? -Sy ??? -Sy d e ??? -Syu");
    assert_eq!(
        ops,
        vec![
            PacmanOp::Install(strings(&["a", "b"])),
            PacmanOp::Remove("c".to_string()),
            PacmanOp::Sync(None),
            PacmanOp::Sync(Some("d".to_string())),
            PacmanOp::Update,
        ]
    );
}

#[test]
fn other_operations() {
    let ops = plan_pacman_ops("-U pkg.tar.zst ??? -C ??? --cleanup ??? -test ??? -Qi  foo ??? firefox  browser");
    assert_eq!(
        ops,
        vec![
            PacmanOp::Upgrade("pkg.tar.zst".to_string()),
            PacmanOp::Cleanup,
            PacmanOp::Cleanup,
            PacmanOp::Test,
            PacmanOp::Passthrough("-Qi  foo".to_string()),
            PacmanOp::Search("firefox  browser".to_string()),
        ]
    );
}

#[test]
fn operations_asking_for_nothing_are_left_out() {
    assert_eq!(plan_pacman_ops("-S ??? -R ??? -U ??? ???   "), Vec::<PacmanOp>::new());
    assert_eq!(plan_pacman_ops(""), Vec::<PacmanOp>::new());
}

#[test]
fn rule_lines() {
    assert!(prints_rule_after(&PacmanOp::Update));
    assert!(prints_rule_after(&PacmanOp::Sync(Some("x".to_string()))));
    assert!(!prints_rule_after(&PacmanOp::Sync(None)));
    assert!(!prints_rule_after(&PacmanOp::Search("x".to_string())));
}

#[test]
fn joined_operations_are_those_of_each_part() {
    let x = "-S a b ??? firefox";
    let y = " -R c ??? -C";
    let mut expected = plan_pacman_ops(x);
    expected.extend(plan_pacman_ops(y));
    assert_eq!(plan_pacman_ops(&format!("{}???{}", x, y)), expected);
}
