use jvm::rules::{BasicRule, BeginRule, EmptyRule, RuleContainer};

fn begin(id: i32) -> Box<BasicRule> {
    Box::new(BasicRule::Begin(BeginRule::new(id)))
}

fn empty() -> Box<BasicRule> {
    Box::new(BasicRule::Empty(EmptyRule {}))
}

fn ids(rules: &[Box<BasicRule>]) -> Vec<i32> {
    rules.iter().map(|rule| rule.id()).collect()
}

fn kinds(rules: &[Box<BasicRule>]) -> Vec<bool> {
    rules.iter().map(|rule| matches!(**rule, BasicRule::Begin(_))).collect()
}

#[test]
fn begin_rule_keeps_its_id() {
    assert_eq!(BeginRule::new(7).id(), 7);
    assert_eq!(BeginRule::new(0).id(), 0);
    assert_eq!(BeginRule::new(-3).id(), -3);
    assert_eq!(BeginRule::new(i32::MAX).id(), i32::MAX);
}

#[test]
fn empty_rule_has_id_zero() {
    assert_eq!(EmptyRule {}.id(), 0);
    assert_eq!(empty().id(), 0);
}

#[test]
fn basic_rule_id_goes_by_kind() {
    assert_eq!(begin(5).id(), 5);
    assert_eq!(BasicRule::Empty(EmptyRule {}).id(), 0);
}

#[test]
fn rule_clones_keep_kind_and_id() {
    let rule = BasicRule::Begin(BeginRule::new(12));
    let copy = rule.clone();
    assert!(matches!(copy, BasicRule::Begin(_)));
    assert_eq!(copy.id(), 12);
    let copy = BasicRule::Empty(EmptyRule {}).clone();
    assert!(matches!(copy, BasicRule::Empty(_)));
    assert_eq!(BeginRule::new(4).clone().id(), 4);
}

#[test]
fn update_by_changes_nothing() {
    let mut rule = BeginRule::new(9);
    rule.update_by();
    assert_eq!(rule.id(), 9);
    let mut rule = EmptyRule {};
    rule.update_by();
    assert_eq!(rule.id(), 0);
}

#[test]
fn default_container_holds_the_rules_and_no_index() {
    let container = RuleContainer::default(vec![empty(), begin(1)]);
    assert_eq!(ids(&container.rules), vec![0, 1]);
    assert!(container.index.is_empty());
}

#[test]
fn register_rule_returns_the_id_and_stores_the_rule_twice() {
    let mut container = RuleContainer::default(vec![]);
    assert_eq!(container.register_rule(empty()), 0);
    assert_eq!(container.register_rule(begin(1)), 1);
    assert_eq!(ids(&container.rules), vec![0, 1]);
    assert_eq!(kinds(&container.rules), vec![false, true]);
    assert_eq!(container.index.len(), 2);
    assert!(matches!(**container.index.get(&0).unwrap(), BasicRule::Empty(_)));
    assert!(matches!(**container.index.get(&1).unwrap(), BasicRule::Begin(_)));
    assert_eq!(container.index.get(&1).unwrap().id(), 1);
}

#[test]
fn register_rule_fills_the_gap_with_empty_rules() {
    let mut container = RuleContainer::default(vec![]);
    assert_eq!(container.register_rule(begin(3)), 3);
    assert_eq!(ids(&container.rules), vec![0, 0, 0, 3]);
    assert_eq!(kinds(&container.rules), vec![false, false, false, true]);
    assert_eq!(container.index.len(), 1);
    assert_eq!(container.index.get(&3).unwrap().id(), 3);
}

#[test]
fn register_rule_drops_the_rules_at_later_positions_but_keeps_the_index() {
    let mut container = RuleContainer::default(vec![]);
    container.register_rule(begin(3));
    container.register_rule(begin(1));
    assert_eq!(ids(&container.rules), vec![0, 1]);
    assert_eq!(kinds(&container.rules), vec![false, true]);
    assert_eq!(container.index.len(), 2);
    assert_eq!(container.index.get(&3).unwrap().id(), 3);
    assert_eq!(container.index.get(&1).unwrap().id(), 1);
}

#[test]
fn register_rule_replaces_what_stood_under_the_id() {
    let mut container = RuleContainer::default(vec![begin(0), begin(1), begin(2)]);
    assert_eq!(container.register_rule(empty()), 0);
    assert_eq!(kinds(&container.rules), vec![false]);
    assert_eq!(container.register_rule(begin(0)), 0);
    assert_eq!(kinds(&container.rules), vec![true]);
    assert_eq!(container.index.len(), 1);
    assert!(matches!(**container.index.get(&0).unwrap(), BasicRule::Begin(_)));
}

#[test]
fn get_rule_gives_the_rule_to_change() {
    let mut container = RuleContainer::default(vec![empty(), begin(4)]);
    assert_eq!(container.get_rule(1).id(), 4);
    *container.get_rule(0) = begin(8);
    assert_eq!(ids(&container.rules), vec![8, 4]);
    assert!(container.index.is_empty());
}

#[test]
fn collect_by_id_leaves_the_container_as_it_was() {
    let mut container = RuleContainer::default(vec![]);
    container.register_rule(empty());
    container.register_rule(begin(1));
    container.collect_by_id(1);
    assert_eq!(ids(&container.rules), vec![0, 1]);
    assert_eq!(kinds(&container.rules), vec![false, true]);
    assert_eq!(container.index.len(), 2);
    assert!(matches!(**container.index.get(&0).unwrap(), BasicRule::Empty(_)));
    assert!(matches!(**container.index.get(&1).unwrap(), BasicRule::Begin(_)));
    assert_eq!(container.index.get(&1).unwrap().id(), 1);
}

#[test]
fn collect_by_id_goes_by_the_rule_under_id_one_whatever_is_asked() {
    let mut container = RuleContainer::default(vec![]);
    container.register_rule(empty());
    container.register_rule(begin(1));
    container.collect_by_id(0);
    container.collect_by_id(77);
    assert_eq!(ids(&container.rules), vec![0, 1]);
    assert_eq!(container.index.len(), 2);
}

#[test]
fn begin_rule_collects_through_the_rule_at_position_zero() {
    let mut rules = vec![empty(), begin(1), begin(2)];
    let mut rule = BeginRule::new(1);
    rule.collect_patterns_recursive(&mut rules);
    assert_eq!(rule.id(), 1);
    assert_eq!(ids(&rules), vec![0, 1, 2]);
    assert_eq!(kinds(&rules), vec![false, true, true]);
}

#[test]
fn empty_rule_collects_nothing_from_any_container() {
    let mut rules = vec![begin(5)];
    let mut rule = EmptyRule {};
    rule.collect_patterns_recursive(&mut rules);
    assert_eq!(ids(&rules), vec![5]);
    let mut none: Vec<Box<BasicRule>> = vec![];
    BasicRule::Empty(EmptyRule {}).collect_patterns_recursive(&mut none);
    assert!(none.is_empty());
}

#[test]
fn registered_copy_is_independent_of_the_rule_by_position() {
    let mut container = RuleContainer::default(vec![]);
    container.register_rule(begin(2));
    *container.get_rule(2) = empty();
    assert_eq!(kinds(&container.rules), vec![false, false, false]);
    assert!(matches!(**container.index.get(&2).unwrap(), BasicRule::Begin(_)));
    assert_eq!(container.index.get(&2).unwrap().id(), 2);
}
