use phi::expr::{DeltaLookup, PhiExprDelta, PhiStepExpr};

#[derive(Clone, Debug, PartialEq)]
enum Step {
    RequestProvider,
    Compacted,
}

type Expr = PhiStepExpr<Step, String, i64>;

fn root() -> Expr {
    PhiStepExpr::new(Step::RequestProvider, PhiExprDelta::new())
}

fn is_barrier(step: &Step) -> bool {
    *step == Step::Compacted
}

#[test]
fn store_records_effects_in_the_current_delta() {
    let expr = root().store("first".to_string(), 1).store("second".to_string(), 2);

    assert!(expr.delta().affects("first"));
    assert!(expr.delta().affects("second"));
    assert_eq!(expr.lookup("first"), Some(&1));
    assert_eq!(expr.lookup("second"), Some(&2));
}

#[test]
fn store_only_affects_the_current_delta() {
    let base: Expr = PhiStepExpr::new(Step::RequestProvider, PhiExprDelta::from_messages(vec!["earlier".to_string()]));
    let expr = PhiStepExpr::branch(base, Step::RequestProvider, PhiExprDelta::new());

    let expr = expr.store("answer".to_string(), 42);

    assert!(!expr.expr().expect("base expr should exist").delta().affects("answer"));
    assert!(expr.delta().history.is_empty());
    assert_eq!(expr.lookup("answer"), Some(&42));
    assert_eq!(expr.history(&is_barrier), vec!["earlier".to_string()]);
}

#[test]
fn lookup_prefers_current_frame_effect_before_parent_expr() {
    let mut delta = PhiExprDelta::new();
    delta.store("name".to_string(), 10);
    delta.store("count".to_string(), 1);
    let base: Expr = PhiStepExpr::new(Step::RequestProvider, delta);
    let expr = PhiStepExpr::branch(base, Step::RequestProvider, PhiExprDelta::new());

    let expr = expr.store("name".to_string(), 20);

    assert_eq!(expr.lookup("name"), Some(&20));
    assert_eq!(expr.lookup("count"), Some(&1));
    assert_eq!(expr.lookup("missing"), None);
}

#[test]
fn remove_blocks_parent_lookup() {
    let mut delta = PhiExprDelta::new();
    delta.store("retry_state".to_string(), 3);
    let base: Expr = PhiStepExpr::new(Step::RequestProvider, delta);
    let expr = PhiStepExpr::branch(base, Step::RequestProvider, PhiExprDelta::new());

    let expr = expr.remove("retry_state".to_string());

    assert_eq!(expr.lookup("retry_state"), None);
}

#[test]
fn store_round_trips_and_remove_hides_parent_value() {
    let expr = root().store("retry_state".to_string(), 2);
    assert_eq!(expr.lookup("retry_state"), Some(&2));

    let expr = PhiStepExpr::branch(expr, Step::RequestProvider, PhiExprDelta::new()).remove("retry_state".to_string());
    assert_eq!(expr.lookup("retry_state"), None);
}

#[test]
fn delta_then_appends_history_and_applies_later_variable_effects() {
    let mut base: PhiExprDelta<String, String> = PhiExprDelta::from_messages(vec!["base".to_string()]);
    base.store("kept".to_string(), "1".to_string());
    base.store("overridden".to_string(), "base".to_string());

    let mut current = PhiExprDelta::from_messages(vec!["current".to_string()]);
    current.store("overridden".to_string(), "current".to_string());
    current.remove("kept".to_string());
    let base = base.followed_by(current);

    assert_eq!(base.history, vec!["base".to_string(), "current".to_string()]);
    assert!(matches!(base.lookup("kept"), DeltaLookup::Removed));
    assert!(matches!(base.lookup("overridden"), DeltaLookup::Stored(value) if value == "current"));
    assert!(matches!(base.lookup("absent"), DeltaLookup::Missing));
}

#[test]
fn rollback_returns_to_the_frame_a_step_was_taken_from() {
    let base = root().store("x".to_string(), 1);
    let next = base.create_next_step(Step::RequestProvider, PhiExprDelta::from_messages(vec!["reply".to_string()]));
    assert_eq!(next.lookup("x"), Some(&1));
    assert_eq!(next.history(&is_barrier), vec!["reply".to_string()]);
    let back = next.rollback();
    assert!(back.expr().is_none());
    assert!(back.delta().history.is_empty());
    assert_eq!(back.lookup("x"), Some(&1));
}

#[test]
fn history_stops_at_a_compaction() {
    let base: Expr = PhiStepExpr::new(Step::RequestProvider, PhiExprDelta::from_messages(vec!["old".to_string()]));
    let compacted = base.create_next_step(Step::Compacted, PhiExprDelta::from_messages(vec!["summary".to_string()]));
    let next = compacted.create_next_step(Step::RequestProvider, PhiExprDelta::from_messages(vec!["new".to_string()]));
    assert_eq!(next.history(&is_barrier), vec!["summary".to_string(), "new".to_string()]);
    assert_eq!(next.into_history(&is_barrier), vec!["summary".to_string(), "new".to_string()]);
}

#[test]
fn replacing_a_step_keeps_its_parent_and_composes_its_delta() {
    let base: Expr = PhiStepExpr::new(Step::RequestProvider, PhiExprDelta::from_messages(vec!["a".to_string()]));
    let child = base.create_next_step(Step::RequestProvider, PhiExprDelta::from_messages(vec!["b".to_string()]));
    let replaced = child.replace_base_step(Step::Compacted, PhiExprDelta::from_messages(vec!["c".to_string()]));
    assert_eq!(replaced.step(), &Step::Compacted);
    assert_eq!(replaced.delta().history, vec!["b".to_string(), "c".to_string()]);
    assert!(replaced.expr().is_some());
    let found = replaced.find_ancestor(&|step: &Step| *step == Step::RequestProvider);
    assert!(found.is_some());
    assert!(replaced.find_ancestor(&|step: &Step| *step == Step::Compacted).is_none());
}
