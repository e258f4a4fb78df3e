use bc_trade_runtime::stage::{
    execute_plan, init_bf_plan, init_empty_plan, plan, stages, stages_execute, stages_step,
    step_plan, str_eq, window_total, Stage,
};

#[test]
fn step_plan_stops_after_indications() {
    assert_eq!(step_plan("indications"), vec![Stage::Indications]);
}

#[test]
fn step_plan_stops_after_signals() {
    assert_eq!(
        step_plan("signals"),
        vec![Stage::Indications, Stage::SignalsTrain, Stage::Signals]
    );
}

#[test]
fn empty_stage_end_runs_every_stage() {
    assert_eq!(step_plan(""), stages_step());
    assert_eq!(init_empty_plan(""), stages());
    assert_eq!(init_bf_plan(""), stages()[..3].to_vec());
    assert_eq!(execute_plan(""), stages_execute());
}

#[test]
fn unknown_stage_end_runs_every_stage() {
    assert_eq!(step_plan("no_such_stage").len(), 6);
}

#[test]
fn init_bf_plan_never_passes_its_three_stages() {
    assert_eq!(init_bf_plan("orders_collectors").len(), 3);
    assert_eq!(init_bf_plan("signals_train"), vec![Stage::Indications, Stage::SignalsTrain]);
}

#[test]
fn init_empty_plan_stops_after_utils_state() {
    assert_eq!(
        init_empty_plan("utils_state"),
        vec![Stage::Indications, Stage::SignalsTrain, Stage::Signals, Stage::UtilsState]
    );
}

#[test]
fn execute_plan_runs_the_collectors() {
    assert_eq!(execute_plan("orders_collectors"), vec![Stage::OrdersCollectors]);
}

#[test]
fn plan_with_no_functions_is_empty() {
    assert_eq!(plan(&stages(), 0, ""), Vec::<Stage>::new());
}

#[test]
fn plan_stops_at_first_of_repeated_name() {
    let s = [Stage::Signals, Stage::Indications, Stage::Signals];
    assert_eq!(plan(&s, 3, "signals"), vec![Stage::Signals]);
    assert_eq!(plan(&s, 3, "indications"), vec![Stage::Signals, Stage::Indications]);
}

#[test]
fn stage_names() {
    assert_eq!(Stage::OrderCreators.name(), "order_creators");
    assert_eq!(Stage::OrdersCollectors.name(), "orders_collectors");
}

#[test]
fn string_equality() {
    assert!(str_eq("signals", "signals"));
    assert!(!str_eq("signals", "signal"));
    assert!(!str_eq("signals", "signalz"));
    assert!(str_eq("", ""));
    assert!(str_eq("héllo", "héllo"));
}

#[test]
fn window_total_sums() {
    assert_eq!(window_total(20, 5, 3), 28);
}
