use liquid_handler::config::Config;
use liquid_handler::message::message_from_data;
use liquid_handler::orchestrator::microliter_to_pumpunit;
use liquid_handler::orchestrator::occupancy_after;
use liquid_handler::orchestrator::plan_batch;
use liquid_handler::orchestrator::plan_message;
use liquid_handler::orchestrator::plan_token;
use liquid_handler::step::PlanError;
use liquid_handler::step::Step;

fn test_config(cleaning: bool) -> Config {
    Config {
        application_port_path: "/tmp/app1".to_string(),
        pump_port_path: "/tmp/pump1".to_string(),
        router_port_path: "/tmp/router1".to_string(),
        constant_cleaning: cleaning,
        tube_holder_coordinates: vec![
            ("7".to_string(), "10:20:-5".to_string()),
            ("8".to_string(), "30:40:-6".to_string()),
            ("5".to_string(), "1:2".to_string()),
        ],
    }
}

fn router(text: &str) -> Step {
    Step::RouterCommand { text: text.to_string() }
}

fn pump(text: &str) -> Step {
    Step::PumpCommand { text: text.to_string() }
}

#[test]
fn normal_liquid_application_with_cleaning() {
    let cfg = test_config(true);
    let (steps, outcome) = plan_token(&cfg, 0, "LA_7_x_100");
    let expected = vec![
        Step::AwaitPump,
        Step::FlushRouter,
        Step::FlushPump,
        router("G1X10Y20Z-5\r\n"),
        pump("/1I1A2400O2A0R\r\n"),
        router("G1X10Y20Z0\r\n"),
        pump("/1gI1A12000O2A0G12R\r\n"),
        Step::SetOccupancy { microliters: 100 },
        router("G1X227Y152Z-20\r\n"),
        pump("/1gI4A12000O1A0G2R\r\n"),
        pump("/1gI5A12000O1A0G4R\r\n"),
    ];
    assert_eq!(steps, expected);
    assert_eq!(outcome, Ok(100));
}

#[test]
fn cleaning_off_suppresses_exactly_the_three_cleaning_steps() {
    let on = plan_token(&test_config(true), 0, "LA_7_x_100");
    let off = plan_token(&test_config(false), 0, "LA_7_x_100");
    assert_eq!(off.1, on.1);
    assert_eq!(off.0.len() + 3, on.0.len());
    assert_eq!(on.0[..off.0.len()], off.0[..]);
    assert_eq!(
        on.0[off.0.len()..],
        vec![
            router("G1X227Y152Z-20\r\n"),
            pump("/1gI4A12000O1A0G2R\r\n"),
            pump("/1gI5A12000O1A0G4R\r\n"),
        ][..]
    );
}

#[test]
fn occupied_slot_is_evacuated_before_any_router_motion() {
    let cfg = test_config(false);
    let (steps, outcome) = plan_token(&cfg, 60, "LA_7_x_100");
    let evacuation = pump("/2gI1A12000O2A0G4R\r\n");
    let evac_at = steps.iter().position(|s| *s == evacuation).expect("evacuation must be planned");
    let first_router = steps
        .iter()
        .position(|s| matches!(s, Step::RouterCommand { .. }))
        .expect("a router move must be planned");
    assert!(evac_at < first_router);
    assert_eq!(steps[evac_at + 1], Step::SetOccupancy { microliters: 0 });
    assert_eq!(outcome, Ok(100));
}

#[test]
fn sequential_applications_evacuate_once_between_them() {
    let cfg = test_config(false);
    let plan = plan_batch(&cfg, 0, "LA_7_x_100 LA_8_x_50");
    assert_eq!(plan.outcome, Ok(50));
    let evacuation = pump("/2gI1A12000O2A0G4R\r\n");
    let count = plan.steps.iter().filter(|s| **s == evacuation).count();
    assert_eq!(count, 1);
    let evac_at = plan.steps.iter().position(|s| *s == evacuation).unwrap();
    let second_move = plan
        .steps
        .iter()
        .position(|s| *s == router("G1X30Y40Z-6\r\n"))
        .expect("the second slot's move must be planned");
    assert!(evac_at < second_move);
}

#[test]
fn external_source_skips_the_router() {
    let cfg = test_config(true);
    let (steps, outcome) = plan_token(&cfg, 0, "LA_34_x_100");
    let expected = vec![
        Step::AwaitPump,
        Step::FlushRouter,
        Step::FlushPump,
        pump("/1I4A2400O1A0R\r\n"),
        pump("/1gI4A12000O1A0G2R\r\n"),
    ];
    assert_eq!(steps, expected);
    assert_eq!(outcome, Ok(0));
    assert!(steps.iter().all(|s| !matches!(s, Step::RouterCommand { .. })));
}

#[test]
fn external_source_channels() {
    let cfg = test_config(false);
    let (s35, _) = plan_token(&cfg, 0, "LA_35_x_1");
    assert!(s35.contains(&pump("/1I7A24O1A0R\r\n")));
    let (s36, _) = plan_token(&cfg, 0, "LA_36_x_1");
    assert!(s36.contains(&pump("/1I6A24O1A0R\r\n")));
}

#[test]
fn unknown_external_slot_aborts() {
    let cfg = test_config(false);
    let (_, outcome) = plan_token(&cfg, 0, "LA_40_x_10");
    assert_eq!(outcome, Err(PlanError::UnknownExternalSlot));
}

#[test]
fn unknown_slot_aborts_before_any_device_write() {
    let cfg = test_config(false);
    let (steps, outcome) = plan_token(&cfg, 0, "LA_9_x_10");
    assert_eq!(outcome, Err(PlanError::UnknownSlot));
    assert_eq!(steps, vec![Step::AwaitPump, Step::FlushRouter, Step::FlushPump]);
}

#[test]
fn malformed_coordinates_abort() {
    let cfg = test_config(false);
    let (_, outcome) = plan_token(&cfg, 0, "LA_5_x_10");
    assert_eq!(outcome, Err(PlanError::BadCoordinates));
}

#[test]
fn oversized_volume_warns_but_still_runs() {
    let cfg = test_config(false);
    let (steps, outcome) = plan_token(&cfg, 0, "LA_7_x_501");
    assert_eq!(steps[1], Step::WarnPumpUnits);
    assert!(steps.contains(&pump("/1I1A12024O2A0R\r\n")));
    assert_eq!(outcome, Ok(501));
}

#[test]
fn grammar_errors_abort_with_the_right_reason() {
    let cfg = test_config(false);
    assert_eq!(plan_token(&cfg, 0, "LA").1, Err(PlanError::MissingSlot));
    assert_eq!(plan_token(&cfg, 0, "LA_7").1, Err(PlanError::MissingVolume));
    assert_eq!(plan_token(&cfg, 0, "LA_x_y_5").1, Err(PlanError::BadSlotNumber));
    assert_eq!(plan_token(&cfg, 0, "LA_7_x_abc").1, Err(PlanError::BadVolume));
    assert_eq!(
        plan_token(&cfg, 0, "LA_7_x_768614336404564651").1,
        Err(PlanError::BadVolume)
    );
    assert_eq!(plan_token(&cfg, 0, "W").1, Err(PlanError::MissingDuration));
    assert_eq!(plan_token(&cfg, 0, "W_abc").1, Err(PlanError::BadDuration));
    assert_eq!(plan_token(&cfg, 0, "XX_1").1, Err(PlanError::UnknownCommand));
    assert_eq!(plan_token(&cfg, 0, "").1, Err(PlanError::UnknownCommand));
}

#[test]
fn wait_token_plans_one_sleep() {
    let cfg = test_config(true);
    let (steps, outcome) = plan_token(&cfg, 42, "W_150");
    assert_eq!(steps, vec![Step::AwaitPump, Step::WaitMs { milliseconds: 150 }]);
    assert_eq!(outcome, Ok(42));
}

#[test]
fn temperature_placeholders_are_accepted_and_do_nothing() {
    let cfg = test_config(true);
    let (steps, outcome) = plan_token(&cfg, 7, "TC_1_2");
    assert_eq!(steps, vec![Step::AwaitPump, Step::WarnUnimplemented]);
    assert_eq!(outcome, Ok(7));
    let (steps, outcome) = plan_token(&cfg, 7, "BTC_1");
    assert_eq!(steps, vec![Step::AwaitPump, Step::WarnUnimplemented]);
    assert_eq!(outcome, Ok(7));
}

#[test]
fn wrong_channel_plans_nothing() {
    let cfg = test_config(true);
    let msg = message_from_data(3, "W_999999999".to_string());
    let plan = plan_message(&cfg, 5, &msg);
    assert!(plan.steps.is_empty());
    assert_eq!(plan.outcome, Ok(5));
}

#[test]
fn channel_four_is_planned() {
    let cfg = test_config(true);
    let msg = message_from_data(4, "W_150".to_string());
    let plan = plan_message(&cfg, 0, &msg);
    assert_eq!(plan.steps, vec![Step::AwaitPump, Step::WaitMs { milliseconds: 150 }]);
    assert_eq!(plan.outcome, Ok(0));
}

#[test]
fn batch_aborts_at_the_failing_token() {
    let cfg = test_config(false);
    let plan = plan_batch(&cfg, 0, "W_10 XX_1 W_20");
    let err = plan.outcome.expect_err("the unknown token must abort the batch");
    assert_eq!(err.token_index, 1);
    assert_eq!(err.error, PlanError::UnknownCommand);
    assert_eq!(
        plan.steps,
        vec![Step::AwaitPump, Step::WaitMs { milliseconds: 10 }, Step::AwaitPump]
    );
}

#[test]
fn occupancy_follows_the_executed_prefix() {
    let cfg = test_config(false);
    let (steps, _) = plan_token(&cfg, 60, "LA_7_x_100");
    let full = occupancy_after(60, &steps, steps.len());
    assert_eq!(full, 100);
    let evacuation = pump("/2gI1A12000O2A0G4R\r\n");
    let evac_at = steps.iter().position(|s| *s == evacuation).unwrap();
    assert_eq!(occupancy_after(60, &steps, evac_at), 60);
    assert_eq!(occupancy_after(60, &steps, evac_at + 2), 0);
}

#[test]
fn pump_unit_conversion() {
    assert_eq!(microliter_to_pumpunit(0), 0);
    assert_eq!(microliter_to_pumpunit(100), 2400);
    assert_eq!(microliter_to_pumpunit(500), 12000);
}
