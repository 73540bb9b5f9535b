use bevy_htn::prelude::{
    float_literals, parse_htn, FloatReading, Field, HtnPlanner, HtnState, Plan, PlannedTaskId, RegisteredType, TaskStatus,
    TypeRegistryModel, Value, VariantInfo, HTN,
};

const TRAVEL: &str = r#"
    schema {
        version: 0.1.0
    }

    compound_task "TravelToPark" {
        method {
            subtasks: [ Walk ]
        }
        method {
            subtasks: [ Taxi ]
        }
    }
            
    primitive_task "Walk" {
        operator: WalkOperator
        preconditions: [distance_to_park <= 4, my_location != Location::Park, happy == false]
        effects: [
            my_location = Location::Park,
            happy = true,
        ]
    }

    compound_task "Taxi" {
        method {
            subtasks: [CallTaxi, RideTaxi, PayTaxi]
        }
    }

    primitive_task "CallTaxi" {
        operator: TaxiOperator
        preconditions: [cash >= 1]
        effects: [taxi_location = my_location]
    }

    primitive_task "RideTaxi" {
        operator: RideTaxiOperator(distance_to_park)
        preconditions: [taxi_location == my_location, cash >= 1]
        effects: [taxi_location = Location::Park, my_location = Location::Park, happy = true]
    }

    primitive_task "PayTaxi" {
        operator: PayTaxiOperator
        preconditions: [taxi_location == Location::Park, cash >= 1]
        effects: [cash -= 1]
    }
    "#;

fn location(variant: &str) -> Value {
    Value::Enum {
        type_path: "travel::Location".to_string(),
        type_ident: "Location".to_string(),
        variants: ["Home", "Other", "Park"]
            .iter()
            .map(|n| VariantInfo { name: n.to_string(), unit: true })
            .collect(),
        variant: variant.to_string(),
        payload: 0,
    }
}

fn travel_state(cash: i32, distance: i32, me: &str, taxi: &str, happy: bool) -> HtnState {
    HtnState {
        record_type: "TravelState".to_string(),
        fields: vec![
            Field { name: "cash".to_string(), value: Value::from_i32(cash) },
            Field { name: "distance_to_park".to_string(), value: Value::from_i32(distance) },
            Field { name: "happy".to_string(), value: Value::Bool(happy) },
            Field { name: "my_location".to_string(), value: location(me) },
            Field { name: "taxi_location".to_string(), value: location(taxi) },
        ],
    }
}

fn travel_registry() -> TypeRegistryModel {
    let mut types = Vec::new();
    for (name, is_enum, is_operator) in [
        ("TravelState", false, false),
        ("Location", true, false),
        ("WalkOperator", false, true),
        ("TaxiOperator", false, true),
        ("RideTaxiOperator", false, true),
        ("PayTaxiOperator", false, true),
    ] {
        for full in [name.to_string(), format!("travel::{name}")] {
            types.push(RegisteredType { name: full, is_enum, has_default: true, is_operator });
        }
    }
    TypeRegistryModel { types }
}

fn travel_htn() -> HTN {
    parse_htn(TRAVEL, &Vec::new()).unwrap()
}

#[test]
fn test_travel_htn() {
    let atr = travel_registry();
    let htn = travel_htn();

    match htn.verify_all(&travel_state(0, 0, "Home", "Home", false), &atr) {
        Ok(_) => {}
        Err(e) => panic!("HTN type verification failed: {e:?}"),
    }

    let mut planner = HtnPlanner::new(&htn, &atr);

    {
        let initial_state = travel_state(10, 1, "Home", "Other", false);
        let plan = planner.plan(&initial_state);
        assert_eq!(plan.task_names(), vec!["Walk"]);
    }

    {
        let initial_state = travel_state(10, 5, "Home", "Other", false);
        let plan = planner.plan(&initial_state);
        assert_eq!(plan.task_names(), vec!["CallTaxi", "RideTaxi", "PayTaxi"]);
    }
}

#[test]
fn travel_plans_record_methods() {
    let atr = travel_registry();
    let htn = travel_htn();
    let mut planner = HtnPlanner::new(&htn, &atr);
    let walk = planner.plan(&travel_state(10, 1, "Home", "Other", false));
    assert_eq!(walk.mtr(), &[0]);
    let taxi = planner.plan(&travel_state(10, 5, "Home", "Other", false));
    assert_eq!(taxi.mtr(), &[0, 1, 0]);
    assert_eq!(taxi.status(), None);
    assert!(taxi.tasks.iter().all(|t| t.status == TaskStatus::NotStarted));
    for (i, t) in taxi.tasks.iter().enumerate() {
        assert_eq!(t.id.plan_id(), taxi.id());
        assert_eq!(t.id.index(), i);
        assert_eq!(t.id.name(), t.name);
    }
}

#[test]
fn no_cash_and_far_away_faults() {
    let atr = travel_registry();
    let htn = travel_htn();
    let mut planner = HtnPlanner::new(&htn, &atr);
    assert!(planner.try_plan(&travel_state(0, 5, "Home", "Other", false)).is_none());
}

#[test]
fn missing_root_subtask_gives_empty_plan() {
    let src = r#"
    compound_task "Root" {
        method {
            subtasks: [Nowhere]
        }
    }
    "#;
    let htn = parse_htn(src, &Vec::new()).unwrap();
    let atr = travel_registry();
    let mut planner = HtnPlanner::new(&htn, &atr);
    let plan = planner.try_plan(&travel_state(1, 1, "Home", "Home", false)).unwrap();
    assert!(plan.task_names().is_empty());
    assert_eq!(plan.mtr(), &[0]);
}

#[test]
fn empty_network_cannot_plan() {
    let htn = parse_htn("schema { version: 1.2.3 }", &Vec::new()).unwrap();
    assert_eq!(htn.version(), "1.2.3");
    let atr = travel_registry();
    let mut planner = HtnPlanner::new(&htn, &atr);
    assert!(planner.try_plan(&travel_state(1, 1, "Home", "Home", false)).is_none());
}

fn names(v: &[&str]) -> Vec<String> {
    v.iter().map(|s| s.to_string()).collect()
}

#[test]
fn plan_runs_tasks_in_order_and_succeeds() {
    let mut plan = Plan::with_id(7, names(&["A", "B"]), vec![1]);
    assert_eq!(plan.id(), 7);
    assert_eq!(plan.status(), None);
    let a = plan.execute_next_task().unwrap();
    assert_eq!((a.plan_id(), a.index(), a.name()), (7, 0, "A"));
    assert_eq!(plan.tasks[0].status, TaskStatus::Running);
    plan.report_task_completion(&a, true);
    assert_eq!(plan.tasks[0].status, TaskStatus::Success);
    assert_eq!(plan.status(), None);
    let b = plan.execute_next_task().unwrap();
    assert_eq!(b.index(), 1);
    plan.report_task_completion(&b, true);
    assert_eq!(plan.status(), Some(true));
    assert!(plan.execute_next_task().is_none());
}

#[test]
fn failed_task_fails_plan_and_freezes_it() {
    let mut plan = Plan::with_id(3, names(&["A", "B"]), vec![]);
    let a = plan.execute_next_task().unwrap();
    plan.report_task_completion(&a, false);
    assert_eq!(plan.tasks[0].status, TaskStatus::Failure);
    assert_eq!(plan.status(), Some(false));
    assert!(plan.execute_next_task().is_none());
    plan.report_task_completion(&a, true);
    assert_eq!(plan.tasks[0].status, TaskStatus::Failure);
    assert_eq!(plan.status(), Some(false));
}

#[test]
fn unknown_task_id_changes_nothing_but_completion() {
    let mut plan = Plan::with_id(3, names(&["A"]), vec![]);
    let stranger = PlannedTaskId::new(4, 0, "A".to_string());
    plan.report_task_completion(&stranger, true);
    assert_eq!(plan.tasks[0].status, TaskStatus::NotStarted);
    assert_eq!(plan.status(), None);
}

#[test]
fn abort_fails_plan() {
    let mut plan = Plan::with_id(1, names(&["A"]), vec![]);
    plan.abort();
    assert_eq!(plan.status(), Some(false));
    assert!(plan.execute_next_task().is_none());
}

#[test]
fn empty_plan_completes_on_any_report() {
    let mut plan = Plan::with_id(1, vec![], vec![]);
    plan.report_task_completion(&PlannedTaskId::new(1, 0, "A".to_string()), true);
    assert_eq!(plan.status(), Some(true));
}

#[test]
fn plans_rank_by_method_record() {
    let low = Plan::with_id(1, names(&["A"]), vec![0, 1]);
    let high = Plan::with_id(2, names(&["B"]), vec![0, 2]);
    let short = Plan::with_id(3, names(&["C"]), vec![0]);
    assert!(low > high);
    assert!(short > low);
    assert_eq!(low.cmp(&high), std::cmp::Ordering::Greater);
    assert_eq!(high.cmp(&low), std::cmp::Ordering::Less);
    assert_eq!(low.cmp(&low), std::cmp::Ordering::Equal);
}

#[test]
fn plans_are_equal_by_task_names() {
    let a = Plan::with_id(1, names(&["A", "B"]), vec![0]);
    let b = Plan::with_id(2, names(&["A", "B"]), vec![1]);
    let c = Plan::with_id(1, names(&["A"]), vec![0]);
    assert!(a == b);
    assert!(a != c);
}

#[test]
fn new_plans_draw_ids() {
    let p = Plan::new(names(&["A"]), vec![]);
    assert_eq!(p.tasks[0].id.plan_id(), p.id());
}

const RUNNER: &str = r#"
    compound_task "Move" {
        method {
            preconditions: [speed >= 2.5]
            subtasks: [Run]
        }
        method {
            subtasks: [Walk]
        }
    }

    primitive_task "Run" {
        operator: RunOperator
        preconditions: [speed != 0.5]
        effects: [speed = 1.0]
    }

    primitive_task "Walk" {
        operator: WalkOperator
        preconditions: [speed == 1.0]
        effects: [speed = 0.5]
    }
    "#;

fn runner(speed: f32) -> HtnState {
    HtnState {
        record_type: "Runner".to_string(),
        fields: vec![Field { name: "speed".to_string(), value: Value::Float { double: false, bits: speed.to_bits() as u64 } }],
    }
}

fn read_floats(src: &str) -> Vec<FloatReading> {
    float_literals(src)
        .into_iter()
        .map(|t| {
            let bits = t.parse::<f32>().unwrap().to_bits();
            FloatReading { literal: t, bits }
        })
        .collect()
}

#[test]
fn float_conditions_and_effects_plan() {
    let htn = parse_htn(RUNNER, &read_floats(RUNNER)).unwrap();
    let atr = travel_registry();
    let mut planner = HtnPlanner::new(&htn, &atr);
    let plan = planner.try_plan(&runner(3.0)).unwrap();
    assert_eq!(plan.task_names(), vec!["Run"]);
    assert_eq!(plan.mtr(), &[0]);
    let plan = planner.try_plan(&runner(1.0)).unwrap();
    assert_eq!(plan.task_names(), vec!["Walk"]);
    assert_eq!(plan.mtr(), &[1]);
    let s = runner(3.0);
    let before = s.clone();
    let _ = planner.plan(&s);
    assert_eq!(s, before);
}

#[test]
fn repeated_and_fresh_planners_agree() {
    let htn = travel_htn();
    let atr = travel_registry();
    let far = travel_state(10, 5, "Home", "Other", false);
    let near = travel_state(10, 1, "Home", "Other", false);
    let mut planner = HtnPlanner::new(&htn, &atr);
    let first = planner.plan(&far);
    let _ = planner.plan(&near);
    let again = planner.plan(&far);
    let fresh = HtnPlanner::new(&htn, &atr).plan(&far);
    assert_eq!(first.task_names(), vec!["CallTaxi", "RideTaxi", "PayTaxi"]);
    assert_eq!(first.task_names(), again.task_names());
    assert_eq!(first.task_names(), fresh.task_names());
    assert_eq!(first.mtr(), again.mtr());
    assert_eq!(first.mtr(), fresh.mtr());
}
