use bevy_htn::conditions::HtnCondition;
use bevy_htn::dsl::{float_literals, parse_bool, parse_enum, parse_htn, parse_i32, FloatReading};
use bevy_htn::tasks::{apply_effects_from, run_effects, EffectsRun};
use bevy_htn::effects::FloatSum;
use bevy_htn::planner::{HtnPlanner, PlanOutcome};
use bevy_htn::effects::Effect;
use bevy_htn::error::HtnErr;
use bevy_htn::executor::{complete_task, keep_existing_plan, next_task, HtnTaskEvent, NextTask, TaskCompletion};
use bevy_htn::model::{Field, HtnState, RegisteredType, TypeRegistryModel, Value, VariantInfo};
use bevy_htn::plan::{Plan, PlannedTaskId, TaskStatus};
use bevy_htn::tasks::{
    CompoundTaskBuilder, MethodBuilder, Operator, PrimitiveTaskBuilder, Task, HTN,
};

fn mood(variant: &str) -> Value {
    Value::Enum {
        type_path: "game::Mood".to_string(),
        type_ident: "Mood".to_string(),
        variants: ["Calm", "Angry"]
            .iter()
            .map(|n| VariantInfo { name: n.to_string(), unit: true })
            .collect(),
        variant: variant.to_string(),
        payload: 0,
    }
}

fn maybe(some: bool) -> Value {
    Value::Enum {
        type_path: "core::option::Option<i32>".to_string(),
        type_ident: "Option".to_string(),
        variants: vec![
            VariantInfo { name: "None".to_string(), unit: true },
            VariantInfo { name: "Some".to_string(), unit: false },
        ],
        variant: if some { "Some" } else { "None" }.to_string(),
        payload: if some { 9 } else { 0 },
    }
}

fn world(hp: i32, awake: bool, m: &str) -> HtnState {
    HtnState {
        record_type: "game::World".to_string(),
        fields: vec![
            Field { name: "hp".to_string(), value: Value::from_i32(hp) },
            Field { name: "max_hp".to_string(), value: Value::from_i32(100) },
            Field { name: "awake".to_string(), value: Value::Bool(awake) },
            Field { name: "mood".to_string(), value: mood(m) },
            Field { name: "target".to_string(), value: maybe(true) },
        ],
    }
}

fn types() -> TypeRegistryModel {
    let entry = |name: &str, is_enum: bool, is_operator: bool| RegisteredType {
        name: name.to_string(),
        is_enum,
        has_default: true,
        is_operator,
    };
    TypeRegistryModel {
        types: vec![
            entry("World", false, false),
            entry("Mood", true, false),
            entry("Rest", false, true),
            entry("game::World", false, false),
            entry("game::Mood", true, false),
        ],
    }
}

fn value<'a>(s: &'a HtnState, name: &str) -> &'a Value {
    &s.fields.iter().find(|f| f.name == name).unwrap().value
}

fn eq_bool(field: &str, value: bool, notted: bool) -> HtnCondition {
    HtnCondition::EqualsBool { field: field.to_string(), value, notted, syntax: String::new() }
}

#[test]
fn effect_touches_only_its_field() {
    let atr = types();
    let mut s = world(50, false, "Calm");
    let before = s.clone();
    Effect::SetBool { field: "awake".to_string(), value: true, syntax: String::new() }.apply(&mut s, &atr);
    for (a, b) in s.fields.iter().zip(before.fields.iter()) {
        assert_eq!(a.name, b.name);
        if a.name != "awake" {
            assert_eq!(a.value, b.value);
        }
    }
}

#[test]
fn write_then_read_back() {
    let atr = types();
    let mut s = world(50, false, "Calm");
    Effect::SetBool { field: "awake".to_string(), value: true, syntax: String::new() }.apply(&mut s, &atr);
    assert!(eq_bool("awake", true, false).evaluate(&s, &atr));

    Effect::SetInt { field: "hp".to_string(), value: -3, syntax: String::new() }.apply(&mut s, &atr);
    let cond = HtnCondition::EqualsInt { field: "hp".to_string(), value: -3, notted: false, syntax: String::new() };
    assert!(cond.evaluate(&s, &atr));

    Effect::SetEnum {
        field: "mood".to_string(),
        enum_type: "Mood".to_string(),
        enum_variant: "Angry".to_string(),
        syntax: String::new(),
    }
    .apply(&mut s, &atr);
    let cond = HtnCondition::EqualsEnum {
        field: "mood".to_string(),
        enum_type: "Mood".to_string(),
        enum_variant: "Angry".to_string(),
        notted: false,
        syntax: String::new(),
    };
    assert!(cond.evaluate(&s, &atr));

    Effect::SetNone { field: "target".to_string(), syntax: String::new() }.apply(&mut s, &atr);
    assert!(HtnCondition::IsNone { field: "target".to_string(), syntax: String::new() }.evaluate(&s, &atr));
    assert!(!HtnCondition::IsSome { field: "target".to_string(), syntax: String::new() }.evaluate(&s, &atr));

    Effect::SetIdentifier { field: "hp".to_string(), field_source: "max_hp".to_string(), syntax: String::new() }
        .apply(&mut s, &atr);
    let cond = HtnCondition::EqualsIdentifier {
        field: "hp".to_string(),
        other_field: "max_hp".to_string(),
        notted: false,
        syntax: String::new(),
    };
    assert!(cond.evaluate(&s, &atr));
    assert_eq!(value(&s, "hp"), &Value::from_i32(100));
}

#[test]
fn increment_then_decrement_restores() {
    let atr = types();
    for start in [0, 41, i32::MAX, i32::MIN] {
        let mut s = world(start, true, "Calm");
        let before = s.clone();
        Effect::IncrementInt { field: "hp".to_string(), by: 7, syntax: String::new() }.apply(&mut s, &atr);
        Effect::IncrementInt { field: "hp".to_string(), by: -7, syntax: String::new() }.apply(&mut s, &atr);
        assert_eq!(s, before);
    }
    let mut s = world(i32::MAX, true, "Calm");
    Effect::IncrementInt { field: "hp".to_string(), by: 1, syntax: String::new() }.apply(&mut s, &atr);
    assert_eq!(value(&s, "hp"), &Value::from_i32(i32::MIN));
}

#[test]
fn not_equal_is_negation() {
    let atr = types();
    let s = world(10, true, "Calm");
    for b in [true, false] {
        assert_eq!(eq_bool("awake", b, true).evaluate(&s, &atr), !eq_bool("awake", b, false).evaluate(&s, &atr));
    }
    for t in [9, 10, 11] {
        let gt = HtnCondition::GreaterThanInt { field: "hp".to_string(), threshold: t, orequals: false, syntax: String::new() };
        let le = HtnCondition::LessThanInt { field: "hp".to_string(), threshold: t, orequals: true, syntax: String::new() };
        assert_eq!(gt.evaluate(&s, &atr), !le.evaluate(&s, &atr));
    }
}

#[test]
fn missing_or_mistyped_fields_test_false() {
    let atr = types();
    let s = world(10, true, "Calm");
    assert!(!eq_bool("nothing", true, false).evaluate(&s, &atr));
    assert!(!eq_bool("hp", true, false).evaluate(&s, &atr));
    assert!(!eq_bool("hp", true, true).evaluate(&s, &atr));
}

#[test]
fn checked_conditions_and_effects_run() {
    let atr = types();
    let s = world(10, true, "Calm");
    let cond = HtnCondition::EqualsEnum {
        field: "mood".to_string(),
        enum_type: "Mood".to_string(),
        enum_variant: "Calm".to_string(),
        notted: false,
        syntax: "mood == Mood::Calm".to_string(),
    };
    assert!(cond.verify_types(&s, &atr).is_ok());
    assert!(cond.can_evaluate(&s, &atr));
    let effect = Effect::SetEnum {
        field: "mood".to_string(),
        enum_type: "Mood".to_string(),
        enum_variant: "Angry".to_string(),
        syntax: "mood = Mood::Angry".to_string(),
    };
    assert!(effect.verify_types(&s, &atr, false).is_ok());
    assert!(effect.can_apply(&s, &atr));
    let missing = HtnCondition::EqualsBool {
        field: "asleep".to_string(),
        value: true,
        notted: false,
        syntax: "asleep == true".to_string(),
    };
    assert_eq!(
        missing.verify_types(&s, &atr),
        Err("Unknown state field `asleep` for condition `asleep == true`".to_string())
    );
    let bad_variant = Effect::SetEnum {
        field: "mood".to_string(),
        enum_type: "Mood".to_string(),
        enum_variant: "Sad".to_string(),
        syntax: "mood = Mood::Sad".to_string(),
    };
    assert_eq!(
        bad_variant.verify_types(&s, &atr, true),
        Err("expected_effect enum variant 'Sad' not found, field name: 'mood'".to_string())
    );
}

#[test]
fn integers_read_back_from_decimal() {
    for x in [0, 7, -7, 1234567, i32::MAX, i32::MIN] {
        assert_eq!(parse_i32(&x.to_string(), "ctx").unwrap(), x);
    }
    assert_eq!(parse_i32("+12", "ctx").unwrap(), 12);
    let err = parse_i32("2147483648", "x = 2147483648").unwrap_err();
    assert_eq!(
        err,
        HtnErr::Int {
            syntax: "2147483648".to_string(),
            details: "Invalid integer `2147483648` in: `x = 2147483648`".to_string(),
        }
    );
    assert!(parse_i32("", "c").is_err());
    assert!(parse_i32("1a", "c").is_err());
}

#[test]
fn booleans_and_enum_paths_read() {
    assert_eq!(parse_bool("true", "c"), Ok(true));
    assert_eq!(parse_bool("false", "c"), Ok(false));
    assert_eq!(
        parse_bool("yes", "tog = yes"),
        Err(HtnErr::Bool {
            syntax: "yes".to_string(),
            details: "Invalid boolean `yes` in: `tog = yes`".to_string(),
        })
    );
    assert_eq!(parse_enum("Location::Home", "c"), Ok(("Location".to_string(), "Home".to_string())));
    assert!(parse_enum("A::B::C", "c").is_err());
    assert!(parse_enum("::B", "c").is_err());
    assert!(parse_enum("A::", "c").is_err());
    assert_eq!(
        parse_enum("Home", "c"),
        Err(HtnErr::Enum { syntax: "Home".to_string(), details: "Invalid enum `Home` in: `c`".to_string() })
    );
}

#[test]
fn syntax_errors_are_reported() {
    let err = parse_htn("primitive_task \"A\" { preconditions: [] }", &Vec::new()).unwrap_err();
    assert_eq!(
        err,
        HtnErr::ParserError { details: "the input does not follow the task network grammar".to_string() }
    );
    assert_eq!(
        err.to_string(),
        "HTN parsing error: the input does not follow the task network grammar"
    );
    let err = parse_htn(
        "primitive_task \"A\" { operator: Op preconditions: [hp == 99999999999] }",
        &Vec::new(),
    )
    .unwrap_err();
    assert!(matches!(err, HtnErr::Int { .. }));
    assert_eq!(
        err.to_string(),
        "Invalid integer in statement `99999999999`: Invalid integer `99999999999` in: `hp == 99999999999`"
    );
}

#[test]
fn last_schema_gives_version() {
    let htn = parse_htn("schema { version: 0.1.0 } schema { version: 2.0.1 }", &Vec::new()).unwrap();
    assert_eq!(htn.version(), "2.0.1");
    assert!(htn.tasks.is_empty());
}

#[test]
fn operator_error_lists_params() {
    let err = HtnErr::Operator {
        name: "Walk".to_string(),
        params: vec!["a".to_string(), "b\"c".to_string()],
        details: "oops".to_string(),
    };
    assert_eq!(err.to_string(), "Invalid operator `Walk` ([\"a\", \"b\\\"c\"]): oops");
    let err = HtnErr::Operator { name: "Op".to_string(), params: vec![], details: "d".to_string() };
    assert_eq!(err.to_string(), "Invalid operator `Op` ([]): d");
    let err = HtnErr::Schema { details: "x".to_string() };
    assert_eq!(err.to_string(), "Schema error: x");
}

#[test]
fn plan_describes_itself() {
    let plan = Plan::with_id(1, vec!["CallTaxi".to_string(), "RideTaxi".to_string()], vec![0, 1, 10]);
    assert_eq!(plan.to_string(), "Plan MTR: [0, 1, 10] Tasks: [CallTaxi, RideTaxi]");
    let empty = Plan::with_id(1, vec![], vec![]);
    assert_eq!(empty.to_string(), "Plan MTR: [] Tasks: []");
}

#[test]
fn ranking_is_transitive_and_antisymmetric() {
    let a = Plan::with_id(1, vec![], vec![0]);
    let b = Plan::with_id(1, vec![], vec![0, 3]);
    let c = Plan::with_id(1, vec![], vec![1]);
    assert!(a > b && b > c && a > c);
    assert!(c < b && b < a);
    assert_eq!(a.partial_cmp(&a), Some(std::cmp::Ordering::Equal));
}

fn rest_network() -> HTN {
    let rest = PrimitiveTaskBuilder::new("Rest".to_string())
        .operator(Operator::Trigger { name: "Rest".to_string(), params: vec!["hp".to_string()] })
        .precondition(eq_bool("awake", true, false))
        .effect(Effect::IncrementInt { field: "hp".to_string(), by: 10, syntax: "hp += 10".to_string() })
        .build();
    let sleep = PrimitiveTaskBuilder::new("Sleep".to_string())
        .operator(Operator::Trigger { name: "Rest".to_string(), params: vec![] })
        .precondition(eq_bool("awake", false, false))
        .build();
    let root = CompoundTaskBuilder::new("Recover".to_string())
        .method(MethodBuilder::new().subtask("Rest".to_string()).build())
        .method(MethodBuilder::new().subtask("Sleep".to_string()).build())
        .build();
    HTN::builder().compound_task(root).primitive_task(rest).primitive_task(sleep).build()
}

#[test]
fn completing_tasks_updates_plan_and_state() {
    let atr = types();
    let htn = rest_network();
    let mut plan = Plan::with_id(5, vec!["Rest".to_string(), "Sleep".to_string()], vec![0]);
    let mut s = world(10, true, "Calm");

    let first = match next_task(&mut plan, &htn, &s, &atr) {
        NextTask::Execute(id) => id,
        other => panic!("unexpected {other:?}"),
    };
    assert_eq!(first.name(), "Rest");
    match complete_task(&mut plan, &htn, &mut s, &atr, &first, true) {
        TaskCompletion::Recorded { event: HtnTaskEvent::Success(n), replan: false } => assert_eq!(n, "Rest"),
        other => panic!("unexpected {other:?}"),
    }
    assert_eq!(value(&s, "hp"), &Value::from_i32(20));
    assert_eq!(plan.tasks[0].status, TaskStatus::Success);

    let stranger = PlannedTaskId::new(6, 0, "Rest".to_string());
    assert!(matches!(complete_task(&mut plan, &htn, &mut s, &atr, &stranger, true), TaskCompletion::OtherPlan));
    let unknown = PlannedTaskId::new(5, 1, "Nap".to_string());
    assert!(matches!(complete_task(&mut plan, &htn, &mut s, &atr, &unknown, true), TaskCompletion::UnknownTask));

    match next_task(&mut plan, &htn, &s, &atr) {
        NextTask::Aborted(id) => assert_eq!(id.name(), "Sleep"),
        other => panic!("unexpected {other:?}"),
    }
    assert_eq!(plan.status(), Some(false));
    assert!(matches!(next_task(&mut plan, &htn, &s, &atr), NextTask::NoTask));
}

#[test]
fn failed_task_asks_for_new_plan() {
    let atr = types();
    let htn = rest_network();
    let mut plan = Plan::with_id(5, vec!["Rest".to_string()], vec![0]);
    let mut s = world(10, true, "Calm");
    let id = plan.execute_next_task().unwrap();
    match complete_task(&mut plan, &htn, &mut s, &atr, &id, false) {
        TaskCompletion::Recorded { event: HtnTaskEvent::Failure(n), replan: true } => assert_eq!(n, "Rest"),
        other => panic!("unexpected {other:?}"),
    }
    assert_eq!(value(&s, "hp"), &Value::from_i32(10));
}

#[test]
fn compound_task_cannot_run() {
    let atr = types();
    let htn = rest_network();
    let mut plan = Plan::with_id(5, vec!["Recover".to_string()], vec![]);
    let s = world(10, true, "Calm");
    assert!(matches!(next_task(&mut plan, &htn, &s, &atr), NextTask::NotPrimitive(_)));
}

#[test]
fn running_plans_are_kept_unless_outranked() {
    let running = Plan::with_id(1, vec!["A".to_string()], vec![1]);
    let same_tasks = Plan::with_id(2, vec!["A".to_string()], vec![0]);
    let better = Plan::with_id(3, vec!["B".to_string()], vec![0]);
    let worse = Plan::with_id(4, vec!["C".to_string()], vec![2]);
    assert!(keep_existing_plan(Some(&running), &same_tasks));
    assert!(!keep_existing_plan(Some(&running), &better));
    assert!(keep_existing_plan(Some(&running), &worse));
    assert!(!keep_existing_plan(None, &worse));
    let mut done = Plan::with_id(1, vec!["A".to_string()], vec![1]);
    done.abort();
    assert!(!keep_existing_plan(Some(&done), &worse));
}

#[test]
fn built_network_plans_and_checks() {
    let atr = types();
    let htn = rest_network();
    assert_eq!(htn.root_task().name(), "Recover");
    assert!(matches!(htn.get_task_by_name(&"Sleep".to_string()), Some(Task::Primitive(_))));
    let s = world(10, true, "Calm");
    assert!(htn.verify_all(&s, &atr).is_ok());
    let mut planner = bevy_htn::planner::HtnPlanner::new(&htn, &atr);
    let plan = planner.try_plan(&s).unwrap();
    assert_eq!(plan.task_names(), vec!["Rest"]);
    for name in plan.task_names() {
        assert!(matches!(htn.get_task_by_name(&name), Some(Task::Primitive(_))));
    }
    assert_eq!(plan.mtr(), &[0]);
    let asleep = world(10, false, "Calm");
    let plan = planner.try_plan(&asleep).unwrap();
    assert_eq!(plan.task_names(), vec!["Sleep"]);
    assert_eq!(plan.mtr(), &[0, 1]);
}

fn float_world(speed: f32) -> HtnState {
    HtnState {
        record_type: "game::Runner".to_string(),
        fields: vec![
            Field { name: "speed".to_string(), value: Value::Float { double: false, bits: speed.to_bits() as u64 } },
            Field { name: "hp".to_string(), value: Value::from_i32(5) },
        ],
    }
}

fn speed(s: &HtnState) -> f32 {
    match value(s, "speed") {
        Value::Float { double: false, bits } => f32::from_bits(*bits as u32),
        other => panic!("not an f32: {other:?}"),
    }
}

#[test]
fn writes_are_idempotent() {
    let atr = types();
    let effects = vec![
        Effect::SetInt { field: "hp".to_string(), value: 7, syntax: "hp = 7".to_string() },
        Effect::SetBool { field: "awake".to_string(), value: true, syntax: "awake = true".to_string() },
        Effect::SetEnum {
            field: "mood".to_string(),
            enum_type: "Mood".to_string(),
            enum_variant: "Angry".to_string(),
            syntax: "mood = Mood::Angry".to_string(),
        },
        Effect::SetNone { field: "target".to_string(), syntax: "target = None".to_string() },
        Effect::SetIdentifier { field: "hp".to_string(), field_source: "max_hp".to_string(), syntax: "hp = max_hp".to_string() },
    ];
    for e in effects {
        let mut once = world(10, false, "Calm");
        e.apply(&mut once, &atr);
        let mut twice = once.clone();
        e.apply(&mut twice, &atr);
        assert_eq!(once, twice);
    }
    let mut once = float_world(1.0);
    let e = Effect::SetFloat { field: "speed".to_string(), value: 3.5f32.to_bits(), syntax: "speed = 3.5".to_string() };
    e.apply(&mut once, &atr);
    let mut twice = once.clone();
    e.apply(&mut twice, &atr);
    assert_eq!(once, twice);
    assert_eq!(speed(&once), 3.5);
}

#[test]
fn enum_paths_split_at_the_separator() {
    assert_eq!(parse_enum("Mood::Calm", "m == Mood::Calm"), Ok(("Mood".to_string(), "Calm".to_string())));
    assert!(matches!(parse_enum("::Calm", "c"), Err(HtnErr::Enum { .. })));
    assert!(matches!(parse_enum("Mood::", "c"), Err(HtnErr::Enum { .. })));
    assert!(matches!(parse_enum("::", "c"), Err(HtnErr::Enum { .. })));
    assert_eq!(
        parse_enum("A::B::C", "c"),
        Err(HtnErr::Enum { syntax: "A::B::C".to_string(), details: "Invalid enum `A::B::C` in: `c`".to_string() })
    );
}

#[test]
fn float_literals_are_listed_in_text_order() {
    let src = r#"primitive_task "Run" { operator: Go preconditions: [speed >= 2.5, hp == 3] effects: [speed = -0.25] }"#;
    assert_eq!(float_literals(src), vec!["2.5".to_string(), "-0.25".to_string()]);
    assert!(float_literals("primitive_task {").is_empty());
}

#[test]
fn float_literal_without_reading_is_invalid() {
    let src = r#"primitive_task "Run" { operator: Go preconditions: [speed >= 2.5] }"#;
    let err = parse_htn(src, &Vec::new()).unwrap_err();
    assert_eq!(
        err,
        HtnErr::Float { syntax: "2.5".to_string(), details: "Invalid float `2.5` in: `speed >= 2.5`".to_string() }
    );
    assert_eq!(err.to_string(), "Invalid float in statement `2.5`: Invalid float `2.5` in: `speed >= 2.5`");
    let floats = vec![FloatReading { literal: "2.5".to_string(), bits: 2.5f32.to_bits() }];
    let htn = parse_htn(src, &floats).unwrap();
    let Some(Task::Primitive(p)) = htn.tasks.first() else { panic!("no task") };
    assert_eq!(
        p.preconditions,
        vec![HtnCondition::GreaterThanFloat {
            field: "speed".to_string(),
            threshold: 2.5f32.to_bits(),
            orequals: true,
            syntax: "speed >= 2.5".to_string(),
        }]
    );
}

#[test]
fn float_conditions_compare_as_ieee() {
    let atr = types();
    let cond = |t: f32, orequals: bool| HtnCondition::GreaterThanFloat {
        field: "speed".to_string(),
        threshold: t.to_bits(),
        orequals,
        syntax: String::new(),
    };
    assert!(cond(2.0, false).evaluate(&float_world(2.5), &atr));
    assert!(!cond(2.5, false).evaluate(&float_world(2.5), &atr));
    assert!(cond(2.5, true).evaluate(&float_world(2.5), &atr));
    assert!(cond(-3.0, false).evaluate(&float_world(-1.0), &atr));
    assert!(!cond(-1.0, false).evaluate(&float_world(-3.0), &atr));
    assert!(!cond(0.0, true).evaluate(&float_world(f32::NAN), &atr));
    let eq = |v: f32, notted: bool| HtnCondition::EqualsFloat {
        field: "speed".to_string(),
        value: v.to_bits(),
        notted,
        syntax: String::new(),
    };
    assert!(eq(0.0, false).evaluate(&float_world(-0.0), &atr));
    assert!(!eq(f32::NAN, false).evaluate(&float_world(f32::NAN), &atr));
    assert!(eq(f32::NAN, true).evaluate(&float_world(f32::NAN), &atr));
    assert!(eq(1.0, true).evaluate(&float_world(2.0), &atr));
    assert!(!eq(1.0, false).evaluate(&world(1, true, "Calm"), &atr));
    let lt = HtnCondition::LessThanFloat {
        field: "speed".to_string(),
        threshold: 2.0f32.to_bits(),
        orequals: false,
        syntax: String::new(),
    };
    assert!(lt.evaluate(&float_world(3.0), &atr));
    assert!(!lt.evaluate(&float_world(1.0), &atr));
}

#[test]
fn effects_stop_before_float_arithmetic() {
    let atr = types();
    let effects = vec![
        Effect::SetInt { field: "hp".to_string(), value: 1, syntax: "hp = 1".to_string() },
        Effect::IncrementFloat { field: "speed".to_string(), by: 1.0f32.to_bits(), syntax: String::new() },
        Effect::SetFloat { field: "speed".to_string(), value: 8.0f32.to_bits(), syntax: "speed = 8.0".to_string() },
    ];
    let mut s = float_world(2.0);
    assert_eq!(apply_effects_from(&effects, 0, &mut s, &atr), 1);
    assert_eq!(value(&s, "hp"), &Value::from_i32(1));
    assert_eq!(speed(&s), 2.0);
    assert_eq!(apply_effects_from(&effects, 2, &mut s, &atr), 3);
    assert_eq!(speed(&s), 8.0);
    assert_eq!(s.record_type, "game::Runner");

    let htn = HTN::builder()
        .primitive_task(
            PrimitiveTaskBuilder::new("Speed".to_string())
                .operator(Operator::Trigger { name: "Go".to_string(), params: vec![] })
                .effect(effects[0].clone())
                .effect(effects[1].clone())
                .build(),
        )
        .build();
    let mut plan = Plan::with_id(2, vec!["Speed".to_string()], vec![]);
    let mut s = float_world(2.0);
    let id = plan.execute_next_task().unwrap();
    match complete_task(&mut plan, &htn, &mut s, &atr, &id, true) {
        TaskCompletion::EffectsFault { applied } => assert_eq!(applied, 1),
        other => panic!("unexpected {other:?}"),
    }
    assert_eq!(value(&s, "hp"), &Value::from_i32(1));
    assert_eq!(plan.status(), Some(true));
}

fn speed_up_network() -> HTN {
    let run = PrimitiveTaskBuilder::new("Run".to_string())
        .operator(Operator::Trigger { name: "Go".to_string(), params: vec![] })
        .precondition(HtnCondition::LessThanFloat {
            field: "speed".to_string(),
            threshold: 3.0f32.to_bits(),
            orequals: false,
            syntax: String::new(),
        })
        .effect(Effect::IncrementFloat { field: "speed".to_string(), by: 1.5f32.to_bits(), syntax: String::new() })
        .effect(Effect::IncrementFloat { field: "speed".to_string(), by: 1.5f32.to_bits(), syntax: String::new() })
        .build();
    let rest = PrimitiveTaskBuilder::new("Rest".to_string())
        .operator(Operator::Trigger { name: "Stop".to_string(), params: vec![] })
        .build();
    let root = CompoundTaskBuilder::new("Move".to_string())
        .method(MethodBuilder::new().subtask("Run".to_string()).build())
        .method(MethodBuilder::new().subtask("Rest".to_string()).build())
        .build();
    HTN::builder().compound_task(root).primitive_task(run).primitive_task(rest).build()
}

#[test]
fn float_increments_are_asked_for_and_planned() {
    let atr = types();
    let htn = speed_up_network();
    let mut planner = HtnPlanner::new(&htn, &atr);
    // Without sums, the planner stops at the first increment.
    assert!(planner.try_plan(&float_world(4.0)).is_none());
    let mut sums: Vec<FloatSum> = Vec::new();
    let mut asked = Vec::new();
    let plan = loop {
        match planner.try_plan_with(&float_world(4.0), &sums) {
            PlanOutcome::Planned(p) => break p,
            PlanOutcome::Failed => panic!("planning failed"),
            PlanOutcome::NeedSum { left, right } => {
                asked.push((f32::from_bits(left), f32::from_bits(right)));
                let sum = (f32::from_bits(left) + f32::from_bits(right)).to_bits();
                sums.push(FloatSum { left, right, sum });
            }
        }
    };
    // `<` on floats compares as `>` does: 4.0 passes; the two increments
    // ask for 4.0 + 1.5, then 5.5 + 1.5.
    assert_eq!(asked, vec![(4.0, 1.5), (5.5, 1.5)]);
    assert_eq!(plan.task_names(), vec!["Run"]);
    assert_eq!(plan.mtr(), &[0]);
    // From 1.0 the first run is refused, and the planner falls back to resting.
    let plan = match planner.try_plan_with(&float_world(1.0), &sums) {
        PlanOutcome::Planned(p) => p,
        other => panic!("unexpected {other:?}"),
    };
    assert_eq!(plan.task_names(), vec!["Rest"]);
    assert_eq!(plan.mtr(), &[0, 1]);
}

#[test]
fn effects_run_with_given_sums() {
    let atr = types();
    let effects = vec![
        Effect::IncrementFloat { field: "speed".to_string(), by: 0.5f32.to_bits(), syntax: String::new() },
        Effect::SetInt { field: "hp".to_string(), value: 9, syntax: "hp = 9".to_string() },
    ];
    let mut s = float_world(2.0);
    assert_eq!(
        run_effects(&effects, &mut s, &atr, &Vec::new()),
        EffectsRun::NeedSum { left: 2.0f32.to_bits(), right: 0.5f32.to_bits() }
    );
    let sums = vec![FloatSum { left: 2.0f32.to_bits(), right: 0.5f32.to_bits(), sum: 2.5f32.to_bits() }];
    let mut s = float_world(2.0);
    assert_eq!(run_effects(&effects, &mut s, &atr, &sums), EffectsRun::Applied);
    assert_eq!(speed(&s), 2.5);
    assert_eq!(value(&s, "hp"), &Value::from_i32(9));
    let missing = vec![Effect::IncrementFloat { field: "nope".to_string(), by: 0, syntax: String::new() }];
    assert_eq!(run_effects(&missing, &mut s, &atr, &sums), EffectsRun::Fault);
}

#[test]
fn option_fields_are_none_or_some() {
    let is_none = HtnCondition::IsNone { field: "target".to_string(), syntax: String::new() };
    let is_some = HtnCondition::IsSome { field: "target".to_string(), syntax: String::new() };
    let atr = types();
    let mut s = world(1, true, "Calm");
    assert!(is_some.evaluate(&s, &atr) && !is_none.evaluate(&s, &atr));
    Effect::SetNone { field: "target".to_string(), syntax: String::new() }.apply(&mut s, &atr);
    assert!(is_none.evaluate(&s, &atr) && !is_some.evaluate(&s, &atr));
}
