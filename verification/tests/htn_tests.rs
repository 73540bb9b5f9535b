use bevy_htn::conditions::HtnCondition;
use bevy_htn::dsl::{float_literals, parse_htn, FloatReading};
use bevy_htn::error::HtnErr;
use bevy_htn::tasks::HTN;
use bevy_htn::effects::Effect;
use bevy_htn::model::{Field, HtnState, IntKind, RegisteredType, TypeRegistryModel, Value, VariantInfo};
use bevy_htn::tasks::Task;

/// Reads the text with each floating-point literal read as an `f32`.
fn read_htn(src: &str) -> Result<HTN, HtnErr> {
    let floats: Vec<FloatReading> = float_literals(src)
        .into_iter()
        .filter_map(|t| t.parse::<f32>().ok().map(|f| FloatReading { literal: t, bits: f.to_bits() }))
        .collect();
    parse_htn(src, &floats)
}

fn int_value(v: i32) -> Value {
    Value::from_i32(v)
}

fn location(variant: &str, names: &[&str]) -> Value {
    Value::Enum {
        type_path: "app::Location".to_string(),
        type_ident: "Location".to_string(),
        variants: names
            .iter()
            .map(|n| VariantInfo { name: n.to_string(), unit: true })
            .collect(),
        variant: variant.to_string(),
        payload: 0,
    }
}

fn entity(token: u64) -> Value {
    Value::Other { type_path: "bevy_ecs::entity::Entity".to_string(), token }
}

fn f32_value(x: f32) -> Value {
    Value::Float { double: false, bits: x.to_bits() as u64 }
}

fn optional(some: bool) -> Value {
    Value::Enum {
        type_path: "core::option::Option<f32>".to_string(),
        type_ident: "Option".to_string(),
        variants: vec![
            VariantInfo { name: "None".to_string(), unit: true },
            VariantInfo { name: "Some".to_string(), unit: false },
        ],
        variant: if some { "Some".to_string() } else { "None".to_string() },
        payload: if some { 1 } else { 0 },
    }
}

fn state(record: &str, fields: Vec<(&str, Value)>) -> HtnState {
    HtnState {
        record_type: record.to_string(),
        fields: fields
            .into_iter()
            .map(|(n, v)| Field { name: n.to_string(), value: v })
            .collect(),
    }
}

fn get<'a>(s: &'a HtnState, name: &str) -> &'a Value {
    &s.fields.iter().find(|f| f.name == name).unwrap().value
}

fn registry(types: &[(&str, &str, bool)]) -> TypeRegistryModel {
    let mut out = Vec::new();
    for (short, full, is_enum) in types {
        for name in [short, full] {
            out.push(RegisteredType {
                name: name.to_string(),
                is_enum: *is_enum,
                has_default: true,
                is_operator: false,
            });
        }
    }
    TypeRegistryModel { types: out }
}

fn test_state(tog: bool, loc: &str, counter: i32) -> HtnState {
    state(
        "TestState",
        vec![
            ("tog", Value::Bool(tog)),
            ("location", location(loc, &["Home", "Work"])),
            ("counter", int_value(counter)),
            ("e1", entity(7)),
            ("e2", entity(7)),
        ],
    )
}

fn test_registry() -> TypeRegistryModel {
    registry(&[
        ("TestState", "app::TestState", false),
        ("Location", "app::Location", true),
        ("TestOperator1", "app::TestOperator1", false),
    ])
}

#[test]
fn tests_test_set_bool() {
    let atr = test_registry();
    let mut state = test_state(false, "Home", 0);
    let effect = Effect::SetBool {
        field: "tog".to_string(),
        value: true,
        syntax: "tog = true".to_string(),
    };
    effect.apply(&mut state, &atr);
    assert_eq!(get(&state, "tog"), &Value::Bool(true));
}

#[test]
fn tests_test_set_enum() {
    let atr = test_registry();
    let mut state = test_state(false, "Home", 0);
    let effect = Effect::SetEnum {
        field: "location".to_string(),
        enum_type: "Location".into(),
        enum_variant: "Work".into(),
        syntax: "location = Location::Work".to_string(),
    };
    effect.apply(&mut state, &atr);
    assert_eq!(get(&state, "location"), &location("Work", &["Home", "Work"]));
}

#[test]
fn tests_test_cond_bool() {
    let atr = test_registry();
    let state = test_state(false, "Home", 0);
    let cond = HtnCondition::EqualsBool {
        field: "tog".to_string(),
        value: false,
        notted: false,
        syntax: "tog == false".to_string(),
    };
    assert!(cond.evaluate(&state, &atr));
    let state = test_state(true, "Home", 0);
    assert!(!cond.evaluate(&state, &atr));
}

#[test]
fn test_cond_int() {
    let atr = test_registry();
    let state = test_state(false, "Home", 0);
    let cond = HtnCondition::EqualsInt {
        field: "counter".to_string(),
        value: 0,
        notted: false,
        syntax: "counter == 0".to_string(),
    };
    assert!(cond.evaluate(&state, &atr));
    let state = test_state(false, "Home", 1);
    assert!(!cond.evaluate(&state, &atr));
}

#[test]
fn tests_test_cond_enum() {
    let atr = test_registry();
    let state = test_state(false, "Home", 0);
    let cond = HtnCondition::EqualsEnum {
        field: "location".to_string(),
        enum_type: "Location".into(),
        enum_variant: "Home".into(),
        notted: false,
        syntax: "location == Location::Home".to_string(),
    };
    assert!(cond.evaluate(&state, &atr));
    let state = test_state(false, "Work", 0);
    assert!(!cond.evaluate(&state, &atr));
}

#[test]
fn tests_test_parser() {
    let src = r#"
    // the htn block defines what version of the crate your DSL is written for.
    // i  won't bother with backwards compatability unless there are lots of users on old versions,
    // but having a version string is necessary if I ever need to do that.
    schema {
        version: 0.1.0
    }

    // comment
    primitive_task "TestTask1" {
        // comment
        operator: TestOperator1
        preconditions: [tog == false, location == Location::Home, e1 == e2]
        effects: [
            tog = true,
            // comment
            counter -= 1,
        ]
        expected_effects: [location = Location::Work, e1 = e2]
    }
    // comment
    compound_task "CompoundTask1" {
        // comment
        method {
            preconditions: [tog == true]
            // comment
            subtasks: [TestTask1]
        }
        method {
            preconditions: [
            // comment
            ]
            subtasks: [FooTask,]
        }
        method {
            // comment
            subtasks: [
            FooTask,
            // comment
            BarTask
            ]
        }
    }
    "#;
    let htn = read_htn(src).unwrap();
    assert_eq!(htn.version(), "0.1.0");
    assert_eq!(htn.tasks.len(), 2);
    let Task::Primitive(task1) = &htn.tasks[0] else {
        panic!("Task is not a primitive");
    };
    assert_eq!(task1.name, "TestTask1");
    assert_eq!(
        task1.expected_effects,
        vec![
            Effect::SetEnum {
                field: "location".to_string(),
                enum_type: "Location".into(),
                enum_variant: "Work".into(),
                syntax: "location = Location::Work".to_string(),
            },
            Effect::SetIdentifier {
                field: "e1".to_string(),
                field_source: "e2".to_string(),
                syntax: "e1 = e2".to_string(),
            },
        ]
    );
    assert_eq!(
        task1.preconditions,
        vec![
            HtnCondition::EqualsBool {
                field: "tog".to_string(),
                value: false,
                notted: false,
                syntax: "tog == false".to_string(),
            },
            HtnCondition::EqualsEnum {
                field: "location".to_string(),
                enum_type: "Location".into(),
                enum_variant: "Home".into(),
                notted: false,
                syntax: "location == Location::Home".to_string(),
            },
            HtnCondition::EqualsIdentifier {
                field: "e1".to_string(),
                other_field: "e2".to_string(),
                notted: false,
                syntax: "e1 == e2".to_string(),
            },
        ]
    );
    assert_eq!(
        task1.effects,
        vec![
            Effect::SetBool {
                field: "tog".to_string(),
                value: true,
                syntax: "tog = true".to_string(),
            },
            Effect::IncrementInt {
                field: "counter".to_string(),
                by: -1,
                syntax: "counter -= 1".to_string(),
            },
        ]
    );
    assert_eq!(
        task1.expected_effects[0],
        Effect::SetEnum {
            field: "location".to_string(),
            enum_type: "Location".into(),
            enum_variant: "Work".into(),
            syntax: "location = Location::Work".to_string(),
        }
    );
    let Task::Compound(task2) = &htn.tasks[1] else {
        panic!("Task is not a compound");
    };
    assert_eq!(task2.name, "CompoundTask1");
    assert_eq!(task2.methods.len(), 3);
    assert_eq!(
        task2.methods[0].preconditions,
        vec![HtnCondition::EqualsBool {
            field: "tog".to_string(),
            value: true,
            notted: false,
            syntax: "tog == true".to_string(),
        }]
    );
    assert_eq!(task2.methods[1].preconditions, vec![]);
    assert_eq!(task2.methods[1].subtasks, vec!["FooTask".to_string()]);
    assert_eq!(
        task2.methods[2].subtasks,
        vec!["FooTask".to_string(), "BarTask".to_string()]
    );

    assert_eq!(task2.methods[0].subtasks, vec!["TestTask1".to_string()]);
    assert_eq!(task2.methods[1].subtasks, vec!["FooTask".to_string()]);
}

fn conditions_state(energy: i32, happy: bool, loc: &str, e1: i32, e2: i32, floaty: f32) -> HtnState {
    state(
        "State",
        vec![
            ("energy", int_value(energy)),
            ("floatyness", f32_value(floaty)),
            ("happy", Value::Bool(happy)),
            ("location", location(loc, &["Home", "Other", "Park"])),
            ("e1", int_value(e1)),
            ("e2", int_value(e2)),
        ],
    )
}

fn state_registry() -> TypeRegistryModel {
    registry(&[("State", "app::State", false), ("Location", "app::Location", true)])
}

#[test]
fn conditions_test_conditions() {
    let src = r#"
            schema {
                version: 0.1.0
            }
                    
            primitive_task "Conditions Test" {
                operator: DummyOperator
                preconditions: [
                    energy > 10,
                    energy <= 100,
                    location != Location::Park,
                    happy == false,
                    e1 != e2,
                    e1 > e2,
                    floatyness > 2.0,
                ]
                effects: [
                ]
            }
            "#;
    let atr = state_registry();
    let htn = read_htn(src).unwrap();
    let state = conditions_state(0, false, "Home", 0, 0, 0.0);
    assert!(htn.verify_without_operators(&state, &atr).is_ok());
    let Some(Task::Primitive(pt)) = &htn.tasks.first() else {
        panic!("Task should exist");
    };
    assert_eq!(
        pt.preconditions,
        vec![
            HtnCondition::GreaterThanInt {
                field: "energy".to_string(),
                threshold: 10,
                orequals: false,
                syntax: "energy > 10".to_string(),
            },
            HtnCondition::LessThanInt {
                field: "energy".to_string(),
                threshold: 100,
                orequals: true,
                syntax: "energy <= 100".to_string(),
            },
            HtnCondition::EqualsEnum {
                field: "location".to_string(),
                enum_type: "Location".to_string(),
                enum_variant: "Park".to_string(),
                notted: true,
                syntax: "location != Location::Park".to_string(),
            },
            HtnCondition::EqualsBool {
                field: "happy".to_string(),
                value: false,
                notted: false,
                syntax: "happy == false".to_string(),
            },
            HtnCondition::EqualsIdentifier {
                field: "e1".to_string(),
                other_field: "e2".to_string(),
                notted: true,
                syntax: "e1 != e2".to_string(),
            },
            HtnCondition::GreaterThanIdentifier {
                field: "e1".to_string(),
                other_field: "e2".to_string(),
                orequals: false,
                syntax: "e1 > e2".to_string(),
            },
            HtnCondition::GreaterThanFloat {
                field: "floatyness".to_string(),
                threshold: 2.0f32.to_bits(),
                orequals: false,
                syntax: "floatyness > 2.0".to_string(),
            },
        ]
    );
    assert_eq!(pt.name, "Conditions Test");
    assert_eq!(pt.operator.name(), "DummyOperator");
    assert_eq!(pt.effects.len(), 0);
    assert_eq!(pt.expected_effects.len(), 0);

    let state = conditions_state(10, false, "Home", 1, 2, 2.0);

    let condition = HtnCondition::EqualsBool {
        field: "happy".to_string(),
        value: false,
        notted: false,
        syntax: "happy == false".to_string(),
    };
    assert!(condition.evaluate(&state, &atr));

    let condition = HtnCondition::EqualsInt {
        field: "energy".to_string(),
        value: 10,
        notted: false,
        syntax: "energy == 10".to_string(),
    };
    assert!(condition.evaluate(&state, &atr));
    let state2 = conditions_state(999, false, "Home", 1, 2, 2.0);
    assert!(!condition.evaluate(&state2, &atr));

    let condition = HtnCondition::GreaterThanInt {
        field: "energy".to_string(),
        threshold: 10,
        orequals: true,
        syntax: "energy >= 10".to_string(),
    };
    assert!(condition.evaluate(&state, &atr));

    let condition = HtnCondition::LessThanInt {
        field: "energy".to_string(),
        threshold: 10,
        orequals: false,
        syntax: "energy < 10".to_string(),
    };
    assert!(!condition.evaluate(&state, &atr));

    let condition = HtnCondition::EqualsEnum {
        field: "location".to_string(),
        enum_type: "Location".to_string(),
        enum_variant: "Park".to_string(),
        notted: true,
        syntax: "location != Location::Park".to_string(),
    };
    assert!(condition.evaluate(&state, &atr));
    let state2 = conditions_state(10, false, "Park", 1, 2, 2.0);
    assert!(!condition.evaluate(&state2, &atr));

    let condition = HtnCondition::EqualsIdentifier {
        field: "e1".to_string(),
        other_field: "e2".to_string(),
        notted: false,
        syntax: "e1 == e2".to_string(),
    };
    assert!(!condition.evaluate(&state, &atr));
    let state2 = conditions_state(10, false, "Home", 2, 2, 2.0);
    assert!(condition.evaluate(&state2, &atr));

    let condition = HtnCondition::GreaterThanIdentifier {
        field: "e1".to_string(),
        other_field: "e2".to_string(),
        orequals: false,
        syntax: "e1 > e2".to_string(),
    };
    assert!(!condition.evaluate(&state, &atr));
    let state2 = conditions_state(10, false, "Home", 3, 2, 2.0);
    assert!(condition.evaluate(&state2, &atr));

    // deliberately using powers of two here to avoid floating point shennanigans
    let condition = HtnCondition::EqualsFloat {
        field: "floatyness".to_string(),
        value: 2.0f32.to_bits(),
        notted: false,
        syntax: "floatyness == 2.0".to_string(),
    };
    assert!(condition.evaluate(&state, &atr));
    let state2 = conditions_state(10, false, "Home", 1, 2, 2.0);
    assert!(condition.evaluate(&state2, &atr));
}

#[test]
fn tests_test_conditions() {
    let src = r#"
    schema {
        version: 0.1.0
    }
            
    primitive_task "Conditions Test" {
        operator: DummyOperator
        preconditions: [
            energy > 10,
            energy <= 100,
            location != Location::Park,
            happy == false,
            e1 != e2,
        ]
        effects: [
        ]
    }
    "#;
    let atr = state_registry();
    let htn = read_htn(src).unwrap();
    let state = conditions_state(0, false, "Home", 0, 0, 0.0);
    assert!(htn.verify_without_operators(&state, &atr).is_ok());
    let Some(Task::Primitive(pt)) = &htn.tasks.first() else {
        panic!("Task should exist");
    };
    assert_eq!(
        pt.preconditions,
        vec![
            HtnCondition::GreaterThanInt {
                field: "energy".to_string(),
                threshold: 10,
                orequals: false,
                syntax: "energy > 10".to_string(),
            },
            HtnCondition::LessThanInt {
                field: "energy".to_string(),
                threshold: 100,
                orequals: true,
                syntax: "energy <= 100".to_string(),
            },
            HtnCondition::EqualsEnum {
                field: "location".to_string(),
                enum_type: "Location".to_string(),
                enum_variant: "Park".to_string(),
                notted: true,
                syntax: "location != Location::Park".to_string(),
            },
            HtnCondition::EqualsBool {
                field: "happy".to_string(),
                value: false,
                notted: false,
                syntax: "happy == false".to_string(),
            },
            HtnCondition::EqualsIdentifier {
                field: "e1".to_string(),
                other_field: "e2".to_string(),
                notted: true,
                syntax: "e1 != e2".to_string(),
            },
        ]
    );
    assert_eq!(pt.name, "Conditions Test");
    assert_eq!(pt.operator.name(), "DummyOperator");
    assert_eq!(pt.effects.len(), 0);
    assert_eq!(pt.expected_effects.len(), 0);

    let state = conditions_state(10, false, "Home", 1, 2, 0.0);

    let condition = HtnCondition::EqualsBool {
        field: "happy".to_string(),
        value: false,
        notted: false,
        syntax: "happy == false".to_string(),
    };
    assert!(condition.evaluate(&state, &atr));

    let condition = HtnCondition::EqualsInt {
        field: "energy".to_string(),
        value: 10,
        notted: false,
        syntax: "energy == 10".to_string(),
    };
    assert!(condition.evaluate(&state, &atr));
    let state2 = conditions_state(999, false, "Home", 1, 2, 0.0);
    assert!(!condition.evaluate(&state2, &atr));

    let condition = HtnCondition::GreaterThanInt {
        field: "energy".to_string(),
        threshold: 10,
        orequals: true,
        syntax: "energy >= 10".to_string(),
    };
    assert!(condition.evaluate(&state, &atr));

    let condition = HtnCondition::LessThanInt {
        field: "energy".to_string(),
        threshold: 10,
        orequals: false,
        syntax: "energy < 10".to_string(),
    };
    assert!(!condition.evaluate(&state, &atr));

    let condition = HtnCondition::EqualsEnum {
        field: "location".to_string(),
        enum_type: "Location".to_string(),
        enum_variant: "Park".to_string(),
        notted: true,
        syntax: "location != Location::Park".to_string(),
    };
    assert!(condition.evaluate(&state, &atr));
    let state2 = conditions_state(10, false, "Park", 1, 2, 0.0);
    assert!(!condition.evaluate(&state2, &atr));

    let condition = HtnCondition::EqualsIdentifier {
        field: "e1".to_string(),
        other_field: "e2".to_string(),
        notted: false,
        syntax: "e1 == e2".to_string(),
    };
    assert!(!condition.evaluate(&state, &atr));
    let state2 = conditions_state(10, false, "Home", 2, 2, 0.0);
    assert!(condition.evaluate(&state2, &atr));
}

fn effects_state() -> HtnState {
    state(
        "State",
        vec![
            ("energy", int_value(10)),
            ("floatyness", f32_value(1.0)),
            ("happy", Value::Bool(false)),
            ("location", location("Home", &["Home", "Other", "Park"])),
            ("e1", int_value(1)),
            ("e2", int_value(2)),
            ("opt", optional(true)),
            ("opt2", optional(false)),
        ],
    )
}

fn check_effect_list(src: &str, with_float: bool) {
    let htn = read_htn(src).unwrap();
    let Some(Task::Primitive(pt)) = &htn.tasks.first() else {
        panic!("Task should exist");
    };
    let mut expected = vec![
        Effect::SetBool {
            field: "happy".to_string(),
            value: true,
            syntax: "happy = true".to_string(),
        },
        Effect::SetInt {
            field: "energy".to_string(),
            value: 200,
            syntax: "energy = 200".to_string(),
        },
        Effect::SetIdentifier {
            field: "e1".to_string(),
            field_source: "e2".to_string(),
            syntax: "e1 = e2".to_string(),
        },
        Effect::IncrementInt {
            field: "energy".to_string(),
            by: -50,
            syntax: "energy -= 50".to_string(),
        },
        Effect::SetEnum {
            field: "location".to_string(),
            enum_type: "Location".to_string(),
            enum_variant: "Park".to_string(),
            syntax: "location = Location::Park".to_string(),
        },
    ];
    if with_float {
        expected.push(Effect::SetFloat {
            field: "floatyness".to_string(),
            value: 2.0f32.to_bits(),
            syntax: "floatyness = 2.0".to_string(),
        });
    }
    assert_eq!(pt.effects, expected);
}

fn check_effect_applications() {
    let atr = state_registry();
    let initial_state = effects_state();

    let mut state = initial_state.clone();
    let effect = Effect::SetBool {
        field: "happy".to_string(),
        value: true,
        syntax: "happy = true".to_string(),
    };
    effect.apply(&mut state, &atr);
    assert_eq!(get(&state, "happy"), &Value::Bool(true));

    let mut state = initial_state.clone();
    let effect = Effect::SetInt {
        field: "energy".to_string(),
        value: 100,
        syntax: "energy = 100".to_string(),
    };
    effect.apply(&mut state, &atr);
    assert_eq!(get(&state, "energy"), &int_value(100));

    let mut state = initial_state.clone();
    let effect = Effect::SetIdentifier {
        field: "e1".to_string(),
        field_source: "e2".to_string(),
        syntax: "e1 = e2".to_string(),
    };
    effect.apply(&mut state, &atr);
    assert_eq!(get(&state, "e1"), &int_value(2));

    let mut state = initial_state.clone();
    let effect = Effect::SetEnum {
        field: "location".to_string(),
        enum_type: "Location".to_string(),
        enum_variant: "Park".to_string(),
        syntax: "location = Location::Park".to_string(),
    };
    effect.apply(&mut state, &atr);
    assert_eq!(get(&state, "location"), &location("Park", &["Home", "Other", "Park"]));

    let mut state = initial_state.clone();
    let effect = Effect::IncrementInt {
        field: "energy".to_string(),
        by: 10,
        syntax: "energy += 10".to_string(),
    };
    effect.apply(&mut state, &atr);
    assert_eq!(get(&state, "energy"), &int_value(20));

    let mut state = initial_state.clone();
    let effect = Effect::IncrementInt {
        field: "energy".to_string(),
        by: -10,
        syntax: "energy -= 10".to_string(),
    };
    effect.apply(&mut state, &atr);
    assert_eq!(get(&state, "energy"), &int_value(0));
}

#[test]
fn effects_test_effects() {
    let src = r#"
    schema {
        version: 0.1.0
    }
            
    primitive_task "Effects Test" {
        operator: DummyOperator
        preconditions: []
        effects: [
            happy = true,
            energy = 200,
            e1 = e2,
            energy -= 50,
            location = Location::Park,
            floatyness = 2.0,
        ]
    }
    "#;
    check_effect_list(src, true);
    check_effect_applications();

    let atr = state_registry();
    let mut state = effects_state();
    let effect = Effect::SetNone {
        field: "opt".to_string(),
        syntax: "opt = None".to_string(),
    };
    effect.apply(&mut state, &atr);
    assert_eq!(get(&state, "opt"), &optional(false));

    // deliberately using powers of two here to avoid float point shennanigans
    let mut state = effects_state();
    let effect = Effect::SetFloat {
        field: "floatyness".to_string(),
        value: 4.0f32.to_bits(),
        syntax: "floatyness = 4.0".to_string(),
    };
    effect.apply(&mut state, &atr);
    assert_eq!(get(&state, "floatyness"), &f32_value(4.0));
}

#[test]
fn tests_test_effects() {
    let src = r#"
    schema {
        version: 0.1.0
    }
            
    primitive_task "Effects Test" {
        operator: DummyOperator
        preconditions: []
        effects: [
            happy = true,
            energy = 200,
            e1 = e2,
            energy -= 50,
            location = Location::Park,
        ]
    }
    "#;
    check_effect_list(src, false);
    check_effect_applications();
}

#[test]
fn int_kinds_are_kept_apart() {
    let atr = state_registry();
    let s = state(
        "State",
        vec![("small", Value::Int { kind: IntKind::U8, negative: false, magnitude: 3 })],
    );
    let cond = HtnCondition::EqualsInt {
        field: "small".to_string(),
        value: 3,
        notted: false,
        syntax: "small == 3".to_string(),
    };
    assert!(!cond.evaluate(&s, &atr));
}
