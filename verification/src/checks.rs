//! What checking a network against a state guarantees: on every state of
//! the same shape, the checked conditions can be evaluated and the checked
//! effects applied, so planning never faults on them.
use vstd::prelude::*;
use crate::conditions::{law_checked_condition_evaluable, HtnCondition};
use crate::effects::{law_checked_effect_applicable, Effect, FloatSum};
use crate::model::{
    first_index, lemma_first_index_bounds, lemma_first_index_names, lemma_with_value, lookup,
    resolves_enum, with_value, with_variant, RegisteredType, Val,
};
use crate::conditions::{none_name, unit_variant};
use crate::planner::{start, step, SearchV, StepV, SANITY_LIMIT};
use crate::tasks::{
    conditions_check, conditions_evaluable, effects_check, effects_run, EffectsRunV,
    first_task, lemma_first_task_bounds, methods_check, methods_evaluable, tasks_condition_check,
    tasks_effect_check, Method, Task, HTN,
};

verus! {

/// Whether two values have the same shape: the same type, and for enums the
/// same type name and variants.
pub open spec fn same_shape_val(a: Val, b: Val) -> bool {
    match (a, b) {
        (Val::Bool(_), Val::Bool(_)) => true,
        (Val::Int { kind: k1, .. }, Val::Int { kind: k2, .. }) => k1 == k2,
        (Val::Float { double: d1, .. }, Val::Float { double: d2, .. }) => d1 == d2,
        (
            Val::Enum { type_path: p1, type_ident: i1, variants: v1, .. },
            Val::Enum { type_path: p2, type_ident: i2, variants: v2, .. },
        ) => p1 == p2 && i1 == i2 && v1 == v2,
        (Val::Other { type_path: p1, .. }, Val::Other { type_path: p2, .. }) => p1 == p2,
        _ => false,
    }
}

/// Whether two states have the same fields, in order, with values of the
/// same shape.
pub open spec fn same_shape(a: Seq<(Seq<char>, Val)>, b: Seq<(Seq<char>, Val)>) -> bool {
    &&& a.len() == b.len()
    &&& forall|i: int| 0 <= i < a.len() ==> same_field(#[trigger] a[i], b[i])
}

/// Whether two fields have the same name and values of the same shape.
pub open spec fn same_field(x: (Seq<char>, Val), y: (Seq<char>, Val)) -> bool {
    x.0 == y.0 && same_shape_val(x.1, y.1)
}

/// Whether enum values of one type agree on the type's name and variants,
/// as values of a real type do.
pub open spec fn consistent(s: Seq<(Seq<char>, Val)>) -> bool {
    forall|i: int, j: int|
        0 <= i < s.len() && 0 <= j < s.len() ==> match (#[trigger] s[i].1, #[trigger] s[j].1) {
            (
                Val::Enum { type_path: p1, type_ident: i1, variants: v1, .. },
                Val::Enum { type_path: p2, type_ident: i2, variants: v2, .. },
            ) => p1 == p2 ==> i1 == i2 && v1 == v2,
            _ => true,
        }
}

/// States of the same shape find the same fields, with values of the same
/// shape.
pub proof fn lemma_lookup_shape(a: Seq<(Seq<char>, Val)>, b: Seq<(Seq<char>, Val)>, name: Seq<char>)
    requires
        same_shape(a, b),
    ensures
        lookup(a, name) is Some <==> lookup(b, name) is Some,
        lookup(a, name) matches Some(x) ==> same_shape_val(x, lookup(b, name).unwrap()),
{
    assert forall|i: int| 0 <= i < a.len() implies #[trigger] a[i].0 == b[i].0 by {
        assert(same_field(a[i], b[i]));
    }
    lemma_first_index_names(a, b, name);
    lemma_first_index_bounds(a, name);
}

/// Consistency depends on shapes only.
pub proof fn lemma_consistent_shape(a: Seq<(Seq<char>, Val)>, b: Seq<(Seq<char>, Val)>)
    requires
        same_shape(a, b),
        consistent(a),
    ensures
        consistent(b),
{
    assert forall|i: int, j: int| 0 <= i < b.len() && 0 <= j < b.len() implies match (
        #[trigger] b[i].1,
        #[trigger] b[j].1,
    ) {
        (
            Val::Enum { type_path: p1, type_ident: i1, variants: v1, .. },
            Val::Enum { type_path: p2, type_ident: i2, variants: v2, .. },
        ) => p1 == p2 ==> i1 == i2 && v1 == v2,
        _ => true,
    } by {
        assert(same_field(a[i], b[i]));
        assert(same_field(a[j], b[j]));
        assert(match (a[i].1, a[j].1) {
            (
                Val::Enum { type_path: p1, type_ident: i1, variants: v1, .. },
                Val::Enum { type_path: p2, type_ident: i2, variants: v2, .. },
            ) => p1 == p2 ==> i1 == i2 && v1 == v2,
            _ => true,
        });
    }
}

/// Shape is an equivalence.
pub proof fn lemma_same_shape_trans(a: Seq<(Seq<char>, Val)>, b: Seq<(Seq<char>, Val)>, c: Seq<(Seq<char>, Val)>)
    requires
        same_shape(a, b),
        same_shape(b, c),
    ensures
        same_shape(a, c),
{
    assert forall|i: int| 0 <= i < a.len() implies same_field(#[trigger] a[i], c[i]) by {
        assert(same_field(a[i], b[i]));
        assert(same_field(b[i], c[i]));
    }
}

/// A condition's type check gives the same verdict on states of the same
/// shape.
pub proof fn lemma_condition_check_shape(c: HtnCondition, a: Seq<(Seq<char>, Val)>, b: Seq<(Seq<char>, Val)>)
    requires
        same_shape(a, b),
        c.type_check(a) is Ok,
    ensures
        c.type_check(b) is Ok,
{
    reveal(HtnCondition::type_check);
    match c {
        HtnCondition::EqualsIdentifier { field, other_field, .. }
        | HtnCondition::GreaterThanIdentifier { field, other_field, .. }
        | HtnCondition::LessThanIdentifier { field, other_field, .. } => {
            lemma_lookup_shape(a, b, field@);
            lemma_lookup_shape(a, b, other_field@);
        },
        HtnCondition::IsNone { field, .. }
        | HtnCondition::IsSome { field, .. }
        | HtnCondition::EqualsBool { field, .. }
        | HtnCondition::GreaterThanInt { field, .. }
        | HtnCondition::LessThanInt { field, .. }
        | HtnCondition::EqualsInt { field, .. }
        | HtnCondition::EqualsFloat { field, .. }
        | HtnCondition::GreaterThanFloat { field, .. }
        | HtnCondition::LessThanFloat { field, .. }
        | HtnCondition::EqualsEnum { field, .. } => {
            lemma_lookup_shape(a, b, field@);
        },
    }
}

/// An effect's type check gives the same verdict on states of the same
/// shape.
pub proof fn lemma_effect_check_shape(
    e: Effect,
    a: Seq<(Seq<char>, Val)>,
    b: Seq<(Seq<char>, Val)>,
    types: Seq<RegisteredType>,
    expected: bool,
)
    requires
        same_shape(a, b),
        e.type_check(a, types, expected) is Ok,
    ensures
        e.type_check(b, types, expected) is Ok,
{
    reveal(Effect::type_check);
    match e {
        Effect::SetIdentifier { field, field_source, .. } => {
            lemma_lookup_shape(a, b, field@);
            lemma_lookup_shape(a, b, field_source@);
        },
        Effect::SetBool { field, .. }
        | Effect::SetInt { field, .. }
        | Effect::SetFloat { field, .. }
        | Effect::IncrementInt { field, .. }
        | Effect::IncrementFloat { field, .. }
        | Effect::SetEnum { field, .. }
        | Effect::SetNone { field, .. } => {
            lemma_lookup_shape(a, b, field@);
        },
    }
}

/// Every state has its own shape.
pub proof fn lemma_same_shape_refl(s: Seq<(Seq<char>, Val)>)
    ensures
        same_shape(s, s),
{
    assert forall|i: int| 0 <= i < s.len() implies same_field(#[trigger] s[i], s[i]) by {}
}

/// Writing a value of the same shape into a field keeps the state's shape.
pub proof fn lemma_write_keeps_shape(s: Seq<(Seq<char>, Val)>, name: Seq<char>, v: Val)
    requires
        lookup(s, name) matches Some(old) ==> same_shape_val(old, v),
    ensures
        same_shape(s, with_value(s, name, v)),
{
    lemma_first_index_bounds(s, name);
    let w = with_value(s, name, v);
    assert forall|i: int| 0 <= i < s.len() implies same_field(#[trigger] s[i], w[i]) by {}
}

/// An applicable effect keeps the shape of a consistent state.
pub proof fn lemma_effect_keeps_shape(e: Effect, s: Seq<(Seq<char>, Val)>, types: Seq<RegisteredType>)
    requires
        e.applicable(s, types),
        consistent(s),
    ensures
        same_shape(s, e.applied(s)),
        consistent(e.applied(s)),
{
    lemma_same_shape_refl(s);
    match e {
        Effect::SetBool { field, value, .. } => {
            if let Some(Val::Bool(_)) = lookup(s, field@) {
                lemma_write_keeps_shape(s, field@, Val::Bool(value));
            }
        },
        Effect::SetInt { field, value, .. } => {
            if let Some(v) = lookup(s, field@) {
                if crate::conditions::is_i32(v) {
                    lemma_write_keeps_shape(
                        s,
                        field@,
                        Val::Int { kind: crate::model::IntKind::I32, value: value as int },
                    );
                }
            }
        },
        Effect::IncrementInt { field, by, .. } => {
            if let Some(v) = lookup(s, field@) {
                if crate::conditions::is_i32(v) {
                    lemma_write_keeps_shape(
                        s,
                        field@,
                        Val::Int {
                            kind: crate::model::IntKind::I32,
                            value: crate::model::wrap_i32(crate::conditions::int_of(v) + by),
                        },
                    );
                }
            }
        },
        Effect::SetIdentifier { field, field_source, .. } => {
            lemma_first_index_bounds(s, field@);
            lemma_first_index_bounds(s, field_source@);
            let i = first_index(s, field@).unwrap();
            let j = first_index(s, field_source@).unwrap();
            assert(match (s[i].1, s[j].1) {
                (
                    Val::Enum { type_path: p1, type_ident: i1, variants: v1, .. },
                    Val::Enum { type_path: p2, type_ident: i2, variants: v2, .. },
                ) => p1 == p2 ==> i1 == i2 && v1 == v2,
                _ => true,
            });
            lemma_write_keeps_shape(s, field@, s[j].1);
        },
        Effect::SetEnum { field, enum_variant, .. } => {
            if let Some(v) = lookup(s, field@) {
                lemma_write_keeps_shape(s, field@, with_variant(v, enum_variant@));
            }
        },
        Effect::SetNone { field, .. } => {
            if let Some(v) = lookup(s, field@) {
                lemma_write_keeps_shape(s, field@, with_variant(v, none_name()));
            }
        },
        Effect::SetFloat { field, value, .. } => {
            if let Some(Val::Float { double: false, .. }) = lookup(s, field@) {
                lemma_write_keeps_shape(s, field@, Val::Float { double: false, bits: value as u64 });
            }
        },
        Effect::IncrementFloat { .. } => {},
    }
    lemma_consistent_shape(s, e.applied(s));
}

/// The failures that a condition's type check leaves open cannot occur on
/// `s`: an enum test names a type the registry resolves to an enum, and an
/// ordering of two fields compares integers.
pub open spec fn condition_safe(c: HtnCondition, s: Seq<(Seq<char>, Val)>, types: Seq<RegisteredType>) -> bool {
    match c {
        HtnCondition::EqualsEnum { enum_type, .. } => resolves_enum(types, enum_type@),
        HtnCondition::GreaterThanIdentifier { field, .. }
        | HtnCondition::LessThanIdentifier { field, .. } => lookup(s, field@) matches Some(
            Val::Int { .. },
        ),
        _ => true,
    }
}

/// The failures that an effect's type check leaves open cannot occur on
/// `s`: a write of an enum variant (or of `None`) writes a variant that
/// carries no data, of a type the registry resolves to an enum.
pub open spec fn effect_safe(e: Effect, s: Seq<(Seq<char>, Val)>, types: Seq<RegisteredType>) -> bool {
    match e {
        Effect::SetEnum { field, enum_type, enum_variant, .. } => resolves_enum(types, enum_type@) && (
        lookup(s, field@) matches Some(Val::Enum { variants, .. }) ==> unit_variant(
            variants,
            enum_variant@,
        )),
        Effect::SetNone { field, .. } => lookup(s, field@) matches Some(Val::Enum { variants, .. })
            ==> unit_variant(variants, none_name()),
        _ => true,
    }
}

/// Every condition and effect of the network is safe on `s`.
pub open spec fn network_safe(tasks: Seq<Task>, s: Seq<(Seq<char>, Val)>, types: Seq<RegisteredType>) -> bool {
    forall|k: int| 0 <= k < tasks.len() ==> task_safe(#[trigger] tasks[k], s, types)
}

/// Every condition and effect of the task is safe on `s`.
pub open spec fn task_safe(t: Task, s: Seq<(Seq<char>, Val)>, types: Seq<RegisteredType>) -> bool {
    match t {
        Task::Primitive(p) => {
            &&& forall|i: int| 0 <= i < p.preconditions@.len() ==> condition_safe(
                #[trigger] p.preconditions@[i],
                s,
                types,
            )
            &&& forall|i: int| 0 <= i < p.effects@.len() ==> effect_safe(#[trigger] p.effects@[i], s, types)
            &&& forall|i: int| 0 <= i < p.expected_effects@.len() ==> effect_safe(
                #[trigger] p.expected_effects@[i],
                s,
                types,
            )
        },
        Task::Compound(c) => forall|m: int| 0 <= m < c.methods@.len() ==> forall|i: int|
            0 <= i < (#[trigger] c.methods@[m]).preconditions@.len() ==> condition_safe(
                #[trigger] c.methods@[m].preconditions@[i],
                s,
                types,
            ),
    }
}

proof fn lemma_condition_safe_shape(c: HtnCondition, a: Seq<(Seq<char>, Val)>, b: Seq<(Seq<char>, Val)>, types: Seq<RegisteredType>)
    requires
        same_shape(a, b),
        condition_safe(c, a, types),
    ensures
        condition_safe(c, b, types),
{
    match c {
        HtnCondition::GreaterThanIdentifier { field, .. }
        | HtnCondition::LessThanIdentifier { field, .. } => lemma_lookup_shape(a, b, field@),
        _ => {},
    }
}

proof fn lemma_effect_safe_shape(e: Effect, a: Seq<(Seq<char>, Val)>, b: Seq<(Seq<char>, Val)>, types: Seq<RegisteredType>)
    requires
        same_shape(a, b),
        effect_safe(e, a, types),
    ensures
        effect_safe(e, b, types),
{
    match e {
        Effect::SetEnum { field, .. } | Effect::SetNone { field, .. } => lemma_lookup_shape(a, b, field@),
        _ => {},
    }
}

/// Checked, safe conditions can be evaluated on every state of the same
/// shape.
proof fn lemma_conditions_evaluable(
    cs: Seq<HtnCondition>,
    s0: Seq<(Seq<char>, Val)>,
    s: Seq<(Seq<char>, Val)>,
    types: Seq<RegisteredType>,
)
    requires
        conditions_check(cs, s0) is Ok,
        forall|i: int| 0 <= i < cs.len() ==> condition_safe(#[trigger] cs[i], s0, types),
        same_shape(s0, s),
    ensures
        conditions_evaluable(cs, s, types),
    decreases cs.len(),
{
    if cs.len() > 0 {
        let c = cs[0];
        assert(condition_safe(cs[0], s0, types));
        lemma_condition_check_shape(c, s0, s);
        lemma_condition_safe_shape(c, s0, s, types);
        match c {
            HtnCondition::GreaterThanIdentifier { field, .. }
            | HtnCondition::LessThanIdentifier { field, .. } => {
                lemma_lookup_shape(s0, s, field@);
                reveal(HtnCondition::type_check);
            },
            _ => {},
        }
        law_checked_condition_evaluable(c, s, types);
        let rest = cs.drop_first();
        assert forall|i: int| 0 <= i < rest.len() implies condition_safe(#[trigger] rest[i], s0, types) by {
            assert(rest[i] == cs[i + 1]);
        }
        lemma_conditions_evaluable(rest, s0, s, types);
    }
}

proof fn lemma_methods_check(methods: Seq<Method>, s: Seq<(Seq<char>, Val)>, k: int)
    requires
        methods_check(methods, s) is Ok,
        0 <= k < methods.len(),
    ensures
        conditions_check(methods[k].preconditions@, s) is Ok,
    decreases methods.len(),
{
    if k > 0 {
        lemma_methods_check(methods.drop_first(), s, k - 1);
    }
}

proof fn lemma_methods_evaluable(
    methods: Seq<Method>,
    s0: Seq<(Seq<char>, Val)>,
    s: Seq<(Seq<char>, Val)>,
    types: Seq<RegisteredType>,
    from: int,
)
    requires
        methods_check(methods, s0) is Ok,
        forall|m: int| 0 <= m < methods.len() ==> forall|i: int|
            0 <= i < (#[trigger] methods[m]).preconditions@.len() ==> condition_safe(
                #[trigger] methods[m].preconditions@[i],
                s0,
                types,
            ),
        same_shape(s0, s),
    ensures
        methods_evaluable(methods, s, types, from),
    decreases methods.len() - from,
{
    if 0 <= from < methods.len() {
        lemma_methods_check(methods, s0, from);
        let cs = methods[from].preconditions@;
        assert forall|i: int| 0 <= i < cs.len() implies condition_safe(#[trigger] cs[i], s0, types) by {
            assert(condition_safe(methods[from].preconditions@[i], s0, types));
        }
        lemma_conditions_evaluable(cs, s0, s, types);
        lemma_methods_evaluable(methods, s0, s, types, from + 1);
    }
}

/// Checked, safe effects applied in turn to a consistent state of the same
/// shape never fault, whatever sums of `f32` values are given, and where
/// they are all applied they leave the state's shape.
proof fn lemma_effects_run(
    es: Seq<Effect>,
    s0: Seq<(Seq<char>, Val)>,
    s: Seq<(Seq<char>, Val)>,
    types: Seq<RegisteredType>,
    sums: Seq<FloatSum>,
    expected: bool,
)
    requires
        effects_check(es, s0, types, expected) is Ok,
        forall|i: int| 0 <= i < es.len() ==> effect_safe(#[trigger] es[i], s0, types),
        same_shape(s0, s),
        consistent(s0),
    ensures
        !(effects_run(es, s, types, sums) is Fault),
        effects_run(es, s, types, sums) matches EffectsRunV::Applied(t) ==> same_shape(s0, t),
    decreases es.len(),
{
    if es.len() > 0 {
        let e = es[0];
        assert(effect_safe(es[0], s0, types));
        lemma_effect_check_shape(e, s0, s, types, expected);
        lemma_effect_safe_shape(e, s0, s, types);
        law_checked_effect_applicable(e, s, types, expected);
        lemma_consistent_shape(s0, s);
        if let Ok(next) = e.applied_with(s, sums) {
            match e {
                Effect::IncrementFloat { field, by, .. } => {
                    if let Some(Val::Float { double: false, bits }) = lookup(s, field@) {
                        if let Some(r) = crate::effects::sum_of(sums, bits as u32, by) {
                            lemma_write_keeps_shape(s, field@, Val::Float { double: false, bits: r as u64 });
                        }
                    }
                    lemma_same_shape_refl(s);
                },
                _ => lemma_effect_keeps_shape(e, s, types),
            }
            lemma_same_shape_trans(s0, s, next);
            let rest = es.drop_first();
            assert forall|i: int| 0 <= i < rest.len() implies effect_safe(#[trigger] rest[i], s0, types) by {
                assert(rest[i] == es[i + 1]);
            }
            lemma_effects_run(rest, s0, next, types, sums, expected);
        }
    }
}

proof fn lemma_tasks_checks(tasks: Seq<Task>, s: Seq<(Seq<char>, Val)>, types: Seq<RegisteredType>, k: int)
    requires
        0 <= k < tasks.len(),
    ensures
        tasks_condition_check(tasks, s) is Ok ==> tasks[k].condition_check(s) is Ok,
        tasks_effect_check(tasks, s, types) is Ok ==> tasks[k].effect_check(s, types) is Ok,
    decreases tasks.len(),
{
    if k > 0 {
        lemma_tasks_checks(tasks.drop_first(), s, types, k - 1);
    }
}

proof fn lemma_conditions_check_each(cs: Seq<HtnCondition>, s: Seq<(Seq<char>, Val)>, i: int)
    requires
        conditions_check(cs, s) is Ok,
        0 <= i < cs.len(),
    ensures
        cs[i].type_check(s) is Ok,
    decreases cs.len(),
{
    if i > 0 {
        lemma_conditions_check_each(cs.drop_first(), s, i - 1);
    }
}

/// A checked, safe condition can be evaluated on every state of the same
/// shape.
proof fn lemma_condition_evaluable(c: HtnCondition, s0: Seq<(Seq<char>, Val)>, s: Seq<(Seq<char>, Val)>, types: Seq<RegisteredType>)
    requires
        c.type_check(s0) is Ok,
        condition_safe(c, s0, types),
        same_shape(s0, s),
    ensures
        c.evaluable(s, types),
{
    lemma_condition_check_shape(c, s0, s);
    lemma_condition_safe_shape(c, s0, s, types);
    match c {
        HtnCondition::GreaterThanIdentifier { field, .. }
        | HtnCondition::LessThanIdentifier { field, .. } => {
            lemma_lookup_shape(s0, s, field@);
            reveal(HtnCondition::type_check);
        },
        _ => {},
    }
    law_checked_condition_evaluable(c, s, types);
}

/// After a network passes its checks on a state (`HTN::verify_all` is
/// `Ok`, and the failures those checks leave open cannot occur), then on
/// every consistent state of the same shape each precondition of each task
/// and method can be evaluated, and applying each task's effects, or its
/// expected effects, in order never faults: it either completes or stops
/// for a sum of `f32` values that was not given.
pub proof fn law_verified_network_runs(
    htn: HTN,
    state_type: Seq<char>,
    types: Seq<RegisteredType>,
    sums: Seq<FloatSum>,
    s0: Seq<(Seq<char>, Val)>,
    s: Seq<(Seq<char>, Val)>,
    k: int,
)
    requires
        htn.check_all(state_type, s0, types) is Ok,
        network_safe(htn.tasks@, s0, types),
        consistent(s0),
        same_shape(s0, s),
        0 <= k < htn.tasks@.len(),
    ensures
        htn.tasks@[k] matches Task::Primitive(p) ==> {
            &&& forall|i: int| 0 <= i < p.preconditions@.len() ==> (#[trigger] p.preconditions@[i]).evaluable(s, types)
            &&& !(effects_run(p.effects@, s, types, sums) is Fault)
            &&& !(effects_run(p.expected_effects@, s, types, sums) is Fault)
        },
        htn.tasks@[k] matches Task::Compound(c) ==> forall|m: int, i: int|
            0 <= m < c.methods@.len() && 0 <= i < (#[trigger] c.methods@[m]).preconditions@.len()
                ==> (#[trigger] c.methods@[m].preconditions@[i]).evaluable(s, types),
{
    let tasks = htn.tasks@;
    lemma_tasks_checks(tasks, s0, types, k);
    assert(task_safe(tasks[k], s0, types));
    match tasks[k] {
        Task::Primitive(p) => {
            assert forall|i: int| 0 <= i < p.preconditions@.len() implies (
            #[trigger] p.preconditions@[i]).evaluable(s, types) by {
                lemma_conditions_check_each(p.preconditions@, s0, i);
                lemma_condition_evaluable(p.preconditions@[i], s0, s, types);
            }
            lemma_effects_run(p.effects@, s0, s, types, sums, false);
            lemma_effects_run(p.expected_effects@, s0, s, types, sums, true);
        },
        Task::Compound(c) => {
            assert forall|m: int, i: int|
                0 <= m < c.methods@.len() && 0 <= i < (#[trigger] c.methods@[m]).preconditions@.len()
                    implies (#[trigger] c.methods@[m].preconditions@[i]).evaluable(s, types) by {
                lemma_methods_check(c.methods@, s0, m);
                lemma_conditions_check_each(c.methods@[m].preconditions@, s0, i);
                lemma_condition_evaluable(c.methods@[m].preconditions@[i], s0, s, types);
            }
        },
    }
}

/// After a network passes its condition and effect checks on a state
/// (and the failures those checks leave open cannot occur), no planning
/// step on a state of the same shape faults: every condition it reaches
/// can be evaluated and every effect applied, and the working state keeps
/// its shape. Planning can then fail only at a dead end.
pub proof fn law_checked_network_never_faults(
    tasks: Seq<Task>,
    types: Seq<RegisteredType>,
    sums: Seq<FloatSum>,
    s0: Seq<(Seq<char>, Val)>,
    s: SearchV,
)
    requires
        tasks_condition_check(tasks, s0) is Ok,
        tasks_effect_check(tasks, s0, types) is Ok,
        network_safe(tasks, s0, types),
        consistent(s0),
        same_shape(s0, s.state),
        s.stack.len() > 0,
    ensures
        !(step(tasks, types, sums, s) is Fault),
        step(tasks, types, sums, s) matches StepV::Next(t) ==> same_shape(s0, t.state),
        step(tasks, types, sums, s) matches StepV::Stop(t) ==> same_shape(s0, t.state),
{
    let name = s.stack[0];
    lemma_first_task_bounds(tasks, name);
    if let Some(k) = first_task(tasks, name) {
        lemma_tasks_checks(tasks, s0, types, k);
        assert(task_safe(tasks[k], s0, types));
        match tasks[k] {
            Task::Compound(c) => {
                lemma_methods_evaluable(c.methods@, s0, s.state, types, s.method_index as int);
            },
            Task::Primitive(p) => {
                lemma_conditions_evaluable(p.preconditions@, s0, s.state, types);
                lemma_effects_run(p.effects@, s0, s.state, types, sums, false);
                if let EffectsRunV::Applied(st1) = effects_run(p.effects@, s.state, types, sums) {
                    lemma_effects_run(p.expected_effects@, s0, st1, types, sums, true);
                }
            },
        }
    }
}

/// Whether planning from `s` with at most `budget` more steps meets a fault.
pub open spec fn run_faults(tasks: Seq<Task>, types: Seq<RegisteredType>, sums: Seq<FloatSum>, s: SearchV, budget: nat) -> bool
    decreases budget,
{
    if s.stack.len() == 0 || budget == 0 {
        false
    } else {
        match step(tasks, types, sums, s) {
            StepV::Fault => true,
            StepV::Next(t) => run_faults(tasks, types, sums, t, (budget - 1) as nat),
            _ => false,
        }
    }
}

proof fn lemma_run_never_faults(
    tasks: Seq<Task>,
    types: Seq<RegisteredType>,
    sums: Seq<FloatSum>,
    s0: Seq<(Seq<char>, Val)>,
    s: SearchV,
    budget: nat,
)
    requires
        tasks_condition_check(tasks, s0) is Ok,
        tasks_effect_check(tasks, s0, types) is Ok,
        network_safe(tasks, s0, types),
        consistent(s0),
        same_shape(s0, s.state),
    ensures
        !run_faults(tasks, types, sums, s, budget),
    decreases budget,
{
    if s.stack.len() > 0 && budget > 0 {
        law_checked_network_never_faults(tasks, types, sums, s0, s);
        if let StepV::Next(t) = step(tasks, types, sums, s) {
            lemma_run_never_faults(tasks, types, sums, s0, t, (budget - 1) as nat);
        }
    }
}

/// Planning from a state on which the network passes its condition and
/// effect checks (the failures they leave open excluded) never faults:
/// where it gives no plan, the network has no task or the search ran out
/// of decompositions to go back to.
pub proof fn law_checked_network_plans(htn: HTN, types: Seq<RegisteredType>, sums: Seq<FloatSum>, s0: Seq<(Seq<char>, Val)>)
    requires
        tasks_condition_check(htn.tasks@, s0) is Ok,
        tasks_effect_check(htn.tasks@, s0, types) is Ok,
        network_safe(htn.tasks@, s0, types),
        consistent(s0),
        htn.tasks@.len() > 0,
    ensures
        !run_faults(htn.tasks@, types, sums, start(htn.tasks@[0].name_of()@, s0), SANITY_LIMIT as nat),
{
    lemma_same_shape_refl(s0);
    lemma_run_never_faults(htn.tasks@, types, sums, s0, start(htn.tasks@[0].name_of()@, s0), SANITY_LIMIT as nat);
}

} // verus!
