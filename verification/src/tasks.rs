//! The task network: primitive tasks with an operator, preconditions and
//! effects; compound tasks with methods that decompose them; and builders.
use vstd::prelude::*;
use crate::conditions::{CondV, HtnCondition};
use crate::effects::{find_sum, EffV, Effect, FloatSum};
use crate::model::{first_type, lookup, HtnState, RegisteredType, TypeRegistryModel, Val, Value};
use crate::text::{join, text};

verus! {

/// The operator that carries out a primitive task: the name of a
/// registered type, and state fields whose values it receives.
#[derive(Debug, Clone, PartialEq)]
pub enum Operator {
    Trigger { name: String, params: Vec<String> },
}

impl Operator {
    /// The operator's type name.
    pub open spec fn name_of(self) -> String {
        match self {
            Operator::Trigger { name, .. } => name,
        }
    }

    /// The state fields the operator receives.
    pub open spec fn params_of(self) -> Seq<String> {
        match self {
            Operator::Trigger { params, .. } => params@,
        }
    }

    /// The operator's type name.
    pub fn name(&self) -> (r: &String)
        ensures
            *r == self.name_of(),
    {
        match self {
            Operator::Trigger { name, .. } => name,
        }
    }

    /// The state fields the operator receives.
    pub fn params(&self) -> (r: &Vec<String>)
        ensures
            r@ == self.params_of(),
    {
        match self {
            Operator::Trigger { params, .. } => params,
        }
    }
}

/// A task carried out directly by an operator.
#[derive(Debug, Clone, PartialEq)]
pub struct PrimitiveTask {
    pub name: String,
    pub operator: Operator,
    pub preconditions: Vec<HtnCondition>,
    pub effects: Vec<Effect>,
    pub expected_effects: Vec<Effect>,
}

/// One way to decompose a compound task: when its preconditions hold, the
/// compound task becomes the subtasks, named in order.
#[derive(Debug, Clone, PartialEq)]
pub struct Method {
    pub name: Option<String>,
    pub preconditions: Vec<HtnCondition>,
    pub subtasks: Vec<String>,
}

/// A task decomposed by the first applicable of its methods.
#[derive(Debug, Clone, PartialEq)]
pub struct CompoundTask {
    pub name: String,
    pub methods: Vec<Method>,
}

/// A task of the network.
#[derive(Debug, Clone, PartialEq)]
pub enum Task {
    Primitive(PrimitiveTask),
    Compound(CompoundTask),
}

/// The schema block of a task network: the version it is written for.
#[derive(Debug, Clone, PartialEq)]
pub struct HtnSchema {
    pub version: String,
}

/// A task network: all its compound and primitive tasks, the first being
/// the root.
#[derive(Debug, Clone, PartialEq)]
pub struct HTN {
    pub tasks: Vec<Task>,
    pub schema: HtnSchema,
}

/// The model of an [`Operator`].
pub struct OperatorV {
    pub name: Seq<char>,
    pub params: Seq<Seq<char>>,
}

/// The model of a [`PrimitiveTask`].
pub struct PrimitiveV {
    pub name: Seq<char>,
    pub operator: OperatorV,
    pub preconditions: Seq<CondV>,
    pub effects: Seq<EffV>,
    pub expected_effects: Seq<EffV>,
}

/// The model of a [`Method`].
pub struct MethodV {
    pub name: Option<Seq<char>>,
    pub preconditions: Seq<CondV>,
    pub subtasks: Seq<Seq<char>>,
}

/// The model of a [`CompoundTask`].
pub struct CompoundV {
    pub name: Seq<char>,
    pub methods: Seq<MethodV>,
}

/// The model of a [`Task`].
pub enum TaskV {
    Primitive(PrimitiveV),
    Compound(CompoundV),
}

/// The model of an [`HTN`]: its tasks and its version.
pub struct HtnV {
    pub tasks: Seq<TaskV>,
    pub version: Seq<char>,
}

/// The models of a list of texts.
pub open spec fn texts_view(v: Seq<String>) -> Seq<Seq<char>> {
    v.map_values(|x: String| x@)
}

/// The models of a list of conditions.
pub open spec fn conds_view(v: Seq<HtnCondition>) -> Seq<CondV> {
    v.map_values(|x: HtnCondition| x@)
}

/// The models of a list of effects.
pub open spec fn effs_view(v: Seq<Effect>) -> Seq<EffV> {
    v.map_values(|x: Effect| x@)
}

impl View for Operator {
    type V = OperatorV;

    open spec fn view(&self) -> OperatorV {
        match *self {
            Operator::Trigger { name, params } => OperatorV { name: name@, params: texts_view(params@) },
        }
    }
}

impl View for PrimitiveTask {
    type V = PrimitiveV;

    open spec fn view(&self) -> PrimitiveV {
        PrimitiveV {
            name: self.name@,
            operator: self.operator@,
            preconditions: conds_view(self.preconditions@),
            effects: effs_view(self.effects@),
            expected_effects: effs_view(self.expected_effects@),
        }
    }
}

impl View for Method {
    type V = MethodV;

    open spec fn view(&self) -> MethodV {
        MethodV {
            name: match self.name {
                Some(n) => Some(n@),
                None => None,
            },
            preconditions: conds_view(self.preconditions@),
            subtasks: texts_view(self.subtasks@),
        }
    }
}

impl View for CompoundTask {
    type V = CompoundV;

    open spec fn view(&self) -> CompoundV {
        CompoundV { name: self.name@, methods: self.methods@.map_values(|m: Method| m@) }
    }
}

impl View for Task {
    type V = TaskV;

    open spec fn view(&self) -> TaskV {
        match *self {
            Task::Primitive(p) => TaskV::Primitive(p@),
            Task::Compound(c) => TaskV::Compound(c@),
        }
    }
}

impl View for HTN {
    type V = HtnV;

    open spec fn view(&self) -> HtnV {
        HtnV { tasks: self.tasks@.map_values(|t: Task| t@), version: self.schema.version@ }
    }
}

/// Whether every condition holds (evaluated in order).
pub open spec fn all_hold(cs: Seq<HtnCondition>, state: Seq<(Seq<char>, Val)>) -> bool
    decreases cs.len(),
{
    cs.len() == 0 || (cs[0].holds(state) && all_hold(cs.drop_first(), state))
}

/// A list of conditions holds exactly when each of its conditions holds.
pub proof fn law_all_hold(cs: Seq<HtnCondition>, state: Seq<(Seq<char>, Val)>)
    ensures
        all_hold(cs, state) <==> forall|i: int| 0 <= i < cs.len() ==> #[trigger] cs[i].holds(state),
    decreases cs.len(),
{
    if cs.len() > 0 {
        law_all_hold(cs.drop_first(), state);
        assert forall|i: int| 1 <= i < cs.len() implies #[trigger] cs[i].holds(state) == cs.drop_first()[
            i - 1
        ].holds(state) by {}
        if forall|i: int| 0 <= i < cs.len() ==> #[trigger] cs[i].holds(state) {
            assert(cs[0].holds(state));
            assert forall|i: int| 0 <= i < cs.drop_first().len() implies #[trigger] cs.drop_first()[
                i
            ].holds(state) by {
                assert(cs.drop_first()[i] == cs[i + 1]);
            }
        }
    }
}

/// Whether evaluating the conditions in order, stopping at the first false
/// one, completes: each condition evaluated is evaluable.
pub open spec fn conditions_evaluable(
    cs: Seq<HtnCondition>,
    state: Seq<(Seq<char>, Val)>,
    types: Seq<RegisteredType>,
) -> bool
    decreases cs.len(),
{
    cs.len() == 0 || {
        &&& cs[0].evaluable(state, types)
        &&& (cs[0].holds(state) ==> conditions_evaluable(cs.drop_first(), state, types))
    }
}

/// Whether every condition holds on `state`, evaluated in order.
#[verifier::rlimit(30)]
pub fn conditions_hold(cs: &Vec<HtnCondition>, state: &HtnState, registry: &TypeRegistryModel) -> (r: bool)
    requires
        conditions_evaluable(cs@, state@, registry.types@),
        state.wf(),
    ensures
        r == all_hold(cs@, state@),
{
    let mut i: usize = 0;
    assert(cs@.skip(0) =~= cs@);
    while i < cs.len()
        invariant
            0 <= i <= cs@.len(),
            state.wf(),
            all_hold(cs@, state@) == all_hold(cs@.skip(i as int), state@),
            conditions_evaluable(cs@.skip(i as int), state@, registry.types@),
        decreases cs@.len() - i,
    {
        let ghost rest = cs@.skip(i as int);
        assert(rest[0] == cs@[i as int]);
        assert(rest.drop_first() =~= cs@.skip(i + 1));
        if !cs[i].evaluate(state, registry) {
            return false;
        }
        i = i + 1;
    }
    true
}

/// The first error among the conditions' type checks, in order.
pub open spec fn conditions_check(cs: Seq<HtnCondition>, state: Seq<(Seq<char>, Val)>) -> Result<
    (),
    Seq<char>,
>
    decreases cs.len(),
{
    if cs.len() == 0 {
        Ok(())
    } else {
        match cs[0].type_check(state) {
            Err(m) => Err(m),
            Ok(_) => conditions_check(cs.drop_first(), state),
        }
    }
}

/// The first error among the effects' type checks, in order.
pub open spec fn effects_check(
    es: Seq<Effect>,
    state: Seq<(Seq<char>, Val)>,
    types: Seq<RegisteredType>,
    expected: bool,
) -> Result<(), Seq<char>>
    decreases es.len(),
{
    if es.len() == 0 {
        Ok(())
    } else {
        match es[0].type_check(state, types, expected) {
            Err(m) => Err(m),
            Ok(_) => effects_check(es.drop_first(), state, types, expected),
        }
    }
}

/// Checks the conditions' types in order.
#[verifier::rlimit(30)]
pub fn verify_condition_list(cs: &Vec<HtnCondition>, state: &HtnState, registry: &TypeRegistryModel) -> (r:
    Result<(), String>)
    ensures
        r is Ok <==> conditions_check(cs@, state@) is Ok,
        r matches Err(m) ==> conditions_check(cs@, state@) == Err::<(), Seq<char>>(m@),
{
    let mut i: usize = 0;
    assert(cs@.skip(0) =~= cs@);
    while i < cs.len()
        invariant
            0 <= i <= cs@.len(),
            conditions_check(cs@, state@) == conditions_check(cs@.skip(i as int), state@),
        decreases cs@.len() - i,
    {
        let ghost rest = cs@.skip(i as int);
        assert(rest[0] == cs@[i as int]);
        assert(rest.drop_first() =~= cs@.skip(i + 1));
        match cs[i].verify_types(state, registry) {
            Err(m) => return Err(m),
            Ok(_) => {},
        }
        i = i + 1;
    }
    Ok(())
}

/// Checks the effects' types in order.
#[verifier::rlimit(30)]
pub fn verify_effect_list(es: &Vec<Effect>, state: &HtnState, registry: &TypeRegistryModel, expected: bool) -> (r:
    Result<(), String>)
    ensures
        r is Ok <==> effects_check(es@, state@, registry.types@, expected) is Ok,
        r matches Err(m) ==> effects_check(es@, state@, registry.types@, expected) == Err::<
            (),
            Seq<char>,
        >(m@),
{
    let mut i: usize = 0;
    assert(es@.skip(0) =~= es@);
    while i < es.len()
        invariant
            0 <= i <= es@.len(),
            effects_check(es@, state@, registry.types@, expected) == effects_check(
                es@.skip(i as int),
                state@,
                registry.types@,
                expected,
            ),
        decreases es@.len() - i,
    {
        let ghost rest = es@.skip(i as int);
        assert(rest[0] == es@[i as int]);
        assert(rest.drop_first() =~= es@.skip(i + 1));
        match es[i].verify_types(state, registry, expected) {
            Err(m) => return Err(m),
            Ok(_) => {},
        }
        i = i + 1;
    }
    Ok(())
}

/// Whether the effects can all be applied in order, starting from `state`,
/// by this library: each is applicable and needs no floating-point
/// arithmetic.
pub open spec fn effects_applicable(
    es: Seq<Effect>,
    state: Seq<(Seq<char>, Val)>,
    types: Seq<RegisteredType>,
) -> bool
    decreases es.len(),
{
    es.len() == 0 || {
        &&& es[0].applicable(state, types)
        &&& !es[0].needs_float_arithmetic()
        &&& effects_applicable(es.drop_first(), es[0].applied(state), types)
    }
}

/// The state after applying the effects in order.
pub open spec fn effects_applied(es: Seq<Effect>, state: Seq<(Seq<char>, Val)>) -> Seq<
    (Seq<char>, Val),
>
    decreases es.len(),
{
    if es.len() == 0 {
        state
    } else {
        effects_applied(es.drop_first(), es[0].applied(state))
    }
}

/// Applies the effects in order.
#[verifier::rlimit(30)]
pub fn apply_effect_list(es: &Vec<Effect>, state: &mut HtnState, registry: &TypeRegistryModel)
    requires
        effects_applicable(es@, old(state)@, registry.types@),
        old(state).wf(),
    ensures
        final(state)@ == effects_applied(es@, old(state)@),
        final(state).record_type == old(state).record_type,
        final(state).wf(),
{
    let mut i: usize = 0;
    assert(es@.skip(0) =~= es@);
    while i < es.len()
        invariant
            0 <= i <= es@.len(),
            state.wf(),
            state.record_type == old(state).record_type,
            effects_applied(es@, old(state)@) == effects_applied(es@.skip(i as int), state@),
            effects_applicable(es@.skip(i as int), state@, registry.types@),
        decreases es@.len() - i,
    {
        let ghost rest = es@.skip(i as int);
        assert(rest[0] == es@[i as int]);
        assert(rest.drop_first() =~= es@.skip(i + 1));
        es[i].apply(state, registry);
        i = i + 1;
    }
}

/// "No type registry entry for operator 'O'".
pub open spec fn unregistered_operator_msg(op: Seq<char>) -> Seq<char> {
    "No type registry entry for operator '"@ + op + "'"@
}

/// "ReflectDefault should be registered, did you forget to add
/// #[reflect(Default)] to O?".
pub open spec fn no_default_msg(op: Seq<char>) -> Seq<char> {
    "ReflectDefault should be registered, did you forget to add #[reflect(Default)] to "@ + op
        + "?"@
}

/// "Operator 'O' is missing Reflection data. ...".
pub open spec fn not_operator_msg(op: Seq<char>) -> Seq<char> {
    "Operator '"@ + op + "' is missing Reflection data. Did you forget to derive/implement, AND add #[reflect(HtnOperator)] to "@
        + op + "?"@
}

/// "State type `S` does not have field `p`, which is used in the `O`
/// operator".
pub open spec fn missing_param_msg(state_type: Seq<char>, param: Seq<char>, op: Seq<char>) -> Seq<
    char,
> {
    "State type `"@ + state_type + "` does not have field `"@ + param + "`, which is used in the `"@
        + op + "` operator"@
}

/// The first operator parameter, from `i` on, that is not a state field.
pub open spec fn first_missing_param(params: Seq<String>, state: Seq<(Seq<char>, Val)>, i: int) -> Option<
    int,
>
    decreases params.len() - i,
{
    if i >= params.len() {
        None
    } else if lookup(state, params[i]@) is None {
        Some(i)
    } else {
        first_missing_param(params, state, i + 1)
    }
}

impl PrimitiveTask {
    /// The operator check: its type is registered with a default value and
    /// the operator behaviour, and each parameter is a state field.
    pub open spec fn operator_check(
        self,
        state_type: Seq<char>,
        state: Seq<(Seq<char>, Val)>,
        types: Seq<RegisteredType>,
    ) -> Result<(), Seq<char>> {
        let op = self.operator.name_of()@;
        match first_type(types, op) {
            None => Err(unregistered_operator_msg(op)),
            Some(t) => if !types[t].has_default {
                Err(no_default_msg(op))
            } else if !types[t].is_operator {
                Err(not_operator_msg(op))
            } else {
                match first_missing_param(self.operator.params_of(), state, 0) {
                    Some(p) => Err(missing_param_msg(state_type, self.operator.params_of()[p]@, op)),
                    None => Ok(()),
                }
            },
        }
    }

    /// Checks that the operator's type is registered with a default value
    /// and the operator behaviour, and that each of its parameters is a
    /// state field.
    pub fn verify_operator(&self, state: &HtnState, registry: &TypeRegistryModel) -> (r: Result<(), String>)
        ensures
            r is Ok <==> self.operator_check(state.record_type@, state@, registry.types@) is Ok,
            r matches Err(m) ==> self.operator_check(state.record_type@, state@, registry.types@)
                == Err::<(), Seq<char>>(m@),
    {
        let op = self.operator.name();
        match registry.entry(op) {
            None => {
                let m = join(text("No type registry entry for operator '"), op.as_str());
                Err(join(m, "'"))
            },
            Some(t) => {
                if !t.has_default {
                    let m = join(
                        text("ReflectDefault should be registered, did you forget to add #[reflect(Default)] to "),
                        op.as_str(),
                    );
                    return Err(join(m, "?"));
                }
                if !t.is_operator {
                    let m = join(text("Operator '"), op.as_str());
                    let m = join(
                        m,
                        "' is missing Reflection data. Did you forget to derive/implement, AND add #[reflect(HtnOperator)] to ",
                    );
                    let m = join(m, op.as_str());
                    return Err(join(m, "?"));
                }
                let params = self.operator.params();
                let mut i: usize = 0;
                while i < params.len()
                    invariant
                        0 <= i <= params@.len(),
                        params@ == self.operator.params_of(),
                        *op == self.operator.name_of(),
                        first_type(registry.types@, op@) matches Some(k) && registry.types@[k].has_default
                            && registry.types@[k].is_operator,
                        first_missing_param(params@, state@, 0) == first_missing_param(
                            params@,
                            state@,
                            i as int,
                        ),
                    decreases params@.len() - i,
                {
                    if state.get(&params[i]).is_none() {
                        assert(first_missing_param(params@, state@, i as int) == Some(i as int));
                        let m = join(text("State type `"), state.record_type.as_str());
                        let m = join(m, "` does not have field `");
                        let m = join(m, params[i].as_str());
                        let m = join(m, "`, which is used in the `");
                        let m = join(m, op.as_str());
                        return Err(join(m, "` operator"));
                    }
                    i = i + 1;
                }
                Ok(())
            },
        }
    }

    /// Whether all preconditions hold on `state`.
    pub fn preconditions_met(&self, state: &HtnState, registry: &TypeRegistryModel) -> (r: bool)
        requires
            conditions_evaluable(self.preconditions@, state@, registry.types@),
            state.wf(),
        ensures
            r == all_hold(self.preconditions@, state@),
    {
        conditions_hold(&self.preconditions, state, registry)
    }

    /// Applies the effects, in order.
    pub fn apply_effects(&self, state: &mut HtnState, registry: &TypeRegistryModel)
        requires
            effects_applicable(self.effects@, old(state)@, registry.types@),
            old(state).wf(),
        ensures
            final(state)@ == effects_applied(self.effects@, old(state)@),
            final(state).record_type == old(state).record_type,
            final(state).wf(),
    {
        apply_effect_list(&self.effects, state, registry)
    }

    /// Applies the expected effects, in order.
    pub fn apply_expected_effects(&self, state: &mut HtnState, registry: &TypeRegistryModel)
        requires
            effects_applicable(self.expected_effects@, old(state)@, registry.types@),
            old(state).wf(),
        ensures
            final(state)@ == effects_applied(self.expected_effects@, old(state)@),
            final(state).record_type == old(state).record_type,
            final(state).wf(),
    {
        apply_effect_list(&self.expected_effects, state, registry)
    }

    /// The effect check: effects first, then expected effects.
    pub open spec fn effect_check(self, state: Seq<(Seq<char>, Val)>, types: Seq<RegisteredType>) -> Result<
        (),
        Seq<char>,
    > {
        match effects_check(self.effects@, state, types, false) {
            Err(m) => Err(m),
            Ok(_) => effects_check(self.expected_effects@, state, types, true),
        }
    }

    /// Checks that every field the effects and expected effects write exists
    /// with a type they can write.
    pub fn verify_effects(&self, state: &HtnState, registry: &TypeRegistryModel) -> (r: Result<(), String>)
        ensures
            r is Ok <==> self.effect_check(state@, registry.types@) is Ok,
            r matches Err(m) ==> self.effect_check(state@, registry.types@) == Err::<
                (),
                Seq<char>,
            >(m@),
    {
        match verify_effect_list(&self.effects, state, registry, false) {
            Err(m) => Err(m),
            Ok(_) => verify_effect_list(&self.expected_effects, state, registry, true),
        }
    }

    /// Checks the types the preconditions read.
    pub fn verify_conditions(&self, state: &HtnState, registry: &TypeRegistryModel) -> (r: Result<(), String>)
        ensures
            r is Ok <==> conditions_check(self.preconditions@, state@) is Ok,
            r matches Err(m) ==> conditions_check(self.preconditions@, state@) == Err::<
                (),
                Seq<char>,
            >(m@),
    {
        verify_condition_list(&self.preconditions, state, registry)
    }
}


/// The first method, from index `from` on, whose preconditions all hold.
pub open spec fn first_applicable(methods: Seq<Method>, state: Seq<(Seq<char>, Val)>, from: int) -> Option<
    int,
>
    decreases methods.len() - from,
{
    if from >= methods.len() || from < 0 {
        None
    } else if all_hold(methods[from].preconditions@, state) {
        Some(from)
    } else {
        first_applicable(methods, state, from + 1)
    }
}

/// The method search finds the first method, from `from` on, whose
/// preconditions all hold: it gives `k` exactly when the preconditions of
/// method `k` hold and those of every method from `from` up to `k` do not,
/// and nothing exactly when no method from `from` on has preconditions
/// that hold.
pub proof fn law_first_applicable(methods: Seq<Method>, state: Seq<(Seq<char>, Val)>, from: int)
    requires
        0 <= from,
    ensures
        first_applicable(methods, state, from) matches Some(k) ==> from <= k < methods.len() && all_hold(
            methods[k].preconditions@,
            state,
        ) && forall|j: int| from <= j < k ==> !all_hold(#[trigger] methods[j].preconditions@, state),
        first_applicable(methods, state, from) is None ==> forall|j: int|
            from <= j < methods.len() ==> !all_hold(#[trigger] methods[j].preconditions@, state),
    decreases methods.len() - from,
{
    if from < methods.len() && !all_hold(methods[from].preconditions@, state) {
        law_first_applicable(methods, state, from + 1);
    }
}

/// Whether searching the methods from `from` on for one whose preconditions
/// hold completes in this library.
pub open spec fn methods_evaluable(
    methods: Seq<Method>,
    state: Seq<(Seq<char>, Val)>,
    types: Seq<RegisteredType>,
    from: int,
) -> bool
    decreases methods.len() - from,
{
    from >= methods.len() || from < 0 || {
        &&& conditions_evaluable(methods[from].preconditions@, state, types)
        &&& (!all_hold(methods[from].preconditions@, state) ==> methods_evaluable(
            methods,
            state,
            types,
            from + 1,
        ))
    }
}

/// The first error among the methods' precondition type checks.
pub open spec fn methods_check(methods: Seq<Method>, state: Seq<(Seq<char>, Val)>) -> Result<
    (),
    Seq<char>,
>
    decreases methods.len(),
{
    if methods.len() == 0 {
        Ok(())
    } else {
        match conditions_check(methods[0].preconditions@, state) {
            Err(m) => Err(m),
            Ok(_) => methods_check(methods.drop_first(), state),
        }
    }
}

impl CompoundTask {
    /// Finds the first method, skipping the first `skip`, whose
    /// preconditions all hold; gives it with its index.
    #[verifier::rlimit(30)]
    pub fn find_method(&self, state: &HtnState, skip: usize, registry: &TypeRegistryModel) -> (r:
        Option<(&Method, usize)>)
        requires
            methods_evaluable(self.methods@, state@, registry.types@, skip as int),
            state.wf(),
        ensures
            r matches Some((m, i)) ==> first_applicable(self.methods@, state@, skip as int) == Some(
                i as int,
            ) && i < self.methods@.len() && *m == self.methods@[i as int],
            r is None ==> first_applicable(self.methods@, state@, skip as int) is None,
    {
        let mut i: usize = skip;
        while i < self.methods.len()
            invariant
                skip <= i,
                state.wf(),
                first_applicable(self.methods@, state@, skip as int) == first_applicable(
                    self.methods@,
                    state@,
                    i as int,
                ),
                methods_evaluable(self.methods@, state@, registry.types@, i as int),
            decreases self.methods@.len() - i,
        {
            if conditions_hold(&self.methods[i].preconditions, state, registry) {
                return Some((&self.methods[i], i));
            }
            i = i + 1;
        }
        None
    }

    /// Checks the types the preconditions of every method read.
    pub fn verify_conditions(&self, state: &HtnState, registry: &TypeRegistryModel) -> (r: Result<(), String>)
        ensures
            r is Ok <==> methods_check(self.methods@, state@) is Ok,
            r matches Err(m) ==> methods_check(self.methods@, state@) == Err::<(), Seq<char>>(m@),
    {
        let mut i: usize = 0;
        assert(self.methods@.skip(0) =~= self.methods@);
        while i < self.methods.len()
            invariant
                0 <= i <= self.methods@.len(),
                methods_check(self.methods@, state@) == methods_check(
                    self.methods@.skip(i as int),
                    state@,
                ),
            decreases self.methods@.len() - i,
        {
            let ghost rest = self.methods@.skip(i as int);
            assert(rest[0] == self.methods@[i as int]);
            assert(rest.drop_first() =~= self.methods@.skip(i + 1));
            match verify_condition_list(&self.methods[i].preconditions, state, registry) {
                Err(m) => return Err(m),
                Ok(_) => {},
            }
            i = i + 1;
        }
        Ok(())
    }
}

impl Task {
    /// The task's name.
    pub open spec fn name_of(self) -> String {
        match self {
            Task::Primitive(p) => p.name,
            Task::Compound(c) => c.name,
        }
    }

    /// The task's name.
    pub fn name(&self) -> (r: &String)
        ensures
            *r == self.name_of(),
    {
        match self {
            Task::Primitive(p) => &p.name,
            Task::Compound(c) => &c.name,
        }
    }

    /// The condition check of the task.
    pub open spec fn condition_check(self, state: Seq<(Seq<char>, Val)>) -> Result<(), Seq<char>> {
        match self {
            Task::Primitive(p) => conditions_check(p.preconditions@, state),
            Task::Compound(c) => methods_check(c.methods@, state),
        }
    }

    /// The effect check of the task; compound tasks have no effects.
    pub open spec fn effect_check(self, state: Seq<(Seq<char>, Val)>, types: Seq<RegisteredType>) -> Result<
        (),
        Seq<char>,
    > {
        match self {
            Task::Primitive(p) => p.effect_check(state, types),
            Task::Compound(_) => Ok(()),
        }
    }

    /// The operator check of the task; compound tasks have no operator.
    pub open spec fn operator_check(
        self,
        state_type: Seq<char>,
        state: Seq<(Seq<char>, Val)>,
        types: Seq<RegisteredType>,
    ) -> Result<(), Seq<char>> {
        match self {
            Task::Primitive(p) => p.operator_check(state_type, state, types),
            Task::Compound(_) => Ok(()),
        }
    }

    /// Checks the types the task's effects write.
    pub fn verify_effects(&self, state: &HtnState, registry: &TypeRegistryModel) -> (r: Result<(), String>)
        ensures
            r is Ok <==> self.effect_check(state@, registry.types@) is Ok,
            r matches Err(m) ==> self.effect_check(state@, registry.types@) == Err::<
                (),
                Seq<char>,
            >(m@),
    {
        match self {
            Task::Primitive(p) => p.verify_effects(state, registry),
            Task::Compound(_) => Ok(()),
        }
    }

    /// Checks the types the task's conditions read.
    pub fn verify_conditions(&self, state: &HtnState, registry: &TypeRegistryModel) -> (r: Result<(), String>)
        ensures
            r is Ok <==> self.condition_check(state@) is Ok,
            r matches Err(m) ==> self.condition_check(state@) == Err::<(), Seq<char>>(m@),
    {
        match self {
            Task::Primitive(p) => p.verify_conditions(state, registry),
            Task::Compound(c) => c.verify_conditions(state, registry),
        }
    }
}

/// Index of the first task named `name`.
pub open spec fn first_task(tasks: Seq<Task>, name: Seq<char>) -> Option<int>
    decreases tasks.len(),
{
    if tasks.len() == 0 {
        None
    } else if tasks[0].name_of()@ == name {
        Some(0)
    } else {
        match first_task(tasks.drop_first(), name) {
            Some(i) => Some(i + 1),
            None => None,
        }
    }
}

/// Scanning the tasks in order and meeting `name` first at `i` (or never)
/// determines `first_task`.
pub proof fn lemma_first_task(tasks: Seq<Task>, name: Seq<char>, i: int)
    requires
        0 <= i <= tasks.len(),
        forall|j: int| 0 <= j < i ==> #[trigger] tasks[j].name_of()@ != name,
        i < tasks.len() ==> tasks[i].name_of()@ == name,
    ensures
        first_task(tasks, name) == (if i < tasks.len() { Some(i) } else { None::<int> }),
    decreases i,
{
    if tasks.len() > 0 && i > 0 {
        let rest = tasks.drop_first();
        assert forall|j: int| 0 <= j < i - 1 implies #[trigger] rest[j].name_of()@ != name by {
            assert(rest[j] == tasks[j + 1]);
        }
        lemma_first_task(rest, name, i - 1);
    }
}

/// `first_task` points at a task with that name.
pub proof fn lemma_first_task_bounds(tasks: Seq<Task>, name: Seq<char>)
    ensures
        first_task(tasks, name) matches Some(i) ==> 0 <= i < tasks.len() && tasks[i].name_of()@
            == name,
    decreases tasks.len(),
{
    if tasks.len() > 0 && tasks[0].name_of()@ != name {
        lemma_first_task_bounds(tasks.drop_first(), name);
    }
}

/// The task named `name`, if any.
pub open spec fn task_named(tasks: Seq<Task>, name: Seq<char>) -> Option<Task> {
    match first_task(tasks, name) {
        Some(i) => Some(tasks[i]),
        None => None,
    }
}

/// The first error among the tasks' condition checks.
pub open spec fn tasks_condition_check(tasks: Seq<Task>, state: Seq<(Seq<char>, Val)>) -> Result<
    (),
    Seq<char>,
>
    decreases tasks.len(),
{
    if tasks.len() == 0 {
        Ok(())
    } else {
        match tasks[0].condition_check(state) {
            Err(m) => Err(m),
            Ok(_) => tasks_condition_check(tasks.drop_first(), state),
        }
    }
}

/// The first error among the tasks' effect checks.
pub open spec fn tasks_effect_check(
    tasks: Seq<Task>,
    state: Seq<(Seq<char>, Val)>,
    types: Seq<RegisteredType>,
) -> Result<(), Seq<char>>
    decreases tasks.len(),
{
    if tasks.len() == 0 {
        Ok(())
    } else {
        match tasks[0].effect_check(state, types) {
            Err(m) => Err(m),
            Ok(_) => tasks_effect_check(tasks.drop_first(), state, types),
        }
    }
}

/// The first error among the tasks' operator checks.
pub open spec fn tasks_operator_check(
    tasks: Seq<Task>,
    state_type: Seq<char>,
    state: Seq<(Seq<char>, Val)>,
    types: Seq<RegisteredType>,
) -> Result<(), Seq<char>>
    decreases tasks.len(),
{
    if tasks.len() == 0 {
        Ok(())
    } else {
        match tasks[0].operator_check(state_type, state, types) {
            Err(m) => Err(m),
            Ok(_) => tasks_operator_check(tasks.drop_first(), state_type, state, types),
        }
    }
}

/// The operator checks of a list of tasks, in order.
pub fn verify_task_operators(tasks: &Vec<Task>, state: &HtnState, registry: &TypeRegistryModel) -> (r:
    Result<(), String>)
    ensures
        r is Ok <==> tasks_operator_check(tasks@, state.record_type@, state@, registry.types@) is Ok,
        r matches Err(m) ==> tasks_operator_check(tasks@, state.record_type@, state@, registry.types@)
            == Err::<(), Seq<char>>(m@),
{
    let mut i: usize = 0;
    assert(tasks@.skip(0) =~= tasks@);
    while i < tasks.len()
        invariant
            0 <= i <= tasks@.len(),
            tasks_operator_check(tasks@, state.record_type@, state@, registry.types@)
                == tasks_operator_check(tasks@.skip(i as int), state.record_type@, state@, registry.types@),
        decreases tasks@.len() - i,
    {
        let ghost rest = tasks@.skip(i as int);
        assert(rest[0] == tasks@[i as int]);
        assert(rest.drop_first() =~= tasks@.skip(i + 1));
        match &tasks[i] {
            Task::Primitive(p) => match p.verify_operator(state, registry) {
                Err(m) => return Err(m),
                Ok(_) => {},
            },
            Task::Compound(_) => {},
        }
        i = i + 1;
    }
    Ok(())
}

impl HTN {
    /// A builder for a task network with no tasks and the default schema.
    pub fn builder() -> (r: HTNBuilder)
        ensures
            r.tasks@.len() == 0,
            r.schema.version@.len() == 0,
    {
        HTNBuilder { tasks: Vec::new(), schema: HtnSchema { version: String::new() } }
    }

    /// The version declared in the schema block.
    pub fn version(&self) -> (r: &String)
        ensures
            *r == self.schema.version,
    {
        &self.schema.version
    }

    /// The first task named `name`.
    pub fn get_task_by_name(&self, name: &String) -> (r: Option<&Task>)
        ensures
            r matches Some(t) ==> task_named(self.tasks@, name@) == Some(*t),
            r is None ==> task_named(self.tasks@, name@) is None,
    {
        let mut i: usize = 0;
        while i < self.tasks.len()
            invariant
                0 <= i <= self.tasks@.len(),
                forall|j: int| 0 <= j < i ==> #[trigger] self.tasks@[j].name_of()@ != name@,
            decreases self.tasks@.len() - i,
        {
            if *self.tasks[i].name() == *name {
                proof {
                    lemma_first_task(self.tasks@, name@, i as int);
                }
                return Some(&self.tasks[i]);
            }
            i = i + 1;
        }
        proof {
            lemma_first_task(self.tasks@, name@, i as int);
        }
        None
    }

    /// The first task of the network.
    pub fn root_task(&self) -> (r: &Task)
        requires
            self.tasks@.len() > 0,
        ensures
            *r == self.tasks@[0],
    {
        &self.tasks[0]
    }

    /// Checks the types every task's conditions read, in task order.
    pub fn verify_conditions(&self, state: &HtnState, registry: &TypeRegistryModel) -> (r: Result<(), String>)
        ensures
            r is Ok <==> tasks_condition_check(self.tasks@, state@) is Ok,
            r matches Err(m) ==> tasks_condition_check(self.tasks@, state@) == Err::<
                (),
                Seq<char>,
            >(m@),
    {
        let mut i: usize = 0;
        assert(self.tasks@.skip(0) =~= self.tasks@);
        while i < self.tasks.len()
            invariant
                0 <= i <= self.tasks@.len(),
                tasks_condition_check(self.tasks@, state@) == tasks_condition_check(
                    self.tasks@.skip(i as int),
                    state@,
                ),
            decreases self.tasks@.len() - i,
        {
            let ghost rest = self.tasks@.skip(i as int);
            assert(rest[0] == self.tasks@[i as int]);
            assert(rest.drop_first() =~= self.tasks@.skip(i + 1));
            match self.tasks[i].verify_conditions(state, registry) {
                Err(m) => return Err(m),
                Ok(_) => {},
            }
            i = i + 1;
        }
        Ok(())
    }

    /// Checks the types every task's effects write, in task order.
    pub fn verify_effects(&self, state: &HtnState, registry: &TypeRegistryModel) -> (r: Result<(), String>)
        ensures
            r is Ok <==> tasks_effect_check(self.tasks@, state@, registry.types@) is Ok,
            r matches Err(m) ==> tasks_effect_check(self.tasks@, state@, registry.types@) == Err::<
                (),
                Seq<char>,
            >(m@),
    {
        let mut i: usize = 0;
        assert(self.tasks@.skip(0) =~= self.tasks@);
        while i < self.tasks.len()
            invariant
                0 <= i <= self.tasks@.len(),
                tasks_effect_check(self.tasks@, state@, registry.types@) == tasks_effect_check(
                    self.tasks@.skip(i as int),
                    state@,
                    registry.types@,
                ),
            decreases self.tasks@.len() - i,
        {
            let ghost rest = self.tasks@.skip(i as int);
            assert(rest[0] == self.tasks@[i as int]);
            assert(rest.drop_first() =~= self.tasks@.skip(i + 1));
            match self.tasks[i].verify_effects(state, registry) {
                Err(m) => return Err(m),
                Ok(_) => {},
            }
            i = i + 1;
        }
        Ok(())
    }

    /// Checks every primitive task's operator, in task order.
    pub fn verify_operators(&self, state: &HtnState, registry: &TypeRegistryModel) -> (r: Result<(), String>)
        ensures
            r is Ok <==> tasks_operator_check(self.tasks@, state.record_type@, state@, registry.types@)
                is Ok,
            r matches Err(m) ==> tasks_operator_check(
                self.tasks@,
                state.record_type@,
                state@,
                registry.types@,
            ) == Err::<(), Seq<char>>(m@),
    {
        verify_task_operators(&self.tasks, state, registry)
    }

    /// The full check: conditions, then effects, then operators.
    pub open spec fn check_all(self, state_type: Seq<char>, state: Seq<(Seq<char>, Val)>, types: Seq<
        RegisteredType,
    >) -> Result<(), Seq<char>> {
        match tasks_condition_check(self.tasks@, state) {
            Err(m) => Err(m),
            Ok(_) => match tasks_effect_check(self.tasks@, state, types) {
                Err(m) => Err(m),
                Ok(_) => tasks_operator_check(self.tasks@, state_type, state, types),
            },
        }
    }

    /// Checks that every field and type the network uses exists with the
    /// type it is used at: conditions, then effects, then operators.
    pub fn verify_all(&self, state: &HtnState, registry: &TypeRegistryModel) -> (r: Result<(), String>)
        ensures
            r is Ok <==> self.check_all(state.record_type@, state@, registry.types@) is Ok,
            r matches Err(m) ==> self.check_all(state.record_type@, state@, registry.types@) == Err::<
                (),
                Seq<char>,
            >(m@),
    {
        match self.verify_conditions(state, registry) {
            Err(m) => return Err(m),
            Ok(_) => {},
        }
        match self.verify_effects(state, registry) {
            Err(m) => return Err(m),
            Ok(_) => {},
        }
        self.verify_operators(state, registry)
    }

    /// Checks conditions, then effects, leaving operators unchecked.
    pub fn verify_without_operators(&self, state: &HtnState, registry: &TypeRegistryModel) -> (r: Result<
        (),
        String,
    >)
        ensures
            r is Ok <==> (tasks_condition_check(self.tasks@, state@) is Ok && tasks_effect_check(
                self.tasks@,
                state@,
                registry.types@,
            ) is Ok),
            r matches Err(m) ==> match tasks_condition_check(self.tasks@, state@) {
                Err(e) => e == m@,
                Ok(_) => tasks_effect_check(self.tasks@, state@, registry.types@) == Err::<
                    (),
                    Seq<char>,
                >(m@),
            },
    {
        match self.verify_conditions(state, registry) {
            Err(m) => return Err(m),
            Ok(_) => {},
        }
        self.verify_effects(state, registry)
    }
}

/// Builds a task network task by task.
pub struct HTNBuilder {
    pub tasks: Vec<Task>,
    pub schema: HtnSchema,
}

impl HTNBuilder {
    /// Adds a primitive task.
    pub fn primitive_task(self, task: PrimitiveTask) -> (r: HTNBuilder)
        ensures
            r.tasks@ == self.tasks@.push(Task::Primitive(task)),
            r.schema == self.schema,
    {
        let mut b = self;
        b.tasks.push(Task::Primitive(task));
        b
    }

    /// Adds a compound task.
    pub fn compound_task(self, task: CompoundTask) -> (r: HTNBuilder)
        ensures
            r.tasks@ == self.tasks@.push(Task::Compound(task)),
            r.schema == self.schema,
    {
        let mut b = self;
        b.tasks.push(Task::Compound(task));
        b
    }

    /// Sets the schema.
    pub fn schema(self, meta: HtnSchema) -> (r: HTNBuilder)
        ensures
            r.tasks@ == self.tasks@,
            r.schema == meta,
    {
        let mut b = self;
        b.schema = meta;
        b
    }

    /// Checks every primitive task's operator; gives the builder back when
    /// all pass.
    pub fn verify_operators(self, state: &HtnState, registry: &TypeRegistryModel) -> (r: Result<
        HTNBuilder,
        String,
    >)
        ensures
            r matches Ok(b) ==> b.tasks@ == self.tasks@ && b.schema == self.schema,
            r is Ok <==> tasks_operator_check(self.tasks@, state.record_type@, state@, registry.types@)
                is Ok,
            r matches Err(m) ==> tasks_operator_check(
                self.tasks@,
                state.record_type@,
                state@,
                registry.types@,
            ) == Err::<(), Seq<char>>(m@),
    {
        match verify_task_operators(&self.tasks, state, registry) {
            Err(m) => Err(m),
            Ok(_) => Ok(self),
        }
    }

    /// The task network.
    pub fn build(self) -> (r: HTN)
        ensures
            r.tasks@ == self.tasks@,
            r.schema == self.schema,
    {
        HTN { tasks: self.tasks, schema: self.schema }
    }
}

/// Builds a method.
pub struct MethodBuilder {
    pub name: Option<String>,
    pub preconditions: Vec<HtnCondition>,
    pub subtasks: Vec<String>,
}

impl MethodBuilder {
    /// A builder for an unnamed method with no preconditions and no subtasks.
    pub fn new() -> (r: MethodBuilder)
        ensures
            r.name is None,
            r.preconditions@.len() == 0,
            r.subtasks@.len() == 0,
    {
        MethodBuilder { name: None, preconditions: Vec::new(), subtasks: Vec::new() }
    }

    /// Names the method.
    pub fn name(self, name: String) -> (r: MethodBuilder)
        ensures
            r.name == Some(name),
            r.preconditions@ == self.preconditions@,
            r.subtasks@ == self.subtasks@,
    {
        let mut b = self;
        b.name = Some(name);
        b
    }

    /// Adds a precondition.
    pub fn precondition(self, cond: HtnCondition) -> (r: MethodBuilder)
        ensures
            r.name == self.name,
            r.preconditions@ == self.preconditions@.push(cond),
            r.subtasks@ == self.subtasks@,
    {
        let mut b = self;
        b.preconditions.push(cond);
        b
    }

    /// Adds a subtask, by name.
    pub fn subtask(self, task_name: String) -> (r: MethodBuilder)
        ensures
            r.name == self.name,
            r.preconditions@ == self.preconditions@,
            r.subtasks@ == self.subtasks@.push(task_name),
    {
        let mut b = self;
        b.subtasks.push(task_name);
        b
    }

    /// The method.
    pub fn build(self) -> (r: Method)
        ensures
            r.name == self.name,
            r.preconditions@ == self.preconditions@,
            r.subtasks@ == self.subtasks@,
    {
        Method { name: self.name, preconditions: self.preconditions, subtasks: self.subtasks }
    }
}

/// Builds a primitive task.
pub struct PrimitiveTaskBuilder {
    pub name: String,
    pub operator: Option<Operator>,
    pub preconditions: Vec<HtnCondition>,
    pub effects: Vec<Effect>,
    pub expected_effects: Vec<Effect>,
}

impl PrimitiveTaskBuilder {
    /// A builder for a task named `name` with nothing else set.
    pub fn new(name: String) -> (r: PrimitiveTaskBuilder)
        ensures
            r.name == name,
            r.operator is None,
            r.preconditions@.len() == 0,
            r.effects@.len() == 0,
            r.expected_effects@.len() == 0,
    {
        PrimitiveTaskBuilder {
            name,
            operator: None,
            preconditions: Vec::new(),
            effects: Vec::new(),
            expected_effects: Vec::new(),
        }
    }

    /// Sets the operator.
    pub fn operator(self, op: Operator) -> (r: PrimitiveTaskBuilder)
        ensures
            r.name == self.name,
            r.operator == Some(op),
            r.preconditions@ == self.preconditions@,
            r.effects@ == self.effects@,
            r.expected_effects@ == self.expected_effects@,
    {
        let mut b = self;
        b.operator = Some(op);
        b
    }

    /// Adds a precondition.
    pub fn precondition(self, cond: HtnCondition) -> (r: PrimitiveTaskBuilder)
        ensures
            r.name == self.name,
            r.operator == self.operator,
            r.preconditions@ == self.preconditions@.push(cond),
            r.effects@ == self.effects@,
            r.expected_effects@ == self.expected_effects@,
    {
        let mut b = self;
        b.preconditions.push(cond);
        b
    }

    /// Adds an effect.
    pub fn effect(self, eff: Effect) -> (r: PrimitiveTaskBuilder)
        ensures
            r.name == self.name,
            r.operator == self.operator,
            r.preconditions@ == self.preconditions@,
            r.effects@ == self.effects@.push(eff),
            r.expected_effects@ == self.expected_effects@,
    {
        let mut b = self;
        b.effects.push(eff);
        b
    }

    /// Adds an expected effect.
    pub fn expected_effect(self, eff: Effect) -> (r: PrimitiveTaskBuilder)
        ensures
            r.name == self.name,
            r.operator == self.operator,
            r.preconditions@ == self.preconditions@,
            r.effects@ == self.effects@,
            r.expected_effects@ == self.expected_effects@.push(eff),
    {
        let mut b = self;
        b.expected_effects.push(eff);
        b
    }

    /// The task; an operator is required.
    pub fn build(self) -> (r: PrimitiveTask)
        requires
            self.operator is Some,
        ensures
            r.name == self.name,
            Some(r.operator) == self.operator,
            r.preconditions@ == self.preconditions@,
            r.effects@ == self.effects@,
            r.expected_effects@ == self.expected_effects@,
    {
        let op = match self.operator {
            Some(op) => op,
            None => Operator::Trigger { name: String::new(), params: Vec::new() },
        };
        PrimitiveTask {
            name: self.name,
            operator: op,
            preconditions: self.preconditions,
            effects: self.effects,
            expected_effects: self.expected_effects,
        }
    }
}

/// Builds a compound task.
pub struct CompoundTaskBuilder {
    pub name: String,
    pub methods: Vec<Method>,
}

impl CompoundTaskBuilder {
    /// A builder for a task named `name` with no methods.
    pub fn new(name: String) -> (r: CompoundTaskBuilder)
        ensures
            r.name == name,
            r.methods@.len() == 0,
    {
        CompoundTaskBuilder { name, methods: Vec::new() }
    }

    /// Adds a method.
    pub fn method(self, method: Method) -> (r: CompoundTaskBuilder)
        ensures
            r.name == self.name,
            r.methods@ == self.methods@.push(method),
    {
        let mut b = self;
        b.methods.push(method);
        b
    }

    /// The task.
    pub fn build(self) -> (r: CompoundTask)
        ensures
            r.name == self.name,
            r.methods@ == self.methods@,
    {
        CompoundTask { name: self.name, methods: self.methods }
    }
}

/// Evaluates the conditions in order, stopping at the first false one;
/// `None` when one it reaches cannot be evaluated.
#[verifier::rlimit(30)]
pub(crate) fn try_conditions_hold(cs: &Vec<HtnCondition>, state: &HtnState, registry: &TypeRegistryModel) -> (r:
    Option<bool>)
    requires
        state.wf(),
    ensures
        r is Some <==> conditions_evaluable(cs@, state@, registry.types@),
        r matches Some(b) ==> b == all_hold(cs@, state@),
{
    let mut i: usize = 0;
    assert(cs@.skip(0) =~= cs@);
    while i < cs.len()
        invariant
            0 <= i <= cs@.len(),
            state.wf(),
            all_hold(cs@, state@) == all_hold(cs@.skip(i as int), state@),
            conditions_evaluable(cs@, state@, registry.types@) == conditions_evaluable(
                cs@.skip(i as int),
                state@,
                registry.types@,
            ),
        decreases cs@.len() - i,
    {
        let ghost rest = cs@.skip(i as int);
        assert(rest[0] == cs@[i as int]);
        assert(rest.drop_first() =~= cs@.skip(i + 1));
        if !cs[i].can_evaluate(state, registry) {
            return None;
        }
        if !cs[i].evaluate(state, registry) {
            return Some(false);
        }
        i = i + 1;
    }
    Some(true)
}

/// Searches the methods from `skip` on for the first whose preconditions
/// hold; `None` when a precondition it reaches cannot be evaluated.
#[verifier::rlimit(30)]
pub(crate) fn try_find_method(c: &CompoundTask, state: &HtnState, skip: usize, registry: &TypeRegistryModel) -> (r:
    Option<Option<usize>>)
    requires
        state.wf(),
    ensures
        r is Some <==> methods_evaluable(c.methods@, state@, registry.types@, skip as int),
        r matches Some(Some(k)) ==> first_applicable(c.methods@, state@, skip as int) == Some(k as int)
            && k < c.methods@.len() && k < usize::MAX,
        r matches Some(None) ==> first_applicable(c.methods@, state@, skip as int) is None,
{
    let mut i: usize = skip;
    while i < c.methods.len()
        invariant
            skip <= i,
            state.wf(),
            first_applicable(c.methods@, state@, skip as int) == first_applicable(
                c.methods@,
                state@,
                i as int,
            ),
            methods_evaluable(c.methods@, state@, registry.types@, skip as int) == methods_evaluable(
                c.methods@,
                state@,
                registry.types@,
                i as int,
            ),
        decreases c.methods@.len() - i,
    {
        match try_conditions_hold(&c.methods[i].preconditions, state, registry) {
            None => return None,
            Some(true) => return Some(Some(i)),
            Some(false) => {},
        }
        i = i + 1;
    }
    Some(None)
}

/// The number of leading effects that this library applies one after
/// another from `state`: each is applicable to the state the ones before it
/// leave, and needs no floating-point arithmetic.
pub open spec fn applicable_prefix(es: Seq<Effect>, state: Seq<(Seq<char>, Val)>, types: Seq<RegisteredType>) -> nat
    decreases es.len(),
{
    if es.len() > 0 && es[0].applicable(state, types) && !es[0].needs_float_arithmetic() {
        1 + applicable_prefix(es.drop_first(), es[0].applied(state), types)
    } else {
        0
    }
}

/// The effects all apply exactly when the applicable prefix is all of them.
pub proof fn lemma_applicable_prefix(es: Seq<Effect>, state: Seq<(Seq<char>, Val)>, types: Seq<RegisteredType>)
    ensures
        applicable_prefix(es, state, types) <= es.len(),
        effects_applicable(es, state, types) <==> applicable_prefix(es, state, types) == es.len(),
    decreases es.len(),
{
    if es.len() > 0 {
        lemma_applicable_prefix(es.drop_first(), es[0].applied(state), types);
    }
}

/// Applying one more effect after a list is applying the longer list.
pub proof fn lemma_effects_applied_push(es: Seq<Effect>, e: Effect, state: Seq<(Seq<char>, Val)>)
    ensures
        effects_applied(es.push(e), state) == e.applied(effects_applied(es, state)),
    decreases es.len(),
{
    if es.len() > 0 {
        assert(es.push(e)[0] == es[0]);
        assert(es.push(e).drop_first() =~= es.drop_first().push(e));
        lemma_effects_applied_push(es.drop_first(), e, es[0].applied(state));
    } else {
        assert(es.push(e)[0] == e);
        assert(es.push(e).drop_first() =~= Seq::<Effect>::empty());
        assert(effects_applied(Seq::<Effect>::empty(), e.applied(state)) == e.applied(state));
    }
}

/// How applying a list of effects in planning ends: with the state they
/// leave, at an effect that cannot be applied, or at an increment of an
/// `f32` field whose sum of bits `a` and `b` is not given.
pub enum EffectsRunV {
    Applied(Seq<(Seq<char>, Val)>),
    Fault,
    NeedSum(u32, u32),
}

/// Applies the effects in order from `state`, taking the sums that
/// increments of `f32` fields make from `sums` (see
/// [`Effect::applied_with`]).
pub open spec fn effects_run(
    es: Seq<Effect>,
    state: Seq<(Seq<char>, Val)>,
    types: Seq<RegisteredType>,
    sums: Seq<FloatSum>,
) -> EffectsRunV
    decreases es.len(),
{
    if es.len() == 0 {
        EffectsRunV::Applied(state)
    } else if !es[0].applicable(state, types) {
        EffectsRunV::Fault
    } else {
        match es[0].applied_with(state, sums) {
            Err((a, b)) => EffectsRunV::NeedSum(a, b),
            Ok(next) => effects_run(es.drop_first(), next, types, sums),
        }
    }
}

/// How [`run_effects`] ended.
#[derive(Debug, PartialEq, Eq)]
pub enum EffectsRun {
    Applied,
    Fault,
    NeedSum { left: u32, right: u32 },
}

/// Applies the effects in order (see [`effects_run`]): `Applied` with the
/// state they leave, or where it stopped.
#[verifier::rlimit(40)]
pub fn run_effects(es: &Vec<Effect>, state: &mut HtnState, registry: &TypeRegistryModel, sums: &Vec<FloatSum>) -> (r:
    EffectsRun)
    requires
        old(state).wf(),
    ensures
        final(state).wf(),
        final(state).record_type == old(state).record_type,
        match effects_run(es@, old(state)@, registry.types@, sums@) {
            EffectsRunV::Applied(after) => r is Applied && final(state)@ == after,
            EffectsRunV::Fault => r is Fault,
            EffectsRunV::NeedSum(a, b) => r == (EffectsRun::NeedSum { left: a, right: b }),
        },
{
    let mut i: usize = 0;
    assert(es@.skip(0) =~= es@);
    while i < es.len()
        invariant
            0 <= i <= es@.len(),
            state.wf(),
            state.record_type == old(state).record_type,
            effects_run(es@, old(state)@, registry.types@, sums@) == effects_run(
                es@.skip(i as int),
                state@,
                registry.types@,
                sums@,
            ),
        decreases es@.len() - i,
    {
        let ghost rest = es@.skip(i as int);
        assert(rest[0] == es@[i as int]);
        assert(rest.drop_first() =~= es@.skip(i + 1));
        match &es[i] {
            Effect::IncrementFloat { field, by, .. } => {
                let current: Option<Option<u32>> = match state.get(field) {
                    None => None,
                    Some(Value::Float { double: false, bits }) => Some(Some(*bits as u32)),
                    Some(_) => Some(None),
                };
                match current {
                    None => {
                        return EffectsRun::Fault;
                    },
                    Some(None) => {},
                    Some(Some(a)) => match find_sum(sums, a, *by) {
                        None => {
                            return EffectsRun::NeedSum { left: a, right: *by };
                        },
                        Some(total) => {
                            state.set(field, Value::Float { double: false, bits: total as u64 });
                        },
                    },
                }
            },
            _ => {
                if !es[i].can_apply(state, registry) {
                    return EffectsRun::Fault;
                }
                es[i].apply(state, registry);
            },
        }
        i = i + 1;
    }
    assert(es@.skip(i as int) =~= Seq::<Effect>::empty());
    EffectsRun::Applied
}

/// Applies the effects from position `start` on, in order, for as long as
/// this library can apply them (see [`applicable_prefix`]), and returns the
/// position of the first one it did not apply (the length when it applied
/// them all).
#[verifier::rlimit(30)]
pub fn apply_effects_from(es: &Vec<Effect>, start: usize, state: &mut HtnState, registry: &TypeRegistryModel) -> (r:
    usize)
    requires
        start <= es@.len(),
        old(state).wf(),
    ensures
        start <= r <= es@.len(),
        r == start + applicable_prefix(es@.skip(start as int), old(state)@, registry.types@),
        final(state)@ == effects_applied(es@.subrange(start as int, r as int), old(state)@),
        final(state).record_type == old(state).record_type,
        final(state).wf(),
{
    let mut i: usize = start;
    assert(es@.subrange(start as int, start as int) =~= Seq::<Effect>::empty());
    proof {
        lemma_applicable_prefix(es@.skip(start as int), old(state)@, registry.types@);
    }
    while i < es.len()
        invariant
            start <= i <= es@.len(),
            state.wf(),
            state.record_type == old(state).record_type,
            state@ == effects_applied(es@.subrange(start as int, i as int), old(state)@),
            start + applicable_prefix(es@.skip(start as int), old(state)@, registry.types@) == i
                + applicable_prefix(es@.skip(i as int), state@, registry.types@),
        decreases es@.len() - i,
    {
        let ghost rest = es@.skip(i as int);
        assert(rest[0] == es@[i as int]);
        assert(rest.drop_first() =~= es@.skip(i + 1));
        if !es[i].can_apply(state, registry) {
            return i;
        }
        es[i].apply(state, registry);
        proof {
            lemma_effects_applied_push(es@.subrange(start as int, i as int), es@[i as int], old(state)@);
            assert(es@.subrange(start as int, i as int).push(es@[i as int]) =~= es@.subrange(
                start as int,
                i + 1,
            ));
        }
        i = i + 1;
    }
    assert(es@.skip(i as int) =~= Seq::<Effect>::empty());
    i
}

} // verus!
