//! Preconditions: tests on the value of state fields.
use vstd::prelude::*;
use crate::model::{
    first_index, lemma_first_index_bounds, compare_numbers, f32_above, f32_above_exec, f32_equal, f32_equal_exec, float_is_nan, is_number, lookup, order_key, orderable, orderable_exec, resolves_enum, same_type, same_type_exec, sign,
    values_equal, values_equal_exec, variants_view, HtnState, IntKind, RegisteredType,
    TypeRegistryModel, Val, Value, VariantInfo,
};
use crate::text::{eq_text, join, text};

verus! {

/// A test on the state. A floating-point literal is held as the bit pattern
/// of the `f32` it stands for.
#[derive(Debug, Clone, PartialEq)]
#[allow(inconsistent_fields)]
pub enum HtnCondition {
    IsNone { field: String, syntax: String },
    IsSome { field: String, syntax: String },
    EqualsBool { field: String, value: bool, notted: bool, syntax: String },
    GreaterThanInt { field: String, threshold: i32, orequals: bool, syntax: String },
    GreaterThanFloat { field: String, threshold: u32, orequals: bool, syntax: String },
    GreaterThanIdentifier { field: String, other_field: String, orequals: bool, syntax: String },
    LessThanInt { field: String, threshold: i32, orequals: bool, syntax: String },
    LessThanFloat { field: String, threshold: u32, orequals: bool, syntax: String },
    LessThanIdentifier { field: String, other_field: String, orequals: bool, syntax: String },
    EqualsEnum {
        field: String,
        enum_type: String,
        enum_variant: String,
        notted: bool,
        syntax: String,
    },
    EqualsInt { field: String, value: i32, notted: bool, syntax: String },
    EqualsFloat { field: String, value: u32, notted: bool, syntax: String },
    EqualsIdentifier { field: String, other_field: String, notted: bool, syntax: String },
}

/// The mathematical model of an [`HtnCondition`]: the same shape, with
/// texts as character sequences.
pub enum CondV {
    IsNone { field: Seq<char>, syntax: Seq<char> },
    IsSome { field: Seq<char>, syntax: Seq<char> },
    EqualsBool { field: Seq<char>, value: bool, notted: bool, syntax: Seq<char> },
    GreaterThanInt { field: Seq<char>, threshold: i32, orequals: bool, syntax: Seq<char> },
    GreaterThanFloat { field: Seq<char>, threshold: u32, orequals: bool, syntax: Seq<char> },
    GreaterThanIdentifier {
        field: Seq<char>,
        other_field: Seq<char>,
        orequals: bool,
        syntax: Seq<char>,
    },
    LessThanInt { field: Seq<char>, threshold: i32, orequals: bool, syntax: Seq<char> },
    LessThanFloat { field: Seq<char>, threshold: u32, orequals: bool, syntax: Seq<char> },
    LessThanIdentifier { field: Seq<char>, other_field: Seq<char>, orequals: bool, syntax: Seq<char> },
    EqualsEnum {
        field: Seq<char>,
        enum_type: Seq<char>,
        enum_variant: Seq<char>,
        notted: bool,
        syntax: Seq<char>,
    },
    EqualsInt { field: Seq<char>, value: i32, notted: bool, syntax: Seq<char> },
    EqualsFloat { field: Seq<char>, value: u32, notted: bool, syntax: Seq<char> },
    EqualsIdentifier { field: Seq<char>, other_field: Seq<char>, notted: bool, syntax: Seq<char> },
}

impl View for HtnCondition {
    type V = CondV;

    open spec fn view(&self) -> CondV {
        match *self {
            HtnCondition::IsNone { field, syntax } => CondV::IsNone { field: field@, syntax: syntax@ },
            HtnCondition::IsSome { field, syntax } => CondV::IsSome { field: field@, syntax: syntax@ },
            HtnCondition::EqualsBool { field, value, notted, syntax } => CondV::EqualsBool {
                field: field@,
                value,
                notted,
                syntax: syntax@,
            },
            HtnCondition::GreaterThanInt { field, threshold, orequals, syntax } =>
                CondV::GreaterThanInt { field: field@, threshold, orequals, syntax: syntax@ },
            HtnCondition::GreaterThanFloat { field, threshold, orequals, syntax } =>
                CondV::GreaterThanFloat {
                field: field@,
                threshold,
                orequals,
                syntax: syntax@,
            },
            HtnCondition::GreaterThanIdentifier { field, other_field, orequals, syntax } =>
                CondV::GreaterThanIdentifier {
                field: field@,
                other_field: other_field@,
                orequals,
                syntax: syntax@,
            },
            HtnCondition::LessThanInt { field, threshold, orequals, syntax } =>
                CondV::LessThanInt { field: field@, threshold, orequals, syntax: syntax@ },
            HtnCondition::LessThanFloat { field, threshold, orequals, syntax } =>
                CondV::LessThanFloat {
                field: field@,
                threshold,
                orequals,
                syntax: syntax@,
            },
            HtnCondition::LessThanIdentifier { field, other_field, orequals, syntax } =>
                CondV::LessThanIdentifier {
                field: field@,
                other_field: other_field@,
                orequals,
                syntax: syntax@,
            },
            HtnCondition::EqualsEnum { field, enum_type, enum_variant, notted, syntax } =>
                CondV::EqualsEnum {
                field: field@,
                enum_type: enum_type@,
                enum_variant: enum_variant@,
                notted,
                syntax: syntax@,
            },
            HtnCondition::EqualsInt { field, value, notted, syntax } => CondV::EqualsInt {
                field: field@,
                value,
                notted,
                syntax: syntax@,
            },
            HtnCondition::EqualsFloat { field, value, notted, syntax } => CondV::EqualsFloat {
                field: field@,
                value,
                notted,
                syntax: syntax@,
            },
            HtnCondition::EqualsIdentifier { field, other_field, notted, syntax } =>
                CondV::EqualsIdentifier {
                field: field@,
                other_field: other_field@,
                notted,
                syntax: syntax@,
            },
        }
    }
}

/// The name of the empty variant of `Option`.
pub open spec fn none_name() -> Seq<char> {
    seq!['N', 'o', 'n', 'e']
}

/// The name of the full variant of `Option`.
pub open spec fn some_name() -> Seq<char> {
    seq!['S', 'o', 'm', 'e']
}

/// Whether an enum with these variants is an `Option`.
pub open spec fn is_option(variants: Seq<(Seq<char>, bool)>) -> bool {
    variants.len() == 2 && variants[0].0 == none_name() && variants[1].0 == some_name()
}

/// Whether the value is an `i32`.
pub open spec fn is_i32(v: Val) -> bool {
    v matches Val::Int { kind: IntKind::I32, .. }
}

/// The value of an integer.
pub open spec fn int_of(v: Val) -> int {
    match v {
        Val::Int { value, .. } => value,
        _ => 0,
    }
}

/// Index of the first variant named `name`.
pub open spec fn first_variant(variants: Seq<(Seq<char>, bool)>, name: Seq<char>) -> Option<int> {
    if exists|i: int| 0 <= i < variants.len() && #[trigger] variants[i].0 == name {
        let i = choose|i: int|
            0 <= i < variants.len() && #[trigger] variants[i].0 == name && forall|j: int|
                0 <= j < i ==> #[trigger] variants[j].0 != name;
        Some(i)
    } else {
        None
    }
}

/// Finds the first variant named `name`.
pub fn find_variant(variants: &Vec<VariantInfo>, name: &String) -> (r: Option<usize>)
    ensures
        r matches Some(i) ==> i < variants@.len() && first_variant(variants_view(variants@), name@)
            == Some(i as int),
        r is None ==> first_variant(variants_view(variants@), name@) is None,
{
    let ghost vs = variants_view(variants@);
    let mut i: usize = 0;
    while i < variants.len()
        invariant
            0 <= i <= variants@.len(),
            vs == variants_view(variants@),
            forall|j: int| 0 <= j < i ==> #[trigger] vs[j].0 != name@,
        decreases variants@.len() - i,
    {
        if variants[i].name == *name {
            proof {
                assert(vs[i as int].0 == name@);
                let k = choose|k: int|
                    0 <= k < vs.len() && #[trigger] vs[k].0 == name@ && forall|j: int|
                        0 <= j < k ==> #[trigger] vs[j].0 != name@;
                assert(k == i) by {
                    if k < i {
                        assert(vs[k].0 != name@);
                    } else if k > i {
                        assert(vs[i as int].0 != name@);
                    }
                }
            }
            return Some(i);
        }
        i = i + 1;
    }
    None
}

/// Whether the first variant named `name` exists and carries no data.
pub open spec fn unit_variant(variants: Seq<(Seq<char>, bool)>, name: Seq<char>) -> bool {
    match first_variant(variants, name) {
        Some(i) => variants[i].1,
        None => false,
    }
}

impl HtnCondition {
    /// The text the condition was written as.
    pub open spec fn syntax_of(self) -> String {
        match self {
            HtnCondition::IsNone { syntax, .. } => syntax,
            HtnCondition::IsSome { syntax, .. } => syntax,
            HtnCondition::EqualsBool { syntax, .. } => syntax,
            HtnCondition::GreaterThanInt { syntax, .. } => syntax,
            HtnCondition::GreaterThanFloat { syntax, .. } => syntax,
            HtnCondition::GreaterThanIdentifier { syntax, .. } => syntax,
            HtnCondition::LessThanInt { syntax, .. } => syntax,
            HtnCondition::LessThanFloat { syntax, .. } => syntax,
            HtnCondition::LessThanIdentifier { syntax, .. } => syntax,
            HtnCondition::EqualsEnum { syntax, .. } => syntax,
            HtnCondition::EqualsInt { syntax, .. } => syntax,
            HtnCondition::EqualsFloat { syntax, .. } => syntax,
            HtnCondition::EqualsIdentifier { syntax, .. } => syntax,
        }
    }

    /// The text the condition was written as.
    pub fn syntax(&self) -> (r: String)
        ensures
            r == self.syntax_of(),
    {
        match self {
            HtnCondition::IsNone { syntax, .. } => syntax.clone(),
            HtnCondition::IsSome { syntax, .. } => syntax.clone(),
            HtnCondition::EqualsBool { syntax, .. } => syntax.clone(),
            HtnCondition::GreaterThanInt { syntax, .. } => syntax.clone(),
            HtnCondition::GreaterThanFloat { syntax, .. } => syntax.clone(),
            HtnCondition::GreaterThanIdentifier { syntax, .. } => syntax.clone(),
            HtnCondition::LessThanInt { syntax, .. } => syntax.clone(),
            HtnCondition::LessThanFloat { syntax, .. } => syntax.clone(),
            HtnCondition::LessThanIdentifier { syntax, .. } => syntax.clone(),
            HtnCondition::EqualsEnum { syntax, .. } => syntax.clone(),
            HtnCondition::EqualsInt { syntax, .. } => syntax.clone(),
            HtnCondition::EqualsFloat { syntax, .. } => syntax.clone(),
            HtnCondition::EqualsIdentifier { syntax, .. } => syntax.clone(),
        }
    }

    /// Whether evaluating the condition on `state` completes: an enum test
    /// names a data-less variant of an enum field and a registered enum
    /// type, an ordering compares two numbers of one type that are not NaN,
    /// and an `Option` test reads an enum field.
    pub open spec fn evaluable(self, state: Seq<(Seq<char>, Val)>, types: Seq<RegisteredType>) -> bool {
        match self {
            HtnCondition::EqualsEnum { field, enum_type, enum_variant, .. } => match lookup(
                state,
                field@,
            ) {
                Some(Val::Enum { variants, .. }) => unit_variant(variants, enum_variant@)
                    && resolves_enum(types, enum_type@),
                Some(_) => false,
                None => true,
            },
            HtnCondition::GreaterThanIdentifier { field, other_field, .. }
            | HtnCondition::LessThanIdentifier { field, other_field, .. } => match (
                lookup(state, field@),
                lookup(state, other_field@),
            ) {
                (Some(a), Some(b)) => orderable(a, b),
                _ => true,
            },
            HtnCondition::IsNone { field, .. } | HtnCondition::IsSome { field, .. } => match lookup(
                state,
                field@,
            ) {
                Some(v) => v is Enum,
                None => true,
            },
            _ => true,
        }
    }

    /// The truth of the condition on `state`.
    ///
    /// A test on a missing field, or on a field of another type, is false.
    /// An identifier equality reads the two fields and ignores `notted`.
    /// Floating-point tests compare as IEEE-754 does (a NaN is equal to
    /// nothing and ordered against nothing); a `<` or `<=` test against a
    /// floating-point literal compares as `>` or `>=` does.
    pub open spec fn holds(self, state: Seq<(Seq<char>, Val)>) -> bool {
        match self {
            HtnCondition::IsNone { field, .. } => match lookup(state, field@) {
                Some(Val::Enum { variants, variant, .. }) => is_option(variants) && variant
                    == none_name(),
                _ => false,
            },
            HtnCondition::IsSome { field, .. } => match lookup(state, field@) {
                Some(Val::Enum { variants, variant, .. }) => is_option(variants) && variant
                    == some_name(),
                _ => false,
            },
            HtnCondition::EqualsBool { field, value, notted, .. } => match lookup(state, field@) {
                Some(Val::Bool(b)) => if notted { b != value } else { b == value },
                _ => false,
            },
            HtnCondition::GreaterThanInt { field, threshold, orequals, .. } => match lookup(
                state,
                field@,
            ) {
                Some(v) => is_i32(v) && if orequals { int_of(v) >= threshold } else { int_of(v) > threshold },
                None => false,
            },
            HtnCondition::LessThanInt { field, threshold, orequals, .. } => match lookup(
                state,
                field@,
            ) {
                Some(v) => is_i32(v) && if orequals { int_of(v) <= threshold } else { int_of(v) < threshold },
                None => false,
            },
            HtnCondition::EqualsInt { field, value, notted, .. } => match lookup(state, field@) {
                Some(v) => is_i32(v) && if notted { int_of(v) != value } else { int_of(v) == value },
                None => false,
            },
            HtnCondition::EqualsEnum { field, enum_variant, notted, .. } => match lookup(
                state,
                field@,
            ) {
                Some(Val::Enum { variant, .. }) => (variant == enum_variant@) != notted,
                _ => false,
            },
            HtnCondition::EqualsIdentifier { field, other_field, .. } => match (
                lookup(state, field@),
                lookup(state, other_field@),
            ) {
                (Some(a), Some(b)) => values_equal(a, b),
                _ => false,
            },
            HtnCondition::GreaterThanIdentifier { field, other_field, orequals, .. } => match (
                lookup(state, field@),
                lookup(state, other_field@),
            ) {
                (Some(a), Some(b)) => if orequals {
                    sign(order_key(a) - order_key(b)) >= 0
                } else {
                    sign(order_key(a) - order_key(b)) > 0
                },
                _ => false,
            },
            HtnCondition::LessThanIdentifier { field, other_field, orequals, .. } => match (
                lookup(state, field@),
                lookup(state, other_field@),
            ) {
                (Some(a), Some(b)) => if orequals {
                    sign(order_key(a) - order_key(b)) <= 0
                } else {
                    sign(order_key(a) - order_key(b)) < 0
                },
                _ => false,
            },
            HtnCondition::EqualsFloat { field, value, notted, .. } => match lookup(state, field@) {
                Some(Val::Float { double: false, bits }) => f32_equal(bits, value as u64) != notted,
                _ => false,
            },
            HtnCondition::GreaterThanFloat { field, threshold, orequals, .. }
            | HtnCondition::LessThanFloat { field, threshold, orequals, .. } => match lookup(
                state,
                field@,
            ) {
                Some(Val::Float { double: false, bits }) => f32_above(bits, threshold as u64, orequals),
                _ => false,
            },
        }
    }

    /// Evaluates the condition on `state`.
    #[verifier::rlimit(30)]
    pub fn evaluate(&self, state: &HtnState, registry: &TypeRegistryModel) -> (r: bool)
        requires
            self.evaluable(state@, registry.types@),
            state.wf(),
        ensures
            r == self.holds(state@),
    {
        match self {
            HtnCondition::IsNone { field, .. } | HtnCondition::IsSome { field, .. } => {
                match state.get(field) {
                    Some(Value::Enum { variants, variant, .. }) => {
                        proof {
                            reveal_strlit("None");
                            reveal_strlit("Some");
                            assert("None"@ =~= none_name());
                            assert("Some"@ =~= some_name());
                        }
                        let option = variants.len() == 2 && eq_text(&variants[0].name, "None")
                            && eq_text(&variants[1].name, "Some");
                        if !option {
                            return false;
                        }
                        match self {
                            HtnCondition::IsNone { .. } => eq_text(variant, "None"),
                            _ => eq_text(variant, "Some"),
                        }
                    },
                    _ => false,
                }
            },
            HtnCondition::EqualsBool { field, value, notted, .. } => match state.get(field) {
                Some(Value::Bool(b)) => if *notted { *b != *value } else { *b == *value },
                _ => false,
            },
            HtnCondition::GreaterThanInt { field, threshold, orequals, .. } => {
                match read_i32(state, field) {
                    Some(i) => if *orequals { i >= *threshold } else { i > *threshold },
                    None => false,
                }
            },
            HtnCondition::LessThanInt { field, threshold, orequals, .. } => {
                match read_i32(state, field) {
                    Some(i) => if *orequals { i <= *threshold } else { i < *threshold },
                    None => false,
                }
            },
            HtnCondition::EqualsInt { field, value, notted, .. } => match read_i32(state, field) {
                Some(i) => if *notted { i != *value } else { i == *value },
                None => false,
            },
            HtnCondition::EqualsEnum { field, enum_variant, notted, .. } => {
                match state.get(field) {
                    Some(Value::Enum { variant, .. }) => {
                        let same = *variant == *enum_variant;
                        if *notted { !same } else { same }
                    },
                    _ => false,
                }
            },
            HtnCondition::EqualsIdentifier { field, other_field, .. } => {
                match (state.get(field), state.get(other_field)) {
                    (Some(a), Some(b)) => values_equal_exec(a, b),
                    _ => false,
                }
            },
            HtnCondition::GreaterThanIdentifier { field, other_field, orequals, .. } => {
                match (state.get(field), state.get(other_field)) {
                    (Some(a), Some(b)) => {
                        let o = compare_numbers(a, b);
                        if *orequals { o >= 0 } else { o > 0 }
                    },
                    _ => false,
                }
            },
            HtnCondition::LessThanIdentifier { field, other_field, orequals, .. } => {
                match (state.get(field), state.get(other_field)) {
                    (Some(a), Some(b)) => {
                        let o = compare_numbers(a, b);
                        if *orequals { o <= 0 } else { o < 0 }
                    },
                    _ => false,
                }
            },
            HtnCondition::EqualsFloat { field, value, notted, .. } => match state.get(field) {
                Some(Value::Float { double: false, bits }) => {
                    let same = f32_equal_exec(*bits, *value as u64);
                    if *notted { !same } else { same }
                },
                _ => false,
            },
            HtnCondition::GreaterThanFloat { field, threshold, orequals, .. }
            | HtnCondition::LessThanFloat { field, threshold, orequals, .. } => match state.get(field) {
                Some(Value::Float { double: false, bits }) => f32_above_exec(*bits, *threshold as u64, *orequals),
                _ => false,
            },
        }
    }
}

/// Whether the first variant named `name` exists and carries no data.
pub fn has_unit_variant(variants: &Vec<VariantInfo>, name: &String) -> (r: bool)
    ensures
        r == unit_variant(variants_view(variants@), name@),
{
    match find_variant(variants, name) {
        Some(i) => variants[i].unit,
        None => false,
    }
}

impl HtnCondition {
    /// Whether the condition can be evaluated on `state` by
    /// [`HtnCondition::evaluate`] (see [`HtnCondition::evaluable`]).
    #[verifier::rlimit(30)]
    pub fn can_evaluate(&self, state: &HtnState, registry: &TypeRegistryModel) -> (r: bool)
        ensures
            r == self.evaluable(state@, registry.types@),
    {
        match self {
            HtnCondition::EqualsEnum { field, enum_type, enum_variant, .. } => match state.get(field) {
                Some(Value::Enum { variants, .. }) => has_unit_variant(variants, enum_variant)
                    && registry.lookup(enum_type) == Some(true),
                Some(_) => false,
                None => true,
            },
            HtnCondition::GreaterThanIdentifier { field, other_field, .. }
            | HtnCondition::LessThanIdentifier { field, other_field, .. } => {
                match (state.get(field), state.get(other_field)) {
                    (Some(a), Some(b)) => orderable_exec(a, b),
                    _ => true,
                }
            },
            HtnCondition::IsNone { field, .. } | HtnCondition::IsSome { field, .. } => {
                match state.get(field) {
                    Some(Value::Enum { .. }) => true,
                    Some(_) => false,
                    None => true,
                }
            },
            _ => true,
        }
    }
}

/// "Unknown state field `f` for condition `s`".
pub open spec fn unknown_field_msg(field: Seq<char>, syntax: Seq<char>) -> Seq<char> {
    "Unknown state field `"@ + field + "` for condition `"@ + syntax + "`"@
}

/// "State field `f` for condition `s` is not a T".
pub open spec fn wrong_type_msg(field: Seq<char>, syntax: Seq<char>, ty: Seq<char>) -> Seq<char> {
    "State field `"@ + field + "` for condition `"@ + syntax + "` is not a "@ + ty
}

/// "Field `f` is expected to be an Enum, in condition: `s`".
pub open spec fn not_enum_msg(field: Seq<char>, syntax: Seq<char>) -> Seq<char> {
    "Field `"@ + field + "` is expected to be an Enum, in condition: `"@ + syntax + "`"@
}

/// "Field `f` is expected to be an Option, in condition: `s`".
pub open spec fn not_option_msg(field: Seq<char>, syntax: Seq<char>) -> Seq<char> {
    "Field `"@ + field + "` is expected to be an Option, in condition: `"@ + syntax + "`"@
}

/// "Variant 'T::V' not found in enum for condition: 's'".
pub open spec fn no_variant_msg(ty: Seq<char>, variant: Seq<char>, syntax: Seq<char>) -> Seq<char> {
    "Variant '"@ + ty + "::"@ + variant + "' not found in enum for condition: '"@ + syntax + "'"@
}

/// "Struct enums and Tuple enums are not supported. condition: `s`".
pub open spec fn data_variant_msg(syntax: Seq<char>) -> Seq<char> {
    "Struct enums and Tuple enums are not supported. condition: `"@ + syntax + "`"@
}

/// "Enum type mismatch for condition: `s`".
pub open spec fn enum_mismatch_msg(syntax: Seq<char>) -> Seq<char> {
    "Enum type mismatch for condition: `"@ + syntax + "`"@
}

/// "Fields `a` and `b` are not of the same type for condition `s`".
pub open spec fn different_types_msg(a: Seq<char>, b: Seq<char>, syntax: Seq<char>) -> Seq<char> {
    "Fields `"@ + a + "` and `"@ + b + "` are not of the same type for condition `"@ + syntax
        + "`"@
}

/// Whether a value has the primitive type named by `ty`: `bool`, `i32` or
/// `f32`.
pub open spec fn has_primitive_type(v: Val, ty: Seq<char>) -> bool {
    if ty == "bool"@ {
        v is Bool
    } else if ty == "i32"@ {
        is_i32(v)
    } else {
        v matches Val::Float { double: false, .. }
    }
}

/// Checks that a field exists and has the primitive type `ty`.
pub open spec fn check_field_type(state: Seq<(Seq<char>, Val)>, field: Seq<char>, syntax: Seq<char>, ty: Seq<
    char,
>) -> Result<(), Seq<char>> {
    match lookup(state, field) {
        None => Err(unknown_field_msg(field, syntax)),
        Some(v) => if has_primitive_type(v, ty) {
            Ok(())
        } else {
            Err(wrong_type_msg(field, syntax, ty))
        },
    }
}

impl HtnCondition {
    /// Whether the fields the condition reads exist in `state` with types
    /// the condition can test, and if not, the message that says why.
    #[verifier::opaque]
    pub open spec fn type_check(self, state: Seq<(Seq<char>, Val)>) -> Result<(), Seq<char>> {
        match self {
            HtnCondition::EqualsBool { field, syntax, .. } => check_field_type(
                state,
                field@,
                syntax@,
                "bool"@,
            ),
            HtnCondition::GreaterThanInt { field, syntax, .. }
            | HtnCondition::LessThanInt { field, syntax, .. }
            | HtnCondition::EqualsInt { field, syntax, .. } => check_field_type(
                state,
                field@,
                syntax@,
                "i32"@,
            ),
            HtnCondition::EqualsFloat { field, syntax, .. }
            | HtnCondition::GreaterThanFloat { field, syntax, .. }
            | HtnCondition::LessThanFloat { field, syntax, .. } => check_field_type(
                state,
                field@,
                syntax@,
                "f32"@,
            ),
            HtnCondition::IsNone { field, syntax } | HtnCondition::IsSome { field, syntax } => {
                match lookup(state, field@) {
                    None => Err(unknown_field_msg(field@, syntax@)),
                    Some(Val::Enum { variants, .. }) => if is_option(variants) {
                        Ok(())
                    } else {
                        Err(not_option_msg(field@, syntax@))
                    },
                    Some(_) => Err(not_enum_msg(field@, syntax@)),
                }
            },
            HtnCondition::EqualsEnum { field, enum_type, enum_variant, syntax, .. } => {
                match lookup(state, field@) {
                    None => Err(unknown_field_msg(field@, syntax@)),
                    Some(Val::Enum { variants, type_ident, .. }) => match first_variant(
                        variants,
                        enum_variant@,
                    ) {
                        None => Err(no_variant_msg(enum_type@, enum_variant@, syntax@)),
                        Some(i) => if !variants[i].1 {
                            Err(data_variant_msg(syntax@))
                        } else if type_ident != enum_type@ {
                            Err(enum_mismatch_msg(syntax@))
                        } else {
                            Ok(())
                        },
                    },
                    Some(_) => Err(not_enum_msg(field@, syntax@)),
                }
            },
            HtnCondition::EqualsIdentifier { field, other_field, syntax, .. }
            | HtnCondition::GreaterThanIdentifier { field, other_field, syntax, .. }
            | HtnCondition::LessThanIdentifier { field, other_field, syntax, .. } => {
                match (lookup(state, field@), lookup(state, other_field@)) {
                    (None, _) => Err(unknown_field_msg(field@, syntax@)),
                    (Some(_), None) => Err(unknown_field_msg(other_field@, syntax@)),
                    (Some(a), Some(b)) => if same_type(a, b) {
                        Ok(())
                    } else {
                        Err(different_types_msg(field@, other_field@, syntax@))
                    },
                }
            },
        }
    }

    /// Checks that the fields the condition reads exist in `state` with
    /// types the condition can test.
    #[verifier::rlimit(30)]
    pub fn verify_types(&self, state: &HtnState, registry: &TypeRegistryModel) -> (r: Result<(), String>)
        ensures
            r is Ok <==> self.type_check(state@) is Ok,
            r matches Err(m) ==> self.type_check(state@) == Err::<(), Seq<char>>(m@),
    {
        proof {
            reveal(HtnCondition::type_check);
        }
        match self {
            HtnCondition::EqualsBool { field, syntax, .. } => verify_field_type(state, field, syntax, "bool"),
            HtnCondition::GreaterThanInt { field, syntax, .. }
            | HtnCondition::LessThanInt { field, syntax, .. }
            | HtnCondition::EqualsInt { field, syntax, .. } => verify_field_type(state, field, syntax, "i32"),
            HtnCondition::EqualsFloat { field, syntax, .. }
            | HtnCondition::GreaterThanFloat { field, syntax, .. }
            | HtnCondition::LessThanFloat { field, syntax, .. } => verify_field_type(state, field, syntax, "f32"),
            HtnCondition::IsNone { field, syntax } | HtnCondition::IsSome { field, syntax } => {
                match state.get(field) {
                    None => Err(unknown_field(field, syntax)),
                    Some(Value::Enum { variants, .. }) => {
                        proof {
                            reveal_strlit("None");
                            reveal_strlit("Some");
                            assert("None"@ =~= none_name());
                            assert("Some"@ =~= some_name());
                        }
                        if variants.len() == 2 && eq_text(&variants[0].name, "None") && eq_text(
                            &variants[1].name,
                            "Some",
                        ) {
                            Ok(())
                        } else {
                            let m = join(text("Field `"), field.as_str());
                            let m = join(m, "` is expected to be an Option, in condition: `");
                            let m = join(m, syntax.as_str());
                            Err(join(m, "`"))
                        }
                    },
                    Some(_) => Err(not_enum(field, syntax)),
                }
            },
            HtnCondition::EqualsEnum { field, enum_type, enum_variant, syntax, .. } => {
                match state.get(field) {
                    None => Err(unknown_field(field, syntax)),
                    Some(Value::Enum { variants, type_ident, .. }) => {
                        match find_variant(variants, enum_variant) {
                            None => {
                                let m = join(text("Variant '"), enum_type.as_str());
                                let m = join(m, "::");
                                let m = join(m, enum_variant.as_str());
                                let m = join(m, "' not found in enum for condition: '");
                                let m = join(m, syntax.as_str());
                                Err(join(m, "'"))
                            },
                            Some(i) => {
                                if !variants[i].unit {
                                    let m = join(
                                        text("Struct enums and Tuple enums are not supported. condition: `"),
                                        syntax.as_str(),
                                    );
                                    Err(join(m, "`"))
                                } else if *type_ident != *enum_type {
                                    let m = join(text("Enum type mismatch for condition: `"), syntax.as_str());
                                    Err(join(m, "`"))
                                } else {
                                    Ok(())
                                }
                            },
                        }
                    },
                    Some(_) => Err(not_enum(field, syntax)),
                }
            },
            HtnCondition::EqualsIdentifier { field, other_field, syntax, .. }
            | HtnCondition::GreaterThanIdentifier { field, other_field, syntax, .. }
            | HtnCondition::LessThanIdentifier { field, other_field, syntax, .. } => {
                match state.get(field) {
                    None => Err(unknown_field(field, syntax)),
                    Some(a) => match state.get(other_field) {
                        None => Err(unknown_field(other_field, syntax)),
                        Some(b) => if same_type_exec(a, b) {
                            Ok(())
                        } else {
                            let m = join(text("Fields `"), field.as_str());
                            let m = join(m, "` and `");
                            let m = join(m, other_field.as_str());
                            let m = join(m, "` are not of the same type for condition `");
                            let m = join(m, syntax.as_str());
                            Err(join(m, "`"))
                        },
                    },
                }
            },
        }
    }
}

fn unknown_field(field: &String, syntax: &String) -> (r: String)
    ensures
        r@ == unknown_field_msg(field@, syntax@),
{
    let m = join(text("Unknown state field `"), field.as_str());
    let m = join(m, "` for condition `");
    let m = join(m, syntax.as_str());
    join(m, "`")
}

fn not_enum(field: &String, syntax: &String) -> (r: String)
    ensures
        r@ == not_enum_msg(field@, syntax@),
{
    let m = join(text("Field `"), field.as_str());
    let m = join(m, "` is expected to be an Enum, in condition: `");
    let m = join(m, syntax.as_str());
    join(m, "`")
}

fn verify_field_type(state: &HtnState, field: &String, syntax: &String, ty: &str) -> (r: Result<
    (),
    String,
>)
    requires
        ty@ == "bool"@ || ty@ == "i32"@ || ty@ == "f32"@,
    ensures
        r is Ok <==> check_field_type(state@, field@, syntax@, ty@) is Ok,
        r matches Err(m) ==> check_field_type(state@, field@, syntax@, ty@) == Err::<(), Seq<char>>(
            m@,
        ),
{
    match state.get(field) {
        None => Err(unknown_field(field, syntax)),
        Some(v) => {
            proof {
                reveal_strlit("bool");
                reveal_strlit("i32");
                reveal_strlit("f32");
            }
            let ok = if eq_text(&text(ty), "bool") {
                v matches Value::Bool(_)
            } else if eq_text(&text(ty), "i32") {
                v matches Value::Int { kind: IntKind::I32, .. }
            } else {
                v matches Value::Float { double: false, .. }
            };
            if ok {
                Ok(())
            } else {
                let m = join(text("State field `"), field.as_str());
                let m = join(m, "` for condition `");
                let m = join(m, syntax.as_str());
                let m = join(m, "` is not a ");
                Err(join(m, ty))
            }
        },
    }
}

/// The `i32` value of the field named `name`, when it is an `i32`.
pub fn read_i32(state: &HtnState, name: &String) -> (r: Option<i32>)
    requires
        state.wf(),
    ensures
        r matches Some(i) ==> lookup(state@, name@) matches Some(v) && is_i32(v) && int_of(v) == i,
        r is None ==> !(lookup(state@, name@) matches Some(v) && is_i32(v)),
{
    match state.get(name) {
        Some(Value::Int { kind: IntKind::I32, negative, magnitude }) => {
            if *negative {
                let m: i128 = *magnitude as i128;
                Some((-m) as i32)
            } else {
                Some(*magnitude as i32)
            }
        },
        _ => None,
    }
}

/// On a field of the tested type, `!=` is the negation of `==`: for a
/// boolean, an `i32` and an enum field.
pub proof fn law_not_equal_negates(field: String, state: Seq<(Seq<char>, Val)>, b: bool, i: i32, ty: String, variant: String, syntax: String)
    ensures
        lookup(state, field@) matches Some(Val::Bool(_)) ==> (HtnCondition::EqualsBool {
            field,
            value: b,
            notted: true,
            syntax,
        }).holds(state) == !(HtnCondition::EqualsBool { field, value: b, notted: false, syntax }).holds(
            state,
        ),
        lookup(state, field@) matches Some(v) && is_i32(v) ==> (HtnCondition::EqualsInt {
            field,
            value: i,
            notted: true,
            syntax,
        }).holds(state) == !(HtnCondition::EqualsInt { field, value: i, notted: false, syntax }).holds(
            state,
        ),
        lookup(state, field@) matches Some(Val::Enum { .. }) ==> (HtnCondition::EqualsEnum {
            field,
            enum_type: ty,
            enum_variant: variant,
            notted: true,
            syntax,
        }).holds(state) == !(HtnCondition::EqualsEnum {
            field,
            enum_type: ty,
            enum_variant: variant,
            notted: false,
            syntax,
        }).holds(state),
{
}

/// On two `i32` fields with values `x` and `y`, the tests between them
/// compare the values: `<` holds exactly when `x < y`, `<=` when `x <= y`,
/// `>` when `x > y`, `>=` when `x >= y`, and `==` when `x == y`.
pub proof fn law_field_comparisons(
    a: String,
    b: String,
    x: int,
    y: int,
    orequals: bool,
    syntax: String,
    state: Seq<(Seq<char>, Val)>,
)
    requires
        lookup(state, a@) == Some(Val::Int { kind: IntKind::I32, value: x }),
        lookup(state, b@) == Some(Val::Int { kind: IntKind::I32, value: y }),
    ensures
        (HtnCondition::LessThanIdentifier { field: a, other_field: b, orequals, syntax }).holds(state)
            == if orequals { x <= y } else { x < y },
        (HtnCondition::GreaterThanIdentifier { field: a, other_field: b, orequals, syntax }).holds(state)
            == if orequals { x >= y } else { x > y },
        (HtnCondition::EqualsIdentifier { field: a, other_field: b, notted: false, syntax }).holds(state)
            == (x == y),
{
}

/// A field is less than another exactly when the other is greater than
/// it: `a < b` holds exactly when `b > a` does, and `a <= b` exactly when
/// `b >= a` does, on every state.
pub proof fn law_less_is_greater_swapped(
    a: String,
    b: String,
    orequals: bool,
    s1: String,
    s2: String,
    state: Seq<(Seq<char>, Val)>,
)
    ensures
        (HtnCondition::LessThanIdentifier { field: a, other_field: b, orequals, syntax: s1 }).holds(state)
            == (HtnCondition::GreaterThanIdentifier { field: b, other_field: a, orequals, syntax: s2 }).holds(
            state,
        ),
{
}

/// On an `i32` field with value `x`, the tests against an integer `t`
/// compare the value: `>` holds exactly when `x > t`, `>=` when `x >= t`,
/// `<` when `x < t`, `<=` when `x <= t`, `==` when `x == t` and `!=` when
/// `x != t`.
pub proof fn law_int_comparisons(
    field: String,
    x: int,
    t: i32,
    orequals: bool,
    notted: bool,
    syntax: String,
    state: Seq<(Seq<char>, Val)>,
)
    requires
        lookup(state, field@) == Some(Val::Int { kind: IntKind::I32, value: x }),
    ensures
        (HtnCondition::GreaterThanInt { field, threshold: t, orequals, syntax }).holds(state) == if orequals {
            x >= t
        } else {
            x > t
        },
        (HtnCondition::LessThanInt { field, threshold: t, orequals, syntax }).holds(state) == if orequals {
            x <= t
        } else {
            x < t
        },
        (HtnCondition::EqualsInt { field, value: t, notted, syntax }).holds(state) == if notted {
            x != t
        } else {
            x == t
        },
{
}

/// On a boolean field with value `b`, `== v` holds exactly when `b == v`
/// and `!= v` exactly when `b != v`; on an enum field whose variant is
/// `w`, `== T::V` holds exactly when `w` is `V` and `!= T::V` exactly when
/// it is not.
pub proof fn law_equality_tests(
    field: String,
    b: bool,
    v: bool,
    w: Seq<char>,
    ty: String,
    variant: String,
    notted: bool,
    syntax: String,
    state: Seq<(Seq<char>, Val)>,
)
    ensures
        lookup(state, field@) == Some(Val::Bool(b)) ==> (HtnCondition::EqualsBool {
            field,
            value: v,
            notted,
            syntax,
        }).holds(state) == if notted { b != v } else { b == v },
        lookup(state, field@) matches Some(Val::Enum { variant: cur, .. }) && cur == w ==> (
        HtnCondition::EqualsEnum { field, enum_type: ty, enum_variant: variant, notted, syntax }).holds(
            state,
        ) == if notted { w != variant@ } else { w == variant@ },
{
}

/// What makes a condition well typed on `state`: an integer test reads an
/// `i32` field, a boolean test a `bool` field, a floating-point test an
/// `f32` field, a test between two fields reads two fields of one type, an
/// `Option` test reads an `Option` field, and an enum test reads an enum
/// field whose type is named as the test names it and whose (first)
/// variant of the tested name carries no data.
pub open spec fn well_typed(c: HtnCondition, state: Seq<(Seq<char>, Val)>) -> bool {
    match c {
        HtnCondition::EqualsInt { field, .. }
        | HtnCondition::GreaterThanInt { field, .. }
        | HtnCondition::LessThanInt { field, .. } => lookup(state, field@) matches Some(
            Val::Int { kind: IntKind::I32, .. },
        ),
        HtnCondition::EqualsBool { field, .. } => lookup(state, field@) matches Some(Val::Bool(_)),
        HtnCondition::EqualsFloat { field, .. }
        | HtnCondition::GreaterThanFloat { field, .. }
        | HtnCondition::LessThanFloat { field, .. } => lookup(state, field@) matches Some(
            Val::Float { double: false, .. },
        ),
        HtnCondition::EqualsIdentifier { field, other_field, .. }
        | HtnCondition::GreaterThanIdentifier { field, other_field, .. }
        | HtnCondition::LessThanIdentifier { field, other_field, .. } => lookup(state, field@) matches Some(
            a,
        ) && lookup(state, other_field@) matches Some(b) && same_type(a, b),
        HtnCondition::IsNone { field, .. } | HtnCondition::IsSome { field, .. } => lookup(
            state,
            field@,
        ) matches Some(Val::Enum { variants, .. }) && is_option(variants),
        HtnCondition::EqualsEnum { field, enum_type, enum_variant, .. } => lookup(
            state,
            field@,
        ) matches Some(Val::Enum { variants, type_ident, .. }) && type_ident == enum_type@
            && unit_variant(variants, enum_variant@),
    }
}

/// A condition passes its type check on a state exactly when it is well
/// typed there (see [`well_typed`]): well-typed conditions are accepted,
/// and the others are refused.
#[verifier::rlimit(30)]
pub proof fn law_type_check_accepts_well_typed(c: HtnCondition, state: Seq<(Seq<char>, Val)>)
    ensures
        c.type_check(state) is Ok <==> well_typed(c, state),
{
    reveal(HtnCondition::type_check);
    reveal_strlit("bool");
    reveal_strlit("i32");
    reveal_strlit("f32");
    assert("bool"@.len() != "i32"@.len());
    assert("bool"@.len() != "f32"@.len());
    assert("i32"@[0] != "f32"@[0]);
}

/// On a well-formed state, an `Option` field is `None` or `Some`: exactly
/// one of the two tests holds.
pub proof fn law_none_or_some(state: HtnState, field: String, s1: String, s2: String)
    requires
        state.wf(),
        lookup(state@, field@) matches Some(Val::Enum { variants, .. }) && is_option(variants),
    ensures
        (HtnCondition::IsNone { field, syntax: s1 }).holds(state@) != (HtnCondition::IsSome {
            field,
            syntax: s2,
        }).holds(state@),
{
    lemma_first_index_bounds(state@, field@);
    let i = first_index(state@, field@).unwrap();
    assert(state@[i] == (state.fields@[i].name@, state.fields@[i].value@));
    assert(state.fields@[i].value.wf());
    if let Val::Enum { variants, variant, .. } = lookup(state@, field@).unwrap() {
        let k = choose|k: int| 0 <= k < variants.len() && #[trigger] variants[k].0 == variant;
        assert(k == 0 || k == 1);
        assert(none_name() != some_name());
    }
}

/// On an `i32` field, `>` is the negation of `<=`, and `<` of `>=`.
pub proof fn law_int_order_complements(field: String, state: Seq<(Seq<char>, Val)>, t: i32, syntax: String)
    requires
        lookup(state, field@) matches Some(v) && is_i32(v),
    ensures
        (HtnCondition::GreaterThanInt { field, threshold: t, orequals: false, syntax }).holds(state)
            == !(HtnCondition::LessThanInt { field, threshold: t, orequals: true, syntax }).holds(state),
        (HtnCondition::LessThanInt { field, threshold: t, orequals: false, syntax }).holds(state)
            == !(HtnCondition::GreaterThanInt { field, threshold: t, orequals: true, syntax }).holds(
            state,
        ),
{
}

/// A condition that passes its type check on a state can be evaluated on
/// it, except where the check leaves a failure open: an enum test whose
/// enum type the registry does not resolve to an enum, and an ordering of
/// two fields that are not numbers or hold a NaN.
pub proof fn law_checked_condition_evaluable(c: HtnCondition, state: Seq<(Seq<char>, Val)>, types: Seq<RegisteredType>)
    requires
        c.type_check(state) is Ok,
        c matches HtnCondition::EqualsEnum { enum_type, .. } ==> resolves_enum(types, enum_type@),
        (c is GreaterThanIdentifier || c is LessThanIdentifier) ==> match c {
            HtnCondition::GreaterThanIdentifier { field, other_field, .. }
            | HtnCondition::LessThanIdentifier { field, other_field, .. } => match (
                lookup(state, field@),
                lookup(state, other_field@),
            ) {
                (Some(a), Some(b)) => is_number(a) && !(a matches Val::Float { double, bits }
                    && float_is_nan(double, bits)) && !(b matches Val::Float { double, bits }
                    && float_is_nan(double, bits)),
                _ => true,
            },
            _ => true,
        },
    ensures
        c.evaluable(state, types),
{
    reveal(HtnCondition::type_check);
    if let HtnCondition::EqualsEnum { field, enum_variant, .. } = c {
        if let Some(Val::Enum { variants, .. }) = lookup(state, field@) {
            assert(unit_variant(variants, enum_variant@));
        }
    }
}

} // verus!
